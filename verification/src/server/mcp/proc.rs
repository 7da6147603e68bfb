//! The MCP server processor.
use std::collections::HashMap;

use crate::error::{ErrorMsg, ResponseMsg, ServiceError};
use crate::io::{http_alpn, http_protocols, url_is_ssl, with_alpn, ListenerView};
use crate::server::proc::{HyperServerSettings, ServerSettingsView, Timeout};
use vstd::prelude::*;

verus! {

broadcast use vstd::std_specs::hash::group_hash_axioms;

/// What reaches the MCP server processor.
#[derive(Debug)]
pub enum McpEvent<R, M> {
    /// A service answered a request.
    Response(ResponseMsg<M>),
    /// A service failed a request.
    Error(ErrorMsg<M>),
    /// The bus sent a new service table.
    Service,
    /// ProSA shuts down.
    Shutdown,
    /// A tool asks for a service, which the service table knows or not.
    Asked { request: R, service: String, data: M, reachable: bool },
    /// The listener accepted a connection.
    Accepted,
    /// The service did not answer the request of an id in time.
    Expired { id: u64 },
}

/// What the MCP server processor has to do.
#[derive(Debug)]
pub enum McpTask<R, M> {
    /// Nothing but to wait for the next event.
    Keep,
    /// Hand the response of the service to the request that waits under its id.
    Respond { id: u64, response: ResponseMsg<M> },
    /// Hand an error to the request that waits under an id.
    Fail { id: u64, error: ErrorMsg<M> },
    /// Send a request to a service under an id, and keep it until the service answers.
    Forward { id: u64, request: R, service: String, data: M, timeout: Timeout },
    /// Hand an error to a request right away.
    Refuse { request: R, error: ErrorMsg<M> },
    /// Serve a connection that was accepted.
    Serve,
    /// End the processor.
    Terminate,
}

/// A request that waits for its service.
#[derive(Debug)]
pub struct WaitingCall<M> {
    /// Service it asked for.
    pub service: String,
    /// Data it came with.
    pub data: M,
}

/// What the MCP server processor stands for.
pub struct McpView<M> {
    /// Settings in force.
    pub settings: ServerSettingsView,
    /// Id of the next request sent to a service.
    pub next_id: u64,
    /// Requests that wait, by the id they were sent under.
    pub pending: Map<u64, WaitingCall<M>>,
}

/// The error a request gets when it is not from its service: it is under no id, names the service,
/// and gives the data of the request back.
pub open spec fn own_error<M>(service: String, data: M, err: ServiceError) -> ErrorMsg<M> {
    ErrorMsg { id: 0, service, data: Some(data), err }
}

/// Whether two tasks are the same, but that the data sent to a service is a copy of the one that the
/// request keeps.
pub open spec fn is_copied<R, M: Clone>(task: McpTask<R, M>, r: McpTask<R, M>) -> bool {
    match task {
        McpTask::Forward { id, request, service, data, timeout } => r matches McpTask::Forward {
            id: i,
            request: q,
            service: s,
            data: copy,
            timeout: t,
        } && i == id && q == request && s == service && t == timeout && cloned(data, copy),
        _ => r == task,
    }
}

/// The listener of the MCP server: HTTP/2 is negotiated first when its URL asks for SSL.
pub open spec fn mcp_listener(listener: ListenerView) -> ListenerView {
    if url_is_ssl(listener.url) {
        ListenerView { ssl: Some(with_alpn(listener.ssl, http_protocols())), ..listener }
    } else {
        listener
    }
}

impl<M> McpView<M> {
    /// There is an id left for what the event asks.
    pub open spec fn expects<R>(self, event: McpEvent<R, M>) -> bool {
        event matches McpEvent::Asked { reachable: true, .. } ==> self.next_id < u64::MAX
    }

    /// The processor once an event reached it.
    pub open spec fn after<R>(self, event: McpEvent<R, M>) -> McpView<M> {
        match event {
            McpEvent::Response(response) => McpView {
                pending: self.pending.remove(response.id),
                ..self
            },
            McpEvent::Error(error) => McpView { pending: self.pending.remove(error.id), ..self },
            McpEvent::Expired { id } => McpView { pending: self.pending.remove(id), ..self },
            McpEvent::Asked { service, data, reachable: true, .. } => McpView {
                next_id: (self.next_id + 1) as u64,
                pending: self.pending.insert(self.next_id, WaitingCall { service, data }),
                ..self
            },
            _ => self,
        }
    }

    /// What the processor has to do when an event reaches it.
    pub open spec fn task<R>(self, event: McpEvent<R, M>) -> McpTask<R, M> {
        match event {
            McpEvent::Response(response) => if self.pending.contains_key(response.id) {
                McpTask::Respond { id: response.id, response }
            } else {
                McpTask::Keep
            },
            McpEvent::Error(error) => if self.pending.contains_key(error.id) {
                McpTask::Fail { id: error.id, error }
            } else {
                McpTask::Keep
            },
            McpEvent::Expired { id } => if self.pending.contains_key(id) {
                let WaitingCall { service, data } = self.pending[id];
                let millis = self.settings.service_timeout.in_millis() as u64;
                McpTask::Fail {
                    id,
                    error: own_error(service, data, ServiceError::Timeout(service, millis)),
                }
            } else {
                McpTask::Keep
            },
            McpEvent::Service => McpTask::Keep,
            McpEvent::Shutdown => McpTask::Terminate,
            McpEvent::Asked { request, service, data, reachable } => if reachable {
                McpTask::Forward {
                    id: self.next_id,
                    request,
                    service,
                    data,
                    timeout: self.settings.service_timeout,
                }
            } else {
                McpTask::Refuse {
                    request,
                    error: own_error(
                        service,
                        data,
                        ServiceError::UnableToReachService(service),
                    ),
                }
            },
            McpEvent::Accepted => McpTask::Serve,
        }
    }
}

/// The MCP server processor.
#[derive(Debug)]
pub struct McpServerProc<M> {
    settings: HyperServerSettings,
    next_id: u64,
    pending: HashMap<u64, WaitingCall<M>>,
}

impl<M> View for McpServerProc<M> {
    type V = McpView<M>;

    closed spec fn view(&self) -> McpView<M> {
        McpView { settings: self.settings@, next_id: self.next_id, pending: self.pending@ }
    }
}

impl<M> McpServerProc<M> {
    /// A processor that listens where its settings say.
    pub fn new(settings: HyperServerSettings) -> (r: McpServerProc<M>)
        ensures
            r@ == (McpView::<M> {
                settings: ServerSettingsView {
                    listener: mcp_listener(settings@.listener),
                    ..settings@
                },
                next_id: 0,
                pending: Map::empty(),
            }),
    {
        let mut settings = settings;
        if settings.listener.url.is_ssl() {
            settings.listener.set_alpn(http_alpn());
        }
        McpServerProc { settings, next_id: 0, pending: HashMap::new() }
    }

    /// Settings in force.
    pub fn settings(&self) -> (r: &HyperServerSettings)
        ensures
            r@ == self@.settings,
    {
        &self.settings
    }

    /// Whether there is an id left for another request.
    pub fn has_room(&self) -> (r: bool)
        ensures
            r == (self@.next_id < u64::MAX),
    {
        self.next_id < u64::MAX
    }

    /// Take an event, and say what has to be done. A request that is sent keeps its data, and the
    /// service gets a copy of it.
    pub fn step<R>(&mut self, event: McpEvent<R, M>) -> (r: McpTask<R, M>) where M: Clone
        requires
            old(self)@.expects(event),
        ensures
            final(self)@ == old(self)@.after(event),
            is_copied(old(self)@.task(event), r),
    {
        match event {
            McpEvent::Response(response) => {
                let id: u64 = response.id;
                match self.close(id) {
                    Some(_) => McpTask::Respond { id, response },
                    None => McpTask::Keep,
                }
            },
            McpEvent::Error(error) => {
                let id: u64 = error.id;
                match self.close(id) {
                    Some(_) => McpTask::Fail { id, error },
                    None => McpTask::Keep,
                }
            },
            McpEvent::Expired { id } => match self.close(id) {
                Some(call) => {
                    let millis: u64 = self.settings.service_timeout.as_millis();
                    let err = ServiceError::Timeout(call.service.clone(), millis);
                    McpTask::Fail { id, error: fail(call.service, call.data, err) }
                },
                None => McpTask::Keep,
            },
            McpEvent::Service => McpTask::Keep,
            McpEvent::Shutdown => McpTask::Terminate,
            McpEvent::Asked { request, service, data, reachable } => if reachable {
                let id: u64 = self.next_id;
                let copy = data.clone();
                self.pending.insert(id, WaitingCall { service: service.clone(), data });
                self.next_id = self.next_id + 1;
                McpTask::Forward {
                    id,
                    request,
                    service,
                    data: copy,
                    timeout: self.settings.service_timeout,
                }
            } else {
                let err = ServiceError::UnableToReachService(service.clone());
                McpTask::Refuse { request, error: fail(service, data, err) }
            },
            McpEvent::Accepted => McpTask::Serve,
        }
    }

    /// Close the request of an id, if it waits.
    fn close(&mut self, id: u64) -> (r: Option<WaitingCall<M>>)
        ensures
            final(self)@ == (McpView { pending: old(self)@.pending.remove(id), ..old(self)@ }),
            r == if old(self)@.pending.contains_key(id) {
                Some(old(self)@.pending[id])
            } else {
                None
            },
    {
        let waits = self.pending.remove(&id);
        assert(self@.pending =~= old(self)@.pending.remove(id));
        waits
    }
}

/// The error a request gets when it is not from its service.
fn fail<M>(service: String, data: M, err: ServiceError) -> (r: ErrorMsg<M>)
    ensures
        r == own_error(service, data, err),
{
    ErrorMsg { id: 0, service, data: Some(data), err }
}

} // verus!
