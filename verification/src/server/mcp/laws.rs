//! What holds of the MCP server processor, whatever reaches it.
use crate::error::{ErrorMsg, ResponseMsg, ServiceError};
use crate::io::{url_is_ssl, ListenerView};
use crate::server::mcp::proc::{
    is_copied, mcp_listener, own_error, McpEvent, McpTask, McpView,
};
use vstd::prelude::*;

verus! {

impl<M> McpView<M> {
    /// Every request that waits was sent under an id that comes before the next one.
    pub open spec fn inv(self) -> bool {
        forall|id: u64| #[trigger] self.pending.contains_key(id) ==> id < self.next_id
    }

    /// The processor once events reached it one after the other.
    pub open spec fn after_all<R>(self, events: Seq<McpEvent<R, M>>) -> McpView<M>
        decreases events.len(),
    {
        if events.len() == 0 {
            self
        } else {
            self.after_all(events.drop_last()).after(events.last())
        }
    }

    /// There is an id left for what each of the events asks.
    pub open spec fn expects_all<R>(self, events: Seq<McpEvent<R, M>>) -> bool
        decreases events.len(),
    {
        events.len() == 0 || (self.expects_all(events.drop_last()) && self.after_all(
            events.drop_last(),
        ).expects(events.last()))
    }
}

/// Ids are never given twice: the processor keeps every id behind the next one, and a request is
/// sent under an id that no request waits under.
pub proof fn law_ids_are_never_reused<R, M>(server: McpView<M>, event: McpEvent<R, M>)
    requires
        server.inv(),
        server.expects(event),
    ensures
        server.after(event).inv(),
        server.after(event).next_id >= server.next_id,
        server.task(event) matches McpTask::Forward { id, .. } ==> !server.pending.contains_key(id)
            && server.after(event).next_id > id,
{
    assert forall|id: u64| #[trigger] server.after(event).pending.contains_key(id) implies id
        < server.after(event).next_id by {
        if server.pending.contains_key(id) {
            assert(id < server.next_id);
        }
    }
}

/// How many of the events ask for a service that can be reached.
pub open spec fn forwarded<R, M>(events: Seq<McpEvent<R, M>>) -> nat
    decreases events.len(),
{
    if events.len() == 0 {
        0
    } else if events.last() matches McpEvent::Asked { reachable: true, .. } {
        forwarded(events.drop_last()) + 1
    } else {
        forwarded(events.drop_last())
    }
}

/// Requests are numbered in the order they come: the next one is sent under the number of those that
/// were sent before it, with the name of its service and its data.
pub proof fn law_requests_are_numbered_in_order<R, M>(
    server: McpView<M>,
    events: Seq<McpEvent<R, M>>,
    request: R,
    service: String,
    data: M,
)
    requires
        server.expects_all(events),
    ensures
        server.after_all(events).next_id == server.next_id + forwarded(events),
        server.after_all(events).task(
            McpEvent::Asked { request, service, data, reachable: true },
        ) == (McpTask::Forward {
            id: (server.next_id + forwarded(events)) as u64,
            request,
            service,
            data,
            timeout: server.settings.service_timeout,
        }),
    decreases events.len(),
{
    lemma_settings_stay(server, events);
    if events.len() > 0 {
        law_requests_are_numbered_in_order(server, events.drop_last(), request, service, data);
    }
}

/// Nothing changes the settings.
proof fn lemma_settings_stay<R, M>(server: McpView<M>, events: Seq<McpEvent<R, M>>)
    ensures
        server.after_all(events).settings == server.settings,
    decreases events.len(),
{
    if events.len() > 0 {
        lemma_settings_stay(server, events.drop_last());
    }
}

/// Which request a task closes, if any.
pub open spec fn closed_request<R, M>(task: McpTask<R, M>) -> Option<u64> {
    match task {
        McpTask::Respond { id, .. } => Some(id),
        McpTask::Fail { id, .. } => Some(id),
        _ => None,
    }
}

/// A request that waits is closed once: the first answer, failure or timeout that comes for it is
/// handed to it, nothing else ever is, and the others are left waiting.
pub proof fn law_each_request_is_closed_once<R, M>(
    server: McpView<M>,
    event: McpEvent<R, M>,
    later: McpEvent<R, M>,
    id: u64,
)
    requires
        closed_request(server.task(event)) == Some(id),
    ensures
        server.pending.contains_key(id),
        server.after(event).pending == server.pending.remove(id),
        closed_request(server.after(event).task(later)) != Some(id),
{
}

/// A request that was closed stays so for ever, whatever reaches the processor.
pub proof fn law_closed_request_stays_closed<R, M>(
    server: McpView<M>,
    events: Seq<McpEvent<R, M>>,
    event: McpEvent<R, M>,
    id: u64,
)
    requires
        server.expects_all(events),
        id < server.next_id,
        !server.pending.contains_key(id),
    ensures
        !server.after_all(events).pending.contains_key(id),
        closed_request(server.after_all(events).task(event)) != Some(id),
{
    lemma_closed_stays(server, events, id);
}

/// A closed request stays closed, behind the next id.
proof fn lemma_closed_stays<R, M>(server: McpView<M>, events: Seq<McpEvent<R, M>>, id: u64)
    requires
        server.expects_all(events),
        id < server.next_id,
        !server.pending.contains_key(id),
    ensures
        id < server.after_all(events).next_id,
        !server.after_all(events).pending.contains_key(id),
    decreases events.len(),
{
    if events.len() > 0 {
        lemma_closed_stays(server, events.drop_last(), id);
    }
}

/// A request stays open until something closes it.
pub proof fn law_requests_wait_until_closed<R, M>(
    server: McpView<M>,
    event: McpEvent<R, M>,
    id: u64,
)
    requires
        server.pending.contains_key(id),
        !server.after(event).pending.contains_key(id),
    ensures
        closed_request(server.task(event)) == Some(id),
{
}

/// A request that was sent and that its service does not answer is told so, by an error under no id
/// that names the service, says the time the service was given and gives the data back.
pub proof fn law_unanswered_request_times_out<R, M>(
    server: McpView<M>,
    request: R,
    service: String,
    data: M,
)
    requires
        server.next_id < u64::MAX,
    ensures
        ({
            let asked = server.after(McpEvent::Asked { request, service, data, reachable: true });
            let id = server.next_id;
            asked.task(McpEvent::<R, M>::Expired { id }) == (McpTask::<R, M>::Fail {
                id,
                error: ErrorMsg {
                    id: 0,
                    service,
                    data: Some(data),
                    err: ServiceError::Timeout(
                        service,
                        server.settings.service_timeout.in_millis() as u64,
                    ),
                },
            })
        }),
{
}

/// A service that can't be reached is answered as such, by an error under no id that names the
/// service and gives the data back. No id is used for it.
pub proof fn law_unreachable_service_is_refused<R, M>(
    server: McpView<M>,
    request: R,
    service: String,
    data: M,
)
    ensures
        ({
            let event = McpEvent::Asked { request, service, data, reachable: false };
            &&& server.after(event) == server
            &&& server.task(event) == (McpTask::Refuse {
                request,
                error: ErrorMsg {
                    id: 0,
                    service,
                    data: Some(data),
                    err: ServiceError::UnableToReachService(service),
                },
            })
        }),
{
}

/// Whether an event closes the request of an id.
pub open spec fn closes<R, M>(event: McpEvent<R, M>, id: u64) -> bool {
    match event {
        McpEvent::Response(response) => response.id == id,
        McpEvent::Error(error) => error.id == id,
        McpEvent::Expired { id: other } => other == id,
        _ => false,
    }
}

/// A request waits for its service as long as nothing closes it.
proof fn lemma_request_waits<R, M>(server: McpView<M>, events: Seq<McpEvent<R, M>>, id: u64)
    requires
        server.expects_all(events),
        id < server.next_id,
        server.pending.contains_key(id),
        forall|i: int| 0 <= i < events.len() ==> !closes(#[trigger] events[i], id),
    ensures
        id < server.after_all(events).next_id,
        server.after_all(events).pending.contains_key(id),
        server.after_all(events).pending[id] == server.pending[id],
    decreases events.len(),
{
    if events.len() > 0 {
        let before = events.drop_last();
        assert forall|i: int| 0 <= i < before.len() implies !closes(#[trigger] before[i], id) by {
            assert(before[i] == events[i]);
        }
        lemma_request_waits(server, before, id);
        assert(!closes(events[events.len() - 1], id));
    }
}

/// A request that is sent is answered once, whatever else reaches the processor in the meantime:
/// with the message of its service, unchanged, if that comes first, and otherwise with a timeout
/// that gives its data back. What comes later for it is dropped, and nothing that comes for another
/// request is handed to it.
pub proof fn law_forwarded_request_is_answered_once<R, M>(
    server: McpView<M>,
    request: R,
    service: String,
    data: M,
    events: Seq<McpEvent<R, M>>,
    response: ResponseMsg<M>,
    error: ErrorMsg<M>,
    later: McpEvent<R, M>,
)
    requires
        server.next_id < u64::MAX,
        server.after(McpEvent::Asked { request, service, data, reachable: true }).expects_all(
            events,
        ),
        forall|i: int| 0 <= i < events.len() ==> !closes(#[trigger] events[i], server.next_id),
        response.id == server.next_id,
        error.id == server.next_id,
    ensures
        ({
            let id = server.next_id;
            let asked = server.after(McpEvent::Asked { request, service, data, reachable: true });
            let waiting = asked.after_all(events);
            let responded = McpEvent::<R, M>::Response(response);
            let failed = McpEvent::<R, M>::Error(error);
            let expired = McpEvent::<R, M>::Expired { id };
            let millis = server.settings.service_timeout.in_millis() as u64;
            &&& waiting.task(responded) == (McpTask::<R, M>::Respond { id, response })
            &&& waiting.task(failed) == (McpTask::<R, M>::Fail { id, error })
            &&& waiting.task(expired) == (McpTask::<R, M>::Fail {
                id,
                error: own_error(service, data, ServiceError::Timeout(service, millis)),
            })
            &&& closed_request(waiting.after(responded).task(later)) != Some(id)
            &&& closed_request(waiting.after(failed).task(later)) != Some(id)
            &&& closed_request(waiting.after(expired).task(later)) != Some(id)
            &&& closed_request(waiting.task(later)) == Some(id) ==> closes(later, id)
        }),
{
    let asked = server.after(McpEvent::Asked { request, service, data, reachable: true });
    lemma_settings_stay(asked, events);
    lemma_request_waits(asked, events, server.next_id);
}

/// A request that is sent is given an id, its service, its data and exactly the time that the settings
/// give, and it waits under that id. Those that wait already still do.
pub proof fn law_sent_request_is_given_the_service_timeout<R, M>(
    server: McpView<M>,
    request: R,
    service: String,
    data: M,
    other: u64,
)
    requires
        server.next_id < u64::MAX,
    ensures
        ({
            let event = McpEvent::Asked { request, service, data, reachable: true };
            let task = server.task(event);
            let after = server.after(event);
            let id = server.next_id;
            &&& task is Forward
            &&& task->Forward_id == id
            &&& task->Forward_request == request
            &&& task->service == service
            &&& task->data == data
            &&& task->timeout.secs == server.settings.service_timeout.secs
            &&& task->timeout.nanos == server.settings.service_timeout.nanos
            &&& after.next_id == id + 1
            &&& after.pending.contains_key(id)
            &&& after.pending[id].service == service
            &&& after.pending[id].data == data
            &&& other != id ==> (after.pending.contains_key(other)
                <==> server.pending.contains_key(other))
            &&& other != id && server.pending.contains_key(other) ==> after.pending[other]
                == server.pending[other]
        }),
{
}

/// What comes for a request that does not wait is dropped.
pub proof fn law_unknown_answer_is_dropped<R, M>(server: McpView<M>, event: McpEvent<R, M>)
    requires
        match event {
            McpEvent::Response(response) => !server.pending.contains_key(response.id),
            McpEvent::Error(error) => !server.pending.contains_key(error.id),
            McpEvent::Expired { id } => !server.pending.contains_key(id),
            _ => false,
        },
    ensures
        server.task(event) == McpTask::<R, M>::Keep,
        server.after(event) == server,
{
    match event {
        McpEvent::Response(response) => {
            assert(server.pending.remove(response.id) =~= server.pending);
        },
        McpEvent::Error(error) => {
            assert(server.pending.remove(error.id) =~= server.pending);
        },
        McpEvent::Expired { id } => {
            assert(server.pending.remove(id) =~= server.pending);
        },
        _ => {},
    }
}

/// A request that waits gets the answer of its service or its failure, unchanged, or an error under no
/// id that names its service, says the time it was given and gives its data back.
pub proof fn law_waiting_request_gets_its_outcome<R, M>(
    server: McpView<M>,
    id: u64,
    response: ResponseMsg<M>,
    error: ErrorMsg<M>,
)
    requires
        server.pending.contains_key(id),
        response.id == id,
        error.id == id,
    ensures
        server.task(McpEvent::<R, M>::Response(response)) == (McpTask::<R, M>::Respond {
            id,
            response,
        }),
        server.task(McpEvent::<R, M>::Error(error)) == (McpTask::<R, M>::Fail { id, error }),
        ({
            let call = server.pending[id];
            server.task(McpEvent::<R, M>::Expired { id }) == (McpTask::<R, M>::Fail {
                id,
                error: ErrorMsg {
                    id: 0,
                    service: call.service,
                    data: Some(call.data),
                    err: ServiceError::Timeout(
                        call.service,
                        server.settings.service_timeout.in_millis() as u64,
                    ),
                },
            })
        }),
        server.after(McpEvent::<R, M>::Response(response)).pending == server.pending.remove(id),
        server.after(McpEvent::<R, M>::Error(error)).pending == server.pending.remove(id),
        server.after(McpEvent::<R, M>::Expired { id }).pending == server.pending.remove(id),
{
}

/// The processor ends when ProSA shuts down and serves what its listener accepts. A service table asks
/// nothing. None of them changes anything.
pub proof fn law_other_events<R, M>(server: McpView<M>, event: McpEvent<R, M>)
    ensures
        server.task(event) is Terminate <==> event is Shutdown,
        server.task(event) is Serve <==> event is Accepted,
        event is Service ==> server.task(event) is Keep,
        event is Service || event is Shutdown || event is Accepted ==> server.after(event)
            == server,
{
}

/// Nothing changes the settings, and only a request that is sent takes an id.
pub proof fn law_settings_stay<R, M>(server: McpView<M>, event: McpEvent<R, M>)
    ensures
        server.after(event).settings == server.settings,
        !(event matches McpEvent::Asked { reachable: true, .. }) ==> server.after(event).next_id
            == server.next_id,
{
}

/// Every event can be handed to the processor, but a request to send when no id is left.
pub proof fn law_processor_expects<R, M>(server: McpView<M>, event: McpEvent<R, M>)
    ensures
        server.next_id < u64::MAX ==> server.expects(event),
        !(event matches McpEvent::Asked { reachable: true, .. }) ==> server.expects(event),
{
}

/// What a service is sent is what the request asks, with a copy of its data, and any other task is
/// unchanged.
pub proof fn law_copied_task_is_the_same<R, M: Clone>(task: McpTask<R, M>, r: McpTask<R, M>)
    requires
        is_copied(task, r),
    ensures
        !(task is Forward) ==> r == task,
        task is Forward ==> {
            &&& r is Forward
            &&& r->Forward_id == task->Forward_id
            &&& r->Forward_request == task->Forward_request
            &&& r->service == task->service
            &&& r->timeout == task->timeout
            &&& cloned(task->data, r->data)
        },
{
}

/// A listener whose address asks for SSL negotiates HTTP/2 first and keeps all the rest of its
/// configuration. Any other is left as it is.
pub proof fn law_listener_keeps_its_configuration(listener: ListenerView)
    ensures
        ({
            let after = mcp_listener(listener);
            &&& !url_is_ssl(listener.url) ==> after == listener
            &&& after.url == listener.url
            &&& after.max_socket == listener.max_socket
            &&& url_is_ssl(listener.url) ==> after.ssl is Some && after.ssl->0.alpn
                == seq!["h2"@, "http/1.1"@]
            &&& listener.ssl matches Some(ssl) ==> {
                &&& after.ssl is Some
                &&& after.ssl->0.store == ssl.store
                &&& after.ssl->0.pkcs12 == ssl.pkcs12
                &&& after.ssl->0.cert == ssl.cert
                &&& after.ssl->0.key == ssl.key
                &&& after.ssl->0.passphrase == ssl.passphrase
                &&& after.ssl->0.modern_security == ssl.modern_security
                &&& after.ssl->0.ssl_timeout == ssl.ssl_timeout
            }
            &&& url_is_ssl(listener.url) && listener.ssl is None ==> {
                &&& after.ssl->0.store is None
                &&& after.ssl->0.pkcs12 is None
                &&& after.ssl->0.cert is None
                &&& after.ssl->0.key is None
                &&& after.ssl->0.passphrase is None
                &&& after.ssl->0.modern_security
                &&& after.ssl->0.ssl_timeout == 3000
            }
        }),
{
}

/// An error of the processor's own is under no id, names the service, gives the data back and says what
/// went wrong.
pub proof fn law_own_error_gives_the_data_back<M>(service: String, data: M, err: ServiceError)
    ensures
        own_error(service, data, err).id == 0,
        own_error(service, data, err).service == service,
        own_error(service, data, err).data == Some(data),
        own_error(service, data, err).err == err,
{
}

} // verus!
