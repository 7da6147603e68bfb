//! The server processor, which routes HTTP requests to services and brings their answers back.
use std::collections::HashMap;

use crate::error::ServiceError;
use crate::io::{
    default_url, http_alpn, normalized_listener, ListenerSetting, ListenerView, Url,
    DEFAULT_LISTENER_URL,
};
use vstd::prelude::*;

verus! {

broadcast use vstd::std_specs::hash::group_hash_axioms;

/// A span of time.
#[derive(Debug, Clone, Copy, PartialEq, Eq, Structural)]
pub struct Timeout {
    /// Whole seconds.
    pub secs: u64,
    /// Nanoseconds on top of them.
    pub nanos: u32,
}

impl Timeout {
    /// The span in whole milliseconds, in 64 bits.
    pub open spec fn in_millis(self) -> nat {
        ((self.secs * 1000 + self.nanos / 1000000) % 0x1_0000_0000_0000_0000) as nat
    }

    /// A span of whole milliseconds.
    pub fn from_millis(millis: u64) -> (r: Timeout)
        ensures
            r.secs == millis / 1000,
            r.nanos == millis % 1000 * 1000000,
            r.in_millis() == millis,
    {
        Timeout { secs: millis / 1000, nanos: (millis % 1000) as u32 * 1000000 }
    }

    /// The span in whole milliseconds. What does not fit in 64 bits is lost.
    pub fn as_millis(&self) -> (r: u64)
        ensures
            r == self.in_millis(),
    {
        let millis: u128 = self.secs as u128 * 1000 + (self.nanos / 1000000) as u128;
        (millis % 0x1_0000_0000_0000_0000) as u64
    }
}

/// The number some digits write, if they are digits.
pub open spec fn number(digits: Seq<char>) -> Option<nat>
    decreases digits.len(),
{
    if digits.len() == 0 {
        Some(0)
    } else {
        match number(digits.drop_last()) {
            Some(n) => if '0' <= digits.last() <= '9' {
                Some((n * 10 + (digits.last() as nat - '0' as nat)) as nat)
            } else {
                None
            },
            None => None,
        }
    }
}

/// The digits of a written number, without the sign it may have.
pub open spec fn unsigned(text: Seq<char>) -> Seq<char> {
    if text.len() > 0 && text[0] == '+' {
        text.skip(1)
    } else {
        text
    }
}

/// The port a text writes, if it writes one.
pub open spec fn read_port(text: Seq<char>) -> Option<u16> {
    match number(unsigned(text)) {
        Some(n) => if unsigned(text).len() > 0 && n <= u16::MAX {
            Some(n as u16)
        } else {
            None
        },
        None => None,
    }
}

/// Digits in front of others write a smaller number.
proof fn lemma_number_grows(digits: Seq<char>, i: int)
    requires
        0 <= i <= digits.len(),
        number(digits) is Some,
    ensures
        number(digits.take(i)) is Some,
        number(digits.take(i))->0 <= number(digits)->0,
    decreases digits.len(),
{
    if i < digits.len() {
        lemma_number_grows(digits.drop_last(), i);
        assert(digits.drop_last().take(i) =~= digits.take(i));
    } else {
        assert(digits.take(i) =~= digits);
    }
}

/// Read a port, the way a 16 bits integer is read.
pub fn parse_port(text: &str) -> (r: Option<u16>)
    ensures
        r == read_port(text@),
{
    let len: usize = text.unicode_len();
    let start: usize = if len > 0 && text.get_char(0) == '+' {
        1
    } else {
        0
    };
    let ghost digits = unsigned(text@);
    let mut i: usize = start;
    let mut n: u32 = 0;
    if start == len {
        return None;
    }
    assert(digits.take(0) =~= Seq::empty());
    while i < len
        invariant
            start <= i <= len,
            start <= 1,
            len == text@.len(),
            digits == unsigned(text@),
            digits.len() == len - start,
            forall|j: int| start <= j < len ==> digits[j - start] == text@[j],
            number(digits.take(i - start)) == Some(n as nat),
            n <= u16::MAX,
        decreases len - i,
    {
        let c = text.get_char(i);
        proof {
            assert(digits.take(i - start + 1).drop_last() =~= digits.take(i - start));
            if number(digits) is Some {
                lemma_number_grows(digits, i - start + 1);
            }
        }
        if c < '0' || c > '9' {
            return None;
        }
        n = n * 10 + (c as u32 - 48);
        if n > 65535 {
            return None;
        }
        i += 1;
    }
    assert(digits.take(i - start) =~= digits);
    Some(n as u16)
}

/// Settings of the server processor.
#[derive(Debug)]
pub struct HyperServerSettings {
    /// Where to listen.
    pub listener: ListenerSetting,
    /// Time given to a service to answer.
    pub service_timeout: Timeout,
}

/// What the settings of the server processor stand for.
pub struct ServerSettingsView {
    /// Where to listen.
    pub listener: ListenerView,
    /// Time given to a service to answer.
    pub service_timeout: Timeout,
}

impl View for HyperServerSettings {
    type V = ServerSettingsView;

    open spec fn view(&self) -> ServerSettingsView {
        ServerSettingsView { listener: self.listener@, service_timeout: self.service_timeout }
    }
}

/// The listener when nothing configures it, on the port of the environment if it names one.
pub open spec fn default_listener_view(port: Option<Seq<char>>, max_socket: u64) -> ListenerView {
    let read = match port {
        Some(port) => read_port(port),
        None => None,
    };
    ListenerView {
        url: match read {
            Some(port) => default_url(port),
            None => DEFAULT_LISTENER_URL@ + "/"@,
        },
        ssl: None,
        max_socket,
    }
}

impl HyperServerSettings {
    /// The listener when nothing configures it, on the port of the environment if it names one.
    pub fn default_listener(port: Option<&str>, max_socket: u64) -> (r: ListenerSetting)
        ensures
            r@ == default_listener_view(
                match port {
                    Some(port) => Some(port@),
                    None => None,
                },
                max_socket,
            ),
    {
        let url = Url::parse(DEFAULT_LISTENER_URL).unwrap();
        let port: Option<u16> = match port {
            Some(port) => parse_port(port),
            None => None,
        };
        let url = match port {
            Some(port) => url.with_port(port).unwrap(),
            None => url,
        };
        ListenerSetting::new(url, None, max_socket)
    }

    /// Time given to a service to answer when nothing configures it.
    pub fn default_service_timeout() -> (r: Timeout)
        ensures
            r.in_millis() == 800,
            r == (Timeout { secs: 0, nanos: 800000000 }),
    {
        Timeout::from_millis(800)
    }

    /// Settings of a server.
    pub fn new(listener: ListenerSetting, service_timeout: Timeout) -> (r: HyperServerSettings)
        ensures
            r.listener == listener,
            r.service_timeout == service_timeout,
    {
        HyperServerSettings { listener, service_timeout }
    }

    /// Settings when nothing configures them.
    pub fn default_settings(port: Option<&str>, max_socket: u64) -> (r: HyperServerSettings)
        ensures
            r@ == (ServerSettingsView {
                listener: default_listener_view(
                    match port {
                        Some(port) => Some(port@),
                        None => None,
                    },
                    max_socket,
                ),
                service_timeout: Timeout { secs: 0, nanos: 800000000 },
            }),
    {
        HyperServerSettings {
            listener: Self::default_listener(port, max_socket),
            service_timeout: Self::default_service_timeout(),
        }
    }

    /// Negotiate HTTP/2 first when the listener accepts SSL connections.
    pub fn normalize(&mut self)
        ensures
            final(self)@ == (ServerSettingsView {
                listener: normalized_listener(old(self)@.listener),
                ..old(self)@
            }),
    {
        self.listener.set_alpn(http_alpn());
    }
}

/// What reaches the server processor.
#[derive(Debug)]
pub enum ServerEvent<R, M> {
    /// A service answered the request of an id, with its data if it still holds any.
    Response { id: u64, data: Option<M> },
    /// A service failed the request of an id.
    Error { id: u64, data: Option<M>, error: ServiceError },
    /// The bus sent a new service table.
    Service,
    /// The configuration was read again, and gave settings or not.
    Config(Option<HyperServerSettings>),
    /// The new listener was bound or not.
    Bound(bool),
    /// ProSA shuts down.
    Shutdown,
    /// An HTTP request asks for a service, which the service table knows or not.
    Http { request: R, service: String, data: Option<M>, reachable: bool },
    /// The request of an id was sent to its service or not.
    Sent { request: R, id: u64, service: String, sent: bool },
    /// The listener accepted a connection.
    Accepted,
    /// Every connection was answered and closed.
    Drained,
    /// The service did not answer the request of an id in time.
    Expired { id: u64 },
}

/// What the server processor has to do.
#[derive(Debug)]
pub enum ServerTask<R, M> {
    /// Nothing but to wait for the next event.
    Keep,
    /// Answer the HTTP request that waits under an id.
    Reply { id: u64, message: M },
    /// Fail the HTTP request that waits under an id.
    ReplyError { id: u64, data: Option<M>, error: ServiceError },
    /// Fail the HTTP request that waits under an id. The data it came with went to the service, so
    /// none is given back.
    Expire { id: u64, data: Option<M>, error: ServiceError },
    /// Let go of the HTTP request that waits under an id, which nothing answers.
    Abandon { id: u64 },
    /// Bind the listener of the settings being reloaded.
    Bind,
    /// Release the listener, and let every connection answer what it has in flight.
    Drain,
    /// Send a request to a service.
    Forward { request: R, service: String, message: M },
    /// Fail an HTTP request right away.
    Refuse { request: R, data: Option<M>, error: ServiceError },
    /// Keep an HTTP request under an id until its service answers.
    Track { request: R, id: u64, timeout: Timeout },
    /// Serve a connection that was accepted.
    Serve,
    /// Let go of a connection that was accepted.
    Ignore,
    /// End the processor.
    Terminate,
}

/// What the server processor stands for.
pub struct ServerView {
    /// Settings in force.
    pub settings: ServerSettingsView,
    /// Settings whose listener is being bound.
    pub reloading: Option<ServerSettingsView>,
    /// What the processor listens on.
    pub bound: Option<ListenerView>,
    /// Whether the processor was not told to stop.
    pub serving: bool,
    /// Service asked by each HTTP request that waits, by the id it was sent under.
    pub pending: Map<u64, String>,
}

impl ServerView {
    /// The processor once an event reached it.
    pub open spec fn after<R, M>(self, event: ServerEvent<R, M>) -> ServerView {
        match event {
            ServerEvent::Response { id, .. } => ServerView {
                pending: self.pending.remove(id),
                ..self
            },
            ServerEvent::Error { id, .. } => ServerView {
                pending: self.pending.remove(id),
                ..self
            },
            ServerEvent::Expired { id } => ServerView {
                pending: self.pending.remove(id),
                ..self
            },
            ServerEvent::Config(Some(settings)) => {
                let settings = ServerSettingsView {
                    listener: normalized_listener(settings@.listener),
                    ..settings@
                };
                if !self.serving {
                    self
                } else if settings.listener == self.settings.listener {
                    ServerView { settings, ..self }
                } else {
                    ServerView { reloading: Some(settings), ..self }
                }
            },
            ServerEvent::Bound(bound) => match self.reloading {
                Some(settings) => if bound {
                    ServerView {
                        settings,
                        reloading: None,
                        bound: Some(settings.listener),
                        ..self
                    }
                } else {
                    ServerView {
                        settings: ServerSettingsView {
                            listener: self.settings.listener,
                            ..settings
                        },
                        reloading: None,
                        ..self
                    }
                },
                None => self,
            },
            ServerEvent::Shutdown => ServerView {
                reloading: None,
                bound: None,
                serving: false,
                ..self
            },
            ServerEvent::Sent { id, service, sent, .. } => if sent {
                ServerView { pending: self.pending.insert(id, service), ..self }
            } else {
                self
            },
            _ => self,
        }
    }

    /// What the processor has to do when an event reaches it.
    pub open spec fn task<R, M>(self, event: ServerEvent<R, M>) -> ServerTask<R, M> {
        match event {
            ServerEvent::Response { id, data } => if self.pending.contains_key(id) {
                match data {
                    Some(data) => ServerTask::Reply { id, message: data },
                    None => ServerTask::Abandon { id },
                }
            } else {
                ServerTask::Keep
            },
            ServerEvent::Error { id, data, error } => if self.pending.contains_key(id) {
                ServerTask::ReplyError { id, data, error }
            } else {
                ServerTask::Keep
            },
            ServerEvent::Expired { id } => if self.pending.contains_key(id) {
                ServerTask::Expire {
                    id,
                    data: None,
                    error: ServiceError::Timeout(
                        self.pending[id],
                        self.settings.service_timeout.in_millis() as u64,
                    ),
                }
            } else {
                ServerTask::Keep
            },
            ServerEvent::Service => ServerTask::Keep,
            ServerEvent::Config(config) => match config {
                Some(settings) => if self.serving && normalized_listener(settings@.listener)
                    != self.settings.listener {
                    ServerTask::Bind
                } else {
                    ServerTask::Keep
                },
                None => ServerTask::Keep,
            },
            ServerEvent::Bound(_) => ServerTask::Keep,
            ServerEvent::Shutdown => if self.serving {
                ServerTask::Drain
            } else {
                ServerTask::Keep
            },
            ServerEvent::Http { request, service, data, reachable } => match data {
                Some(data) => if reachable {
                    ServerTask::Forward { request, service, message: data }
                } else {
                    ServerTask::Refuse {
                        request,
                        data: Some(data),
                        error: ServiceError::UnableToReachService(service),
                    }
                },
                None => ServerTask::Refuse {
                    request,
                    data: None,
                    error: ServiceError::UnableToReachService(service),
                },
            },
            ServerEvent::Sent { request, id, service, sent } => if sent {
                ServerTask::Track { request, id, timeout: self.settings.service_timeout }
            } else {
                ServerTask::Refuse {
                    request,
                    data: None,
                    error: ServiceError::UnableToReachService(service),
                }
            },
            ServerEvent::Accepted => if self.bound is Some {
                ServerTask::Serve
            } else {
                ServerTask::Ignore
            },
            ServerEvent::Drained => if self.serving {
                ServerTask::Keep
            } else {
                ServerTask::Terminate
            },
        }
    }
}

/// The server processor.
#[derive(Debug)]
pub struct HyperServerProc {
    settings: HyperServerSettings,
    reloading: Option<HyperServerSettings>,
    bound: Option<ListenerSetting>,
    serving: bool,
    pending: HashMap<u64, String>,
}

impl View for HyperServerProc {
    type V = ServerView;

    closed spec fn view(&self) -> ServerView {
        ServerView {
            settings: self.settings@,
            reloading: crate::io::opt_view(self.reloading),
            bound: crate::io::opt_view(self.bound),
            serving: self.serving,
            pending: self.pending@,
        }
    }
}

impl HyperServerProc {
    /// A processor that listens where its settings say, HTTP/2 negotiated first over SSL.
    pub fn new(settings: HyperServerSettings) -> (r: HyperServerProc)
        ensures
            r@.settings.listener == normalized_listener(settings@.listener),
            r@.settings.service_timeout == settings@.service_timeout,
            r@.reloading is None,
            r@.bound == Some(r@.settings.listener),
            r@.serving,
            r@.pending == Map::<u64, String>::empty(),
    {
        let mut settings = settings;
        settings.normalize();
        let bound = settings.listener.clone();
        HyperServerProc {
            settings,
            reloading: None,
            bound: Some(bound),
            serving: true,
            pending: HashMap::new(),
        }
    }

    /// Settings in force.
    pub fn settings(&self) -> (r: &HyperServerSettings)
        ensures
            r@ == self@.settings,
    {
        &self.settings
    }

    /// Where to listen for the settings being reloaded.
    pub fn reloading(&self) -> (r: Option<&ListenerSetting>)
        ensures
            match r {
                Some(listener) => self@.reloading is Some && listener@
                    == self@.reloading->0.listener,
                None => self@.reloading is None,
            },
    {
        match &self.reloading {
            Some(settings) => Some(&settings.listener),
            None => None,
        }
    }

    /// Whether a new configuration is read. One that comes while the processor drains is not.
    pub fn reloads(&self) -> (r: bool)
        ensures
            r == self@.serving,
    {
        self.serving
    }

    /// Whether the processor accepts connections.
    pub fn is_listening(&self) -> (r: bool)
        ensures
            r == (self@.bound is Some),
    {
        self.bound.is_some()
    }

    /// Take a new configuration. The listener is only bound again when it changes.
    fn reload(&mut self, settings: HyperServerSettings) -> (r: bool)
        ensures
            final(self)@ == old(self)@.after(ServerEvent::<(), ()>::Config(Some(settings))),
            r == (old(self)@.serving && normalized_listener(settings@.listener)
                != old(self)@.settings.listener),
    {
        if !self.serving {
            return false;
        }
        let mut settings = settings;
        settings.normalize();
        if settings.listener.same(&self.settings.listener) {
            self.settings = settings;
            false
        } else {
            self.reloading = Some(settings);
            true
        }
    }

    /// Put the settings being reloaded in force. The previous listener is kept if the new one can't
    /// be bound.
    fn rebound(&mut self, bound: bool)
        ensures
            final(self)@ == old(self)@.after(ServerEvent::<(), ()>::Bound(bound)),
    {
        match self.reloading.take() {
            Some(settings) => if bound {
                self.bound = Some(settings.listener.clone());
                self.settings = settings;
            } else {
                self.settings.service_timeout = settings.service_timeout;
            },
            None => {},
        }
    }

    /// Take an event, and say what has to be done.
    pub fn step<R, M>(&mut self, event: ServerEvent<R, M>) -> (r: ServerTask<R, M>)
        ensures
            final(self)@ == old(self)@.after(event),
            r == old(self)@.task(event),
    {
        match event {
            ServerEvent::Response { id, data } => {
                let waits = self.pending.remove(&id);
                assert(self@.pending =~= old(self)@.pending.remove(id));
                match waits {
                    Some(_) => match data {
                        Some(data) => ServerTask::Reply { id, message: data },
                        None => ServerTask::Abandon { id },
                    },
                    None => ServerTask::Keep,
                }
            },
            ServerEvent::Error { id, data, error } => {
                let waits = self.pending.remove(&id);
                assert(self@.pending =~= old(self)@.pending.remove(id));
                match waits {
                    Some(_) => ServerTask::ReplyError { id, data, error },
                    None => ServerTask::Keep,
                }
            },
            ServerEvent::Expired { id } => {
                let waits = self.pending.remove(&id);
                assert(self@.pending =~= old(self)@.pending.remove(id));
                match waits {
                    Some(service) => {
                        let timeout: u64 = self.settings.service_timeout.as_millis();
                        ServerTask::Expire {
                            id,
                            data: None,
                            error: ServiceError::Timeout(service, timeout),
                        }
                    },
                    None => ServerTask::Keep,
                }
            },
            ServerEvent::Service => ServerTask::Keep,
            ServerEvent::Config(config) => match config {
                Some(settings) => if self.reload(settings) {
                    ServerTask::Bind
                } else {
                    ServerTask::Keep
                },
                None => ServerTask::Keep,
            },
            ServerEvent::Bound(bound) => {
                self.rebound(bound);
                ServerTask::Keep
            },
            ServerEvent::Shutdown => {
                let serving: bool = self.serving;
                self.reloading = None;
                self.bound = None;
                self.serving = false;
                if serving {
                    ServerTask::Drain
                } else {
                    ServerTask::Keep
                }
            },
            ServerEvent::Http { request, service, data, reachable } => match data {
                Some(data) => if reachable {
                    ServerTask::Forward { request, service, message: data }
                } else {
                    ServerTask::Refuse {
                        request,
                        data: Some(data),
                        error: ServiceError::UnableToReachService(service),
                    }
                },
                None => ServerTask::Refuse {
                    request,
                    data: None,
                    error: ServiceError::UnableToReachService(service),
                },
            },
            ServerEvent::Sent { request, id, service, sent } => if sent {
                self.pending.insert(id, service);
                ServerTask::Track { request, id, timeout: self.settings.service_timeout }
            } else {
                ServerTask::Refuse {
                    request,
                    data: None,
                    error: ServiceError::UnableToReachService(service),
                }
            },
            ServerEvent::Accepted => if self.bound.is_some() {
                ServerTask::Serve
            } else {
                ServerTask::Ignore
            },
            ServerEvent::Drained => if self.serving {
                ServerTask::Keep
            } else {
                ServerTask::Terminate
            },
        }
    }
}

} // verus!
