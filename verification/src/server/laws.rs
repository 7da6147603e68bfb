//! What holds of the server processor, whatever reaches it.
use crate::error::ServiceError;
use crate::io::{default_url, normalized_listener};
use crate::message::{Body, ResponseBuilder};
use crate::server::adaptor::{
    error_status, http_result, is_error_body, is_product_head, product_entries,
};
use crate::server::proc::{
    default_listener_view, number, read_port, unsigned, HyperServerSettings, ServerEvent, ServerTask,
    ServerView, Timeout,
};
use crate::text::decimal;
use vstd::prelude::*;
use vstd::utf8::encode_utf8;

verus! {

impl ServerView {
    /// The processor listens exactly where its settings say while it serves, and nowhere once it was
    /// told to stop.
    pub open spec fn inv(self) -> bool {
        &&& self.serving ==> self.bound == Some(self.settings.listener)
        &&& !self.serving ==> self.bound is None && self.reloading is None
    }

    /// The processor once events reached it one after the other.
    pub open spec fn after_all<R, M>(self, events: Seq<ServerEvent<R, M>>) -> ServerView
        decreases events.len(),
    {
        if events.len() == 0 {
            self
        } else {
            self.after_all(events.drop_last()).after(events.last())
        }
    }
}

/// Whatever reaches the processor, it listens exactly where its settings say while it serves, and
/// nowhere once it was told to stop.
pub proof fn law_listens_where_it_is_told<R, M>(server: ServerView, event: ServerEvent<R, M>)
    requires
        server.inv(),
    ensures
        server.after(event).inv(),
{
}

/// Once the processor was told to stop, nothing makes it listen, accept or bind again, whatever
/// reaches it afterwards.
pub proof fn law_shutdown_is_final<R, M>(
    server: ServerView,
    events: Seq<ServerEvent<R, M>>,
    event: ServerEvent<R, M>,
)
    ensures
        ({
            let stopped = server.after(ServerEvent::<R, M>::Shutdown).after_all(events);
            &&& !stopped.serving
            &&& stopped.bound is None
            &&& !(stopped.task(event) is Serve)
            &&& !(stopped.task(event) is Bind)
            &&& !(stopped.task(event) is Drain)
        }),
{
    lemma_stopped_reloads_nothing(server.after(ServerEvent::<R, M>::Shutdown), events);
}

/// A processor that was told to stop stays so.
proof fn lemma_stopped_stays<R, M>(server: ServerView, event: ServerEvent<R, M>)
    requires
        !server.serving,
        server.reloading is None,
        server.bound is None,
    ensures
        !server.after(event).serving,
        server.after(event).reloading is None,
        server.after(event).bound is None,
{
}

/// A processor that was told to stop never has settings to bind.
proof fn lemma_stopped_reloads_nothing<R, M>(server: ServerView, events: Seq<ServerEvent<R, M>>)
    requires
        !server.serving,
        server.reloading is None,
        server.bound is None,
    ensures
        !server.after_all(events).serving,
        server.after_all(events).reloading is None,
        server.after_all(events).bound is None,
    decreases events.len(),
{
    if events.len() > 0 {
        lemma_stopped_reloads_nothing(server, events.drop_last());
        lemma_stopped_stays(server.after_all(events.drop_last()), events.last());
    }
}

/// A shutdown drops no request: the ones that wait still wait, and their answers still reach them.
pub proof fn law_draining_still_answers<R, M>(server: ServerView, event: ServerEvent<R, M>)
    requires
        event is Response || event is Error || event is Expired || event is Http || event is Sent,
    ensures
        server.after(ServerEvent::<R, M>::Shutdown).pending == server.pending,
        server.after(ServerEvent::<R, M>::Shutdown).task(event) == server.task(event),
{
}

/// A processor ends once it was told to stop and its connections are all closed, and not before.
pub proof fn law_ends_once_drained<R, M>(server: ServerView, event: ServerEvent<R, M>)
    ensures
        server.task(event) is Terminate <==> event is Drained && !server.serving,
{
}

/// Which HTTP request a task answers or lets go of, if any.
pub open spec fn closed_request<R, M>(task: ServerTask<R, M>) -> Option<u64> {
    match task {
        ServerTask::Reply { id, .. } => Some(id),
        ServerTask::ReplyError { id, .. } => Some(id),
        ServerTask::Expire { id, .. } => Some(id),
        ServerTask::Abandon { id } => Some(id),
        _ => None,
    }
}

/// A request that waits is closed once: the first answer, failure or timeout that comes for it is
/// handed to it and nothing else is, and the others are left waiting.
pub proof fn law_each_request_is_closed_once<R, M>(
    server: ServerView,
    event: ServerEvent<R, M>,
    later: ServerEvent<R, M>,
    id: u64,
)
    requires
        closed_request(server.task(event)) == Some(id),
    ensures
        server.pending.contains_key(id),
        server.after(event).pending == server.pending.remove(id),
        closed_request(server.after(event).task(later)) != Some(id),
{
}

/// A request that was closed stays so, whatever reaches the processor, until another one is sent
/// under the same id.
pub proof fn law_closed_request_stays_closed<R, M>(
    server: ServerView,
    events: Seq<ServerEvent<R, M>>,
    event: ServerEvent<R, M>,
    id: u64,
)
    requires
        !server.pending.contains_key(id),
        forall|i: int|
            0 <= i < events.len() ==> !((#[trigger] events[i]) matches ServerEvent::Sent {
                id: sent,
                ..
            } && sent == id),
    ensures
        !server.after_all(events).pending.contains_key(id),
        closed_request(server.after_all(events).task(event)) != Some(id),
    decreases events.len(),
{
    if events.len() > 0 {
        let before = events.drop_last();
        assert forall|i: int| 0 <= i < before.len() implies !((
        #[trigger] before[i]) matches ServerEvent::Sent { id: sent, .. } && sent == id) by {
            assert(before[i] == events[i]);
        }
        law_closed_request_stays_closed(server, before, event, id);
        assert(!(events[events.len() - 1] matches ServerEvent::Sent { id: sent, .. } && sent
            == id));
    }
}

/// A request stays open until something closes it, and nothing but a new request opens one.
pub proof fn law_requests_wait_until_closed<R, M>(
    server: ServerView,
    event: ServerEvent<R, M>,
    id: u64,
)
    ensures
        server.pending.contains_key(id) && !server.after(event).pending.contains_key(id)
            ==> closed_request(server.task(event)) == Some(id),
        !server.pending.contains_key(id) && server.after(event).pending.contains_key(id)
            ==> (server.task(event) matches ServerTask::Track { id: opened, .. } && opened == id),
{
}

/// A request that was sent and that its service does not answer is told so, under the name of the
/// service, with the time the service was given and without data.
pub proof fn law_unanswered_request_times_out<R, M>(
    server: ServerView,
    request: R,
    id: u64,
    service: String,
)
    ensures
        ({
            let waiting = server.after(
                ServerEvent::<R, M>::Sent { request, id, service, sent: true },
            );
            waiting.task(ServerEvent::<R, M>::Expired { id }) == (ServerTask::<R, M>::Expire {
                id,
                data: None,
                error: ServiceError::Timeout(
                    service,
                    server.settings.service_timeout.in_millis() as u64,
                ),
            })
        }),
{
}

/// Whether an event opens or closes the request of an id.
pub open spec fn concerns<R, M>(event: ServerEvent<R, M>, id: u64) -> bool {
    match event {
        ServerEvent::Response { id: other, .. } => other == id,
        ServerEvent::Error { id: other, .. } => other == id,
        ServerEvent::Expired { id: other } => other == id,
        ServerEvent::Sent { id: other, .. } => other == id,
        _ => false,
    }
}

/// A request waits for its service as long as nothing concerns it.
proof fn lemma_request_waits<R, M>(server: ServerView, events: Seq<ServerEvent<R, M>>, id: u64)
    requires
        server.pending.contains_key(id),
        forall|i: int| 0 <= i < events.len() ==> !concerns(#[trigger] events[i], id),
    ensures
        server.after_all(events).pending.contains_key(id),
        server.after_all(events).pending[id] == server.pending[id],
    decreases events.len(),
{
    if events.len() > 0 {
        let before = events.drop_last();
        assert forall|i: int| 0 <= i < before.len() implies !concerns(#[trigger] before[i], id) by {
            assert(before[i] == events[i]);
        }
        lemma_request_waits(server, before, id);
        assert(!concerns(events[events.len() - 1], id));
    }
}

/// A request for a service that can be reached is sent with its name and data, and answered once,
/// whatever else reaches the processor in the meantime: with what the service answers or fails it
/// with if that comes first, and otherwise with a timeout that names the service, says the time that
/// services are given by then and carries no data. What comes later for it is dropped.
pub proof fn law_forwarded_request_is_answered_once<R, M>(
    server: ServerView,
    request: R,
    service: String,
    data: M,
    id: u64,
    events: Seq<ServerEvent<R, M>>,
    answer: M,
    failure: Option<M>,
    error: ServiceError,
    later: ServerEvent<R, M>,
)
    requires
        forall|i: int| 0 <= i < events.len() ==> !concerns(#[trigger] events[i], id),
    ensures
        ({
            let asked = ServerEvent::Http { request, service, data: Some(data), reachable: true };
            let sent = ServerEvent::<R, M>::Sent { request, id, service, sent: true };
            let waiting = server.after(asked).after(sent).after_all(events);
            let response = ServerEvent::<R, M>::Response { id, data: Some(answer) };
            let failed = ServerEvent::<R, M>::Error { id, data: failure, error };
            let expired = ServerEvent::<R, M>::Expired { id };
            &&& server.task(asked) == (ServerTask::Forward { request, service, message: data })
            &&& waiting.task(response) == (ServerTask::<R, M>::Reply { id, message: answer })
            &&& waiting.task(failed) == (ServerTask::<R, M>::ReplyError { id, data: failure, error })
            &&& waiting.task(expired) == (ServerTask::<R, M>::Expire {
                id,
                data: None,
                error: ServiceError::Timeout(
                    service,
                    waiting.settings.service_timeout.in_millis() as u64,
                ),
            })
            &&& closed_request(waiting.after(response).task(later)) != Some(id)
            &&& closed_request(waiting.after(failed).task(later)) != Some(id)
            &&& closed_request(waiting.after(expired).task(later)) != Some(id)
        }),
{
    let asked = ServerEvent::Http { request, service, data: Some(data), reachable: true };
    let sent = ServerEvent::<R, M>::Sent { request, id, service, sent: true };
    lemma_request_waits(server.after(asked).after(sent), events, id);
}

/// A service that can't be reached is answered as such, without a trace left behind.
pub proof fn law_unreachable_service_is_refused<R, M>(
    server: ServerView,
    request: R,
    service: String,
    data: Option<M>,
)
    ensures
        ({
            let event = ServerEvent::Http { request, service, data, reachable: false };
            &&& server.after(event) == server
            &&& server.task(event) == (ServerTask::Refuse {
                request,
                data,
                error: ServiceError::UnableToReachService(service),
            })
        }),
{
}

/// A new configuration whose listener is the one in force binds nothing, and its service timeout
/// holds for the next requests.
pub proof fn law_same_listener_is_not_rebound<R, M>(
    server: ServerView,
    settings: HyperServerSettings,
)
    requires
        server.inv(),
        server.serving,
        normalized_listener(settings@.listener) == server.settings.listener,
    ensures
        ({
            let event = ServerEvent::<R, M>::Config(Some(settings));
            &&& server.task(event) == ServerTask::<R, M>::Keep
            &&& server.after(event).bound == server.bound
            &&& server.after(event).settings.service_timeout == settings.service_timeout
        }),
{
}

/// A listener that can't be bound is no reason to lose the one in force: the processor keeps
/// listening where it does, and takes the rest of the new configuration.
pub proof fn law_failed_bind_keeps_the_listener<R, M>(
    server: ServerView,
    settings: HyperServerSettings,
)
    requires
        server.inv(),
        server.serving,
        normalized_listener(settings@.listener) != server.settings.listener,
    ensures
        ({
            let event = ServerEvent::<R, M>::Config(Some(settings));
            let after = server.after(event).after(ServerEvent::<R, M>::Bound(false));
            &&& server.task(event) == ServerTask::<R, M>::Bind
            &&& after.bound == server.bound
            &&& after.settings.listener == server.settings.listener
            &&& after.settings.service_timeout == settings.service_timeout
        }),
{
}

/// A listener that is bound takes the place of the one before, and its configuration is in force.
pub proof fn law_bound_listener_takes_over<R, M>(server: ServerView, settings: HyperServerSettings)
    requires
        server.inv(),
        server.serving,
        normalized_listener(settings@.listener) != server.settings.listener,
    ensures
        ({
            let after = server.after(ServerEvent::<R, M>::Config(Some(settings))).after(
                ServerEvent::<R, M>::Bound(true),
            );
            &&& after.bound == Some(normalized_listener(settings@.listener))
            &&& after.settings.listener == normalized_listener(settings@.listener)
            &&& after.settings.service_timeout == settings.service_timeout
        }),
{
}

/// A service error always has a response when the adaptor starts it the default way: its status code
/// tells what went wrong, and its headers what made it.
pub proof fn law_service_errors_have_a_response<B>(
    builder: ResponseBuilder,
    error: ServiceError,
    body: Body<B>,
)
    requires
        is_product_head(builder, error_status(error)),
        is_error_body(error, body),
    ensures
        http_result(builder.finished(body)) matches Ok(response) && response.status == error_status(
            error,
        ) && response.entries() == product_entries() && response.body == body,
        error_status(error) == match error {
            ServiceError::NoError(_) => 202u16,
            ServiceError::UnableToReachService(_) => 503u16,
            ServiceError::Timeout(_, _) => 504u16,
            ServiceError::ProtocolError(_) => 502u16,
        },
{
}

/// The number that decimal digits write is the one they were written from.
proof fn lemma_number_of_decimal(n: nat)
    ensures
        number(decimal(n)) == Some(n),
        decimal(n).len() > 0,
        '0' <= decimal(n)[0] <= '9',
    decreases n,
{
    if n < 10 {
        assert(decimal(n).drop_last() =~= Seq::empty());
        assert(number(decimal(n).drop_last()) == Some(0nat));
    } else {
        lemma_number_of_decimal(n / 10);
        assert(decimal(n).drop_last() =~= decimal(n / 10));
    }
}

/// A port that is written in decimal is read back as itself, so that a default listener told a port
/// listens on that port.
pub proof fn law_written_port_is_read_back(port: u16, max_socket: u64)
    ensures
        read_port(decimal(port as nat)) == Some(port),
        default_listener_view(Some(decimal(port as nat)), max_socket).url == default_url(port),
{
    lemma_number_of_decimal(port as nat);
}

/// A request that was sent to its service waits for it under its id, for exactly the time that the
/// settings in force give, seconds and nanoseconds. The requests that wait already still do.
pub proof fn law_sent_request_is_given_the_service_timeout<R, M>(
    server: ServerView,
    request: R,
    id: u64,
    service: String,
    other: u64,
)
    ensures
        ({
            let event = ServerEvent::<R, M>::Sent { request, id, service, sent: true };
            let task = server.task(event);
            let after = server.after(event);
            &&& task is Track
            &&& task->Track_request == request
            &&& task->Track_id == id
            &&& task->timeout.secs == server.settings.service_timeout.secs
            &&& task->timeout.nanos == server.settings.service_timeout.nanos
            &&& after.pending.contains_key(id) && after.pending[id] == service
            &&& other != id ==> (after.pending.contains_key(other)
                <==> server.pending.contains_key(other))
            &&& other != id && server.pending.contains_key(other) ==> after.pending[other]
                == server.pending[other]
        }),
{
}

/// A request that could not be sent to its service is told that the service can't be reached, without
/// data, and does not wait.
pub proof fn law_request_not_sent_is_refused<R, M>(
    server: ServerView,
    request: R,
    id: u64,
    service: String,
)
    ensures
        ({
            let event = ServerEvent::<R, M>::Sent { request, id, service, sent: false };
            &&& server.after(event) == server
            &&& server.task(event) == (ServerTask::<R, M>::Refuse {
                request,
                data: None,
                error: ServiceError::UnableToReachService(service),
            })
        }),
{
}

/// A request without data has no service to ask: it is told that the service can't be reached, whether
/// it can or not.
pub proof fn law_request_without_data_is_refused<R, M>(
    server: ServerView,
    request: R,
    service: String,
    reachable: bool,
)
    ensures
        ({
            let event = ServerEvent::<R, M>::Http { request, service, data: None, reachable };
            &&& server.after(event) == server
            &&& server.task(event) == (ServerTask::<R, M>::Refuse {
                request,
                data: None,
                error: ServiceError::UnableToReachService(service),
            })
        }),
{
}

/// A request that waits gets the answer of its service, its failure, or the lack of both, and is let go
/// of when the answer holds no data.
pub proof fn law_waiting_request_gets_its_outcome<R, M>(
    server: ServerView,
    id: u64,
    answer: M,
    data: Option<M>,
    error: ServiceError,
)
    requires
        server.pending.contains_key(id),
    ensures
        server.task(ServerEvent::<R, M>::Response { id, data: Some(answer) }) == (ServerTask::<
            R,
            M,
        >::Reply { id, message: answer }),
        server.task(ServerEvent::<R, M>::Response { id, data: None }) == (ServerTask::<
            R,
            M,
        >::Abandon { id }),
        server.task(ServerEvent::<R, M>::Error { id, data, error }) == (ServerTask::<
            R,
            M,
        >::ReplyError { id, data, error }),
        server.task(ServerEvent::<R, M>::Expired { id }) is Expire,
{
}

/// What comes for a request that does not wait is dropped.
pub proof fn law_unknown_answer_is_dropped<R, M>(server: ServerView, event: ServerEvent<R, M>)
    requires
        match event {
            ServerEvent::Response { id, .. } => !server.pending.contains_key(id),
            ServerEvent::Error { id, .. } => !server.pending.contains_key(id),
            ServerEvent::Expired { id } => !server.pending.contains_key(id),
            _ => false,
        },
    ensures
        server.task(event) == ServerTask::<R, M>::Keep,
        server.after(event) == server,
{
    match event {
        ServerEvent::Response { id, .. } => {
            assert(server.pending.remove(id) =~= server.pending);
        },
        ServerEvent::Error { id, .. } => {
            assert(server.pending.remove(id) =~= server.pending);
        },
        ServerEvent::Expired { id } => {
            assert(server.pending.remove(id) =~= server.pending);
        },
        _ => {},
    }
}

/// The requests that wait change only when one is sent or closed, and the one that is closed is the
/// one that is named.
pub proof fn law_only_outcomes_touch_requests<R, M>(server: ServerView, event: ServerEvent<R, M>)
    ensures
        match event {
            ServerEvent::Response { id, .. } => server.after(event).pending
                == server.pending.remove(id),
            ServerEvent::Error { id, .. } => server.after(event).pending == server.pending.remove(
                id,
            ),
            ServerEvent::Expired { id } => server.after(event).pending == server.pending.remove(id),
            ServerEvent::Sent { id, service, sent, .. } => server.after(event).pending == if sent {
                server.pending.insert(id, service)
            } else {
                server.pending
            },
            _ => server.after(event).pending == server.pending,
        },
{
}

/// Nothing but a configuration, its listener or a shutdown changes what the processor listens on, what
/// its settings are, or whether it serves.
pub proof fn law_requests_touch_no_setting<R, M>(server: ServerView, event: ServerEvent<R, M>)
    requires
        !(event is Config || event is Bound || event is Shutdown),
    ensures
        server.after(event).settings == server.settings,
        server.after(event).reloading == server.reloading,
        server.after(event).bound == server.bound,
        server.after(event).serving == server.serving,
{
}

/// A configuration that could not be read, or that comes once the processor was told to stop, changes
/// nothing and asks nothing.
pub proof fn law_configuration_without_effect<R, M>(
    server: ServerView,
    config: Option<HyperServerSettings>,
)
    requires
        config is None || !server.serving,
    ensures
        server.after(ServerEvent::<R, M>::Config(config)) == server,
        server.task(ServerEvent::<R, M>::Config(config)) == ServerTask::<R, M>::Keep,
{
}

/// A configuration for another listener asks to bind it, and waits for that: nothing else changes until
/// then. One for the listener in force is in force at once.
pub proof fn law_configuration_waits_for_its_listener<R, M>(
    server: ServerView,
    settings: HyperServerSettings,
)
    requires
        server.serving,
    ensures
        ({
            let event = ServerEvent::<R, M>::Config(Some(settings));
            let after = server.after(event);
            let other = normalized_listener(settings@.listener) != server.settings.listener;
            let read = if other {
                after.reloading->0
            } else {
                after.settings
            };
            &&& after.bound == server.bound
            &&& after.serving
            &&& read.listener == normalized_listener(settings@.listener)
            &&& read.service_timeout == settings.service_timeout
            &&& other ==> server.task(event) == ServerTask::<R, M>::Bind && after.reloading is Some
                && after.settings == server.settings
            &&& !other ==> server.task(event) == ServerTask::<R, M>::Keep && after.reloading
                == server.reloading
        }),
{
}

/// Once a listener was bound or not, nothing waits for it anymore and nothing is asked. It takes over
/// if it was bound, and its configuration comes in force with the listener that it has.
pub proof fn law_bound_listener_ends_the_reload<R, M>(server: ServerView, bound: bool)
    ensures
        ({
            let event = ServerEvent::<R, M>::Bound(bound);
            let after = server.after(event);
            &&& server.task(event) == ServerTask::<R, M>::Keep
            &&& after.serving == server.serving
            &&& after.reloading is None
            &&& match server.reloading {
                Some(settings) => {
                    &&& after.settings.service_timeout == settings.service_timeout
                    &&& after.settings.listener == if bound {
                        settings.listener
                    } else {
                        server.settings.listener
                    }
                    &&& after.bound == if bound {
                        Some(settings.listener)
                    } else {
                        server.bound
                    }
                },
                None => after.settings == server.settings && after.bound == server.bound,
            }
        }),
{
}

/// A shutdown is answered by draining the connections, once, and the settings stay.
pub proof fn law_shutdown_drains_once<R, M>(server: ServerView, event: ServerEvent<R, M>)
    ensures
        server.task(event) is Drain <==> event is Shutdown && server.serving,
        event is Shutdown ==> server.after(event).settings == server.settings,
        event is Shutdown && !server.serving ==> server.task(event) is Keep,
        server.serving && !server.after(event).serving ==> event is Shutdown,
        !server.serving ==> !server.after(event).serving,
{
}

/// A connection is served exactly when the processor listens, and let go of otherwise.
pub proof fn law_connections_are_served_while_listening<R, M>(
    server: ServerView,
    event: ServerEvent<R, M>,
)
    ensures
        server.task(event) is Serve <==> event is Accepted && server.bound is Some,
        server.task(event) is Ignore <==> event is Accepted && server.bound is None,
{
}

/// A service table asks nothing, nor do connections that are all closed while the processor serves.
pub proof fn law_nothing_to_do<R, M>(server: ServerView)
    ensures
        server.task(ServerEvent::<R, M>::Service) == ServerTask::<R, M>::Keep,
        server.serving ==> server.task(ServerEvent::<R, M>::Drained) == ServerTask::<R, M>::Keep,
{
}

/// A span is rounded down to whole milliseconds.
pub proof fn law_span_is_rounded_down(span: Timeout)
    requires
        span.secs <= 18_446_744_073_709_550,
        span.nanos < 1_000_000_000,
    ensures
        span.in_millis() * 1_000_000 <= span.secs * 1_000_000_000 + span.nanos,
        span.secs * 1_000_000_000 + span.nanos < (span.in_millis() + 1) * 1_000_000,
{
}

/// A span too long for 64 bits of milliseconds loses the part that does not fit.
pub proof fn law_long_span_wraps(span: Timeout)
    ensures
        span.in_millis() <= u64::MAX,
        exists|lost: int|
            0 <= lost && #[trigger] (lost * 0x1_0000_0000_0000_0000) + span.in_millis() == span.secs
                * 1000 + span.nanos / 1_000_000,
{
    let millis = span.secs * 1000 + span.nanos / 1_000_000;
    let lost = millis / 0x1_0000_0000_0000_0000;
    assert((lost * 0x1_0000_0000_0000_0000) + span.in_millis() == millis);
}

/// A listener that nothing configures listens on the port of the environment when it names one, and on
/// 8080 otherwise, without SSL.
pub proof fn law_default_listener(port: Option<Seq<char>>, max_socket: u64)
    ensures
        ({
            let listener = default_listener_view(port, max_socket);
            &&& listener.ssl is None
            &&& listener.max_socket == max_socket
            &&& port is None || read_port(port->0) is None ==> listener.url
                == "http://0.0.0.0:8080"@ + "/"@
            &&& port is Some && read_port(port->0) is Some ==> listener.url == default_url(
                read_port(port->0)->0,
            )
        }),
{
}

/// A text that holds anything but digits writes no number.
proof fn lemma_no_number(digits: Seq<char>, i: int)
    requires
        0 <= i < digits.len(),
        !('0' <= digits[i] <= '9'),
    ensures
        number(digits) is None,
    decreases digits.len(),
{
    if i < digits.len() - 1 {
        lemma_no_number(digits.drop_last(), i);
    }
}

/// A digit writes itself, one more digit counts for ten times what was read, and what does not fit in
/// 16 bits is no port.
pub proof fn law_port_is_read_digit_by_digit(text: Seq<char>, digit: char)
    requires
        '0' <= digit <= '9',
    ensures
        read_port(seq![digit]) == Some((digit as u32 - '0' as u32) as u16),
        read_port(text) matches Some(port) ==> read_port(text.push(digit)) == if port * 10 + (
        digit as u32 - '0' as u32) <= 65535 {
            Some((port * 10 + (digit as u32 - '0' as u32)) as u16)
        } else {
            None
        },
{
    let one = seq![digit];
    assert(unsigned(one) == one);
    assert(one.drop_last() =~= Seq::empty());
    assert(number(one.drop_last()) == Some(0nat));
    if read_port(text) is Some {
        let more = text.push(digit);
        assert(unsigned(more) =~= unsigned(text).push(digit));
        assert(unsigned(more).drop_last() =~= unsigned(text));
    }
}

/// A sign in front of a port changes nothing, and is no port by itself.
pub proof fn law_port_may_be_signed(text: Seq<char>)
    requires
        text.len() > 0 ==> text[0] != '+',
    ensures
        read_port(seq!['+'] + text) == read_port(text),
        text.len() == 0 ==> read_port(text) is None,
{
    let signed = seq!['+'] + text;
    assert(signed.skip(1) =~= text);
}

/// Anything but digits, after a sign in front of them, writes no port.
pub proof fn law_only_digits_are_a_port(text: Seq<char>, i: int)
    requires
        0 <= i < text.len(),
        !('0' <= text[i] <= '9'),
        i > 0 || text[i] != '+',
    ensures
        read_port(text) is None,
{
    if text[0] == '+' {
        assert(text.skip(1)[i - 1] == text[i]);
        lemma_no_number(text.skip(1), i - 1);
    } else {
        lemma_no_number(text, i);
    }
}

/// What is read of a text is no port from the moment it does not fit in 16 bits.
pub proof fn law_large_number_is_no_port(n: nat)
    requires
        n > 65535,
    ensures
        read_port(decimal(n)) is None,
{
    lemma_number_of_decimal(n);
}

/// The body of a service error tells that the service can't be reached, and nothing for any other.
pub proof fn law_error_bodies<B>(error: ServiceError, body: Body<B>)
    ensures
        is_error_body(error, body) <==> match error {
            ServiceError::UnableToReachService(_) => body matches Body::Full(bytes) && bytes@
                == encode_utf8("Can't reach service"@),
            _ => body is Empty,
        },
{
}

/// What is known of settings is all that they hold.
pub proof fn law_server_settings_view_is_faithful(settings: HyperServerSettings)
    ensures
        settings@.listener == settings.listener@,
        settings@.service_timeout == settings.service_timeout,
{
}

} // verus!
