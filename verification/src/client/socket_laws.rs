//! What holds of a client socket, whatever happens to it.
use crate::backoff::{
    delay_of, law_delay_is_bounded, law_first_attempt_is_immediate, law_first_wait, MIN_DELAY,
};
use crate::client::socket::{
    prepared, reply_of, Exchange, HyperClientSocket, Phase, Prepared, SocketControl, SocketEvent,
    SocketMsg, SocketTask,
};
use crate::error::{HyperProcError, ServiceError};
use crate::io::target_text;
use vstd::prelude::*;

verus! {

/// Every request the queue brings is answered right away or handed to the connection, never
/// dropped: one without data, or that comes before there is a connection, is told that the service
/// can't be reached.
pub proof fn law_every_request_is_taken_care_of<R, M>(
    socket: HyperClientSocket,
    control: SocketControl,
    request: R,
    data: Option<M>,
)
    requires
        socket.takes(control),
    ensures
        ({
            let event = SocketEvent::Message(SocketMsg::Request { request, data });
            let task = socket.stepped(control, event).1;
            if socket.phase is Waiting || data is None {
                task == (SocketTask::<R, M>::Reply {
                    request,
                    reply: Err(ServiceError::UnableToReachService(socket.service_name)),
                    close: false,
                })
            } else if socket.h2 {
                task == (SocketTask::Multiplex {
                    request,
                    data: data->0,
                    http_timeout: control.http_timeout,
                })
            } else {
                task == (SocketTask::Exchange {
                    request,
                    data: data->0,
                    http_timeout: control.http_timeout,
                })
            }
        }),
{
}

/// Every exchange ends with its request answered, whatever ended it. Only one that took too long
/// closes the connection.
pub proof fn law_every_exchange_is_answered<R, M>(
    socket: HyperClientSocket,
    control: SocketControl,
    request: R,
    exchange: Exchange<M>,
)
    requires
        socket.phase is Exchanging,
    ensures
        ({
            let (after, task) = socket.stepped(
                control,
                SocketEvent::Exchanged { request, exchange },
            );
            &&& task == (SocketTask::Reply {
                request,
                reply: reply_of(socket.service_name, exchange),
                close: exchange is TimedOut,
            })
            &&& after.phase == if exchange is TimedOut {
                Phase::Withdrawing
            } else {
                Phase::Serving
            }
        }),
{
}

/// A socket in the middle of an exchange takes nothing else: HTTP/1.1 tells responses apart by their
/// order alone.
pub proof fn law_one_exchange_at_a_time(socket: HyperClientSocket, control: SocketControl)
    requires
        socket.phase is Exchanging,
    ensures
        !socket.takes(control),
{
}

/// A retired socket takes no more request, waits for no connection, and finishes what it has in
/// flight before it hands itself back.
pub proof fn law_retired_socket_stops<R, M>(
    socket: HyperClientSocket,
    control: SocketControl,
    reconnect_delay: u64,
    max_reconnect_delay: u64,
)
    requires
        control.stopped,
    ensures
        socket.takes(control) ==> socket.phase is Waiting,
        ({
            let task = socket.stepped::<R, M>(control, SocketEvent::Stopped).1;
            &&& socket.phase is Waiting || socket.phase is Connecting || socket.phase is Handshaking
                ==> task is HandBack
            &&& socket.phase is Serving ==> task is Withdraw
        }),
        socket.started::<R, M>(reconnect_delay, max_reconnect_delay, control).1 is HandBack,
{
}

/// Requests in flight are never aborted: a socket hands itself back with some left only to let them
/// end by themselves, after the time given to a message.
pub proof fn law_in_flight_is_never_aborted<R, M>(
    socket: HyperClientSocket,
    control: SocketControl,
    event: SocketEvent<R, M>,
)
    requires
        socket.expects(control, event),
        socket.in_flight > 0,
        socket.phase is Serving || socket.phase is Withdrawing || socket.phase is Draining,
    ensures
        socket.stepped(control, event).1 matches SocketTask::HandBack { detach, .. } ==> detach
            && event is DrainEnded,
        event is Withdrawn && socket.phase is Withdrawing ==> socket.stepped(control, event).1 == (
        SocketTask::<R, M>::Drain { http_timeout: control.http_timeout }),
{
}

/// How much an event changes the number of connections that are counted.
pub open spec fn counted<R, M>(task: SocketTask<R, M>) -> int {
    match task {
        SocketTask::Handshake { .. } => 1,
        SocketTask::HandBack { disconnected: true, .. } => -1,
        _ => 0,
    }
}

/// The count of connections follows the socket: it goes up when a connection is opened and down when
/// the socket is handed back, so that it is one exactly while there is a connection.
pub proof fn law_connections_are_counted<R, M>(
    socket: HyperClientSocket,
    control: SocketControl,
    event: SocketEvent<R, M>,
)
    requires
        socket.expects(control, event),
    ensures
        ({
            let (after, task) = socket.stepped(control, event);
            (if after.is_connected() {
                1int
            } else {
                0
            }) == (if socket.is_connected() {
                1int
            } else {
                0
            }) + counted(task)
        }),
{
}

/// The socket once events reached it one after the other, each with what the processor decides then.
pub open spec fn after_all<R, M>(
    socket: HyperClientSocket,
    events: Seq<(SocketControl, SocketEvent<R, M>)>,
) -> HyperClientSocket
    decreases events.len(),
{
    if events.len() == 0 {
        socket
    } else {
        let (control, event) = events.last();
        after_all(socket, events.drop_last()).stepped(control, event).0
    }
}

/// Whether the socket can be handed each of the events in turn.
pub open spec fn expects_all<R, M>(
    socket: HyperClientSocket,
    events: Seq<(SocketControl, SocketEvent<R, M>)>,
) -> bool
    decreases events.len(),
{
    events.len() == 0 || (expects_all(socket, events.drop_last()) && after_all(
        socket,
        events.drop_last(),
    ).expects(events.last().0, events.last().1))
}

/// How much the events change the number of connections that are counted.
pub open spec fn counted_all<R, M>(
    socket: HyperClientSocket,
    events: Seq<(SocketControl, SocketEvent<R, M>)>,
) -> int
    decreases events.len(),
{
    if events.len() == 0 {
        0
    } else {
        let (control, event) = events.last();
        counted_all(socket, events.drop_last()) + counted(
            after_all(socket, events.drop_last()).stepped(control, event).1,
        )
    }
}

/// Whatever happens to a socket from the moment it starts, once it has no connection anymore the
/// count is back where it was, also when the connection ended with an error.
pub proof fn law_count_comes_back<R, M>(
    socket: HyperClientSocket,
    events: Seq<(SocketControl, SocketEvent<R, M>)>,
)
    requires
        !socket.is_connected(),
        expects_all(socket, events),
    ensures
        counted_all(socket, events) == if after_all(socket, events).is_connected() {
            1int
        } else {
            0
        },
    decreases events.len(),
{
    if events.len() > 0 {
        let (control, event) = events.last();
        law_count_comes_back(socket, events.drop_last());
        law_connections_are_counted(after_all(socket, events.drop_last()), control, event);
    }
}

/// A connection is counted in and out under the same target and version: they stay for as long as
/// there is a connection, until the socket was handed back.
pub proof fn law_connection_keeps_its_labels<R, M>(
    socket: HyperClientSocket,
    control: SocketControl,
    event: SocketEvent<R, M>,
)
    requires
        socket.expects(control, event),
        socket.is_connected(),
    ensures
        socket.stepped(control, event).0.label_view() == socket.label_view(),
{
}

/// A connection that could not be opened, or that the processor gave up on while it was opened, is
/// never counted.
pub proof fn law_unopened_connection_is_not_counted<R, M>(
    socket: HyperClientSocket,
    control: SocketControl,
    event: SocketEvent<R, M>,
)
    requires
        socket.phase is Connecting,
        event is Failed || event is Stopped,
    ensures
        socket.stepped(control, event).1 is HandBack,
        counted(socket.stepped(control, event).1) == 0,
        event is Stopped ==> socket.stepped(control, event).0.retry == 0,
{
}

/// A socket that is handed back waits before it connects again unless its connection worked: no less
/// than the shortest wait, no more than the longest, whatever is configured.
pub proof fn law_failed_socket_backs_off<R, M>(
    socket: HyperClientSocket,
    control: SocketControl,
    reconnect_delay: u64,
    max_reconnect_delay: u64,
)
    requires
        !control.stopped,
    ensures
        ({
            let task = socket.started::<R, M>(reconnect_delay, max_reconnect_delay, control).1;
            if socket.retry == 0 {
                task == (SocketTask::<R, M>::Connect { connect_timeout: control.connect_timeout })
            } else {
                task matches SocketTask::Wait { delay } && MIN_DELAY <= delay
                    && delay <= crate::backoff::clamped_max(max_reconnect_delay)
            }
        }),
{
    if socket.retry == 0 {
        law_first_attempt_is_immediate(reconnect_delay, max_reconnect_delay);
    } else {
        law_delay_is_bounded(reconnect_delay, max_reconnect_delay, socket.retry);
    }
}

/// The count of failures is reset by a connection that served something, lasted long enough or was
/// given up on demand, and goes up by one otherwise, without ever wrapping back to none.
pub proof fn law_only_working_connections_reset_the_backoff<R, M>(
    socket: HyperClientSocket,
    control: SocketControl,
    event: SocketEvent<R, M>,
)
    requires
        socket.expects(control, event),
        !(socket.phase is Waiting),
        socket.stepped(control, event).1 is HandBack,
    ensures
        ({
            let after = socket.stepped(control, event).0;
            let worked = match event {
                SocketEvent::Stopped => true,
                SocketEvent::Withdrawn { elapsed } => socket.served || elapsed
                    >= socket.healthy_connection,
                SocketEvent::DrainEnded { elapsed } => socket.served || elapsed
                    >= socket.healthy_connection,
                _ => false,
            };
            &&& worked ==> after.retry == 0
            &&& !worked && socket.retry < u32::MAX ==> after.retry == socket.retry + 1
            &&& !worked && socket.retry == u32::MAX ==> after.retry == u32::MAX
        }),
{
}

/// A socket keeps its slot, its backend and its service across its reconnections: only the time
/// given to connect follows what the processor decides.
pub proof fn law_socket_keeps_its_identity<R, M>(
    socket: HyperClientSocket,
    control: SocketControl,
    event: SocketEvent<R, M>,
)
    requires
        socket.expects(control, event),
    ensures
        ({
            let after = socket.stepped(control, event).0;
            &&& after.id == socket.id
            &&& after.service_name == socket.service_name
            &&& after.target@.connection == socket.target@.connection
        }),
{
}

/// What a socket becomes when it is started, waits for as long as it has to, and then can't connect.
pub open spec fn after_failed_attempt<R, M>(
    socket: HyperClientSocket,
    reconnect_delay: u64,
    max_reconnect_delay: u64,
    control: SocketControl,
    error: HyperProcError,
) -> HyperClientSocket {
    let (begun, task) = socket.started::<R, M>(reconnect_delay, max_reconnect_delay, control);
    let connecting = if task is Wait {
        begun.stepped::<R, M>(control, SocketEvent::DelayElapsed).0
    } else {
        begun
    };
    connecting.stepped::<R, M>(control, SocketEvent::Failed(error)).0
}

/// What a socket becomes after attempts that all failed, one after the other.
pub open spec fn after_failed_attempts<R, M>(
    socket: HyperClientSocket,
    reconnect_delay: u64,
    max_reconnect_delay: u64,
    attempts: Seq<(SocketControl, HyperProcError)>,
) -> HyperClientSocket
    decreases attempts.len(),
{
    if attempts.len() == 0 {
        socket
    } else {
        after_failed_attempt::<R, M>(
            after_failed_attempts::<R, M>(
                socket,
                reconnect_delay,
                max_reconnect_delay,
                attempts.drop_last(),
            ),
            reconnect_delay,
            max_reconnect_delay,
            attempts.last().0,
            attempts.last().1,
        )
    }
}

/// A socket counts every attempt that failed in a row, and the next one waits for the delay of that
/// many failures.
pub proof fn law_failures_in_a_row_add_up<R, M>(
    socket: HyperClientSocket,
    reconnect_delay: u64,
    max_reconnect_delay: u64,
    attempts: Seq<(SocketControl, HyperProcError)>,
    control: SocketControl,
)
    requires
        forall|i: int| 0 <= i < attempts.len() ==> !(#[trigger] attempts[i]).0.stopped,
        !control.stopped,
        socket.retry + attempts.len() <= u32::MAX,
    ensures
        ({
            let after = after_failed_attempts::<R, M>(
                socket,
                reconnect_delay,
                max_reconnect_delay,
                attempts,
            );
            let task = after.started::<R, M>(reconnect_delay, max_reconnect_delay, control).1;
            let failures = (socket.retry + attempts.len()) as u32;
            &&& after.retry == failures
            &&& attempts.len() > 0 ==> after.phase is Idle
            &&& failures > 0 ==> task == (SocketTask::<R, M>::Wait {
                delay: delay_of(reconnect_delay, max_reconnect_delay, failures) as u64,
            })
            &&& failures == 0 ==> task == (SocketTask::<R, M>::Connect {
                connect_timeout: control.connect_timeout,
            })
        }),
    decreases attempts.len(),
{
    if attempts.len() > 0 {
        let (last, error) = attempts.last();
        assert(attempts[attempts.len() - 1].0 == last);
        assert forall|i: int| 0 <= i < attempts.drop_last().len() implies !(
        #[trigger] attempts.drop_last()[i]).0.stopped by {
            assert(attempts.drop_last()[i] == attempts[i]);
        }
        law_failures_in_a_row_add_up::<R, M>(
            socket,
            reconnect_delay,
            max_reconnect_delay,
            attempts.drop_last(),
            last,
        );
    }
    let failures = (socket.retry + attempts.len()) as u32;
    if failures == 0 {
        law_first_attempt_is_immediate(reconnect_delay, max_reconnect_delay);
    } else {
        law_delay_is_bounded(reconnect_delay, max_reconnect_delay, failures);
    }
}

/// A socket that starts has the count of its failures, its slot, its backend and its service as they
/// were. A connection will have worked once it lasts as long as the first wait. What it does first is
/// to hand itself back if it was retired, to connect if it never failed, and to wait otherwise.
pub proof fn law_start_depends_on_the_failures<R, M>(
    socket: HyperClientSocket,
    reconnect_delay: u64,
    max_reconnect_delay: u64,
    control: SocketControl,
)
    ensures
        ({
            let (after, task) = socket.started::<R, M>(
                reconnect_delay,
                max_reconnect_delay,
                control,
            );
            let connects = !control.stopped && socket.retry == 0;
            &&& after.id == socket.id
            &&& after.service_name == socket.service_name
            &&& after.retry == socket.retry
            &&& after.h2 == socket.h2
            &&& after.served == socket.served
            &&& after.in_flight == socket.in_flight
            &&& after.target.url == socket.target.url
            &&& after.target.ssl == socket.target.ssl
            &&& after.target.proxy == socket.target.proxy
            &&& connects ==> after.target.connect_timeout == control.connect_timeout
            &&& !connects ==> after.target == socket.target
            &&& after.healthy_connection == delay_of(reconnect_delay, max_reconnect_delay, 1)
            &&& control.stopped ==> after.phase is Idle && task == (SocketTask::<R, M>::HandBack {
                error: None,
                disconnected: false,
                detach: false,
            })
            &&& connects ==> after.phase is Connecting && task == (SocketTask::<R, M>::Connect {
                connect_timeout: control.connect_timeout,
            })
            &&& !control.stopped && socket.retry > 0 ==> after.phase is Waiting && task == (
            SocketTask::<R, M>::Wait {
                delay: delay_of(reconnect_delay, max_reconnect_delay, socket.retry) as u64,
            })
        }),
{
    law_first_attempt_is_immediate(reconnect_delay, max_reconnect_delay);
    law_first_wait(reconnect_delay, max_reconnect_delay);
    if socket.retry > 0 {
        law_delay_is_bounded(reconnect_delay, max_reconnect_delay, socket.retry);
    }
}

/// A socket goes from one phase to the next in order: it waits, connects, shakes hands, declares
/// itself, serves, withdraws, drains what is in flight, and goes back to the processor. Whatever means
/// nothing where it stands leaves it there.
pub proof fn law_phases_follow_each_other<R, M>(
    socket: HyperClientSocket,
    control: SocketControl,
    event: SocketEvent<R, M>,
)
    requires
        socket.expects(control, event),
    ensures
        ({
            let after = socket.stepped(control, event).0;
            match socket.phase {
                Phase::Idle => after.phase is Idle,
                Phase::Waiting => {
                    let leaves = event is Stopped || event == SocketEvent::<R, M>::Message(
                        SocketMsg::Shutdown,
                    );
                    &&& after.phase is Connecting <==> event is DelayElapsed
                    &&& after.phase is Idle <==> leaves
                    &&& after.phase is Waiting <==> !leaves && !(event is DelayElapsed)
                },
                Phase::Connecting => {
                    &&& after.phase is Handshaking <==> event is Connected
                    &&& after.phase is Idle <==> event is Failed || event is Stopped
                    &&& after.phase is Connecting <==> !(event is Connected || event is Failed
                        || event is Stopped)
                },
                Phase::Handshaking => {
                    &&& after.phase is Declaring <==> event is HandshakeDone
                    &&& after.phase is Idle <==> event is Failed || event is Stopped
                    &&& after.phase is Handshaking <==> !(event is HandshakeDone || event is Failed
                        || event is Stopped)
                },
                Phase::Declaring => {
                    &&& after.phase is Serving <==> event is Declared
                    &&& after.phase is Idle <==> event is Failed
                    &&& after.phase is Declaring <==> !(event is Declared || event is Failed)
                },
                Phase::Serving => {
                    let leaves = event is Stopped || event is Closed || event == SocketEvent::<
                        R,
                        M,
                    >::Message(SocketMsg::Shutdown);
                    let sends = event matches SocketEvent::Message(
                        SocketMsg::Request { data: Some(_), .. },
                    );
                    &&& after.phase is Withdrawing <==> leaves
                    &&& after.phase is Exchanging <==> sends && !socket.h2
                    &&& after.phase is Serving <==> !leaves && !(sends && !socket.h2)
                },
                Phase::Exchanging => {
                    let times_out = event matches SocketEvent::Exchanged {
                        exchange: Exchange::TimedOut { .. },
                        ..
                    };
                    &&& after.phase is Withdrawing <==> times_out
                    &&& after.phase is Serving <==> event is Refused || (event is Exchanged
                        && !times_out)
                    &&& after.phase is Exchanging <==> !(event is Refused || event is Exchanged)
                },
                Phase::Withdrawing => {
                    &&& after.phase is Draining <==> event is Withdrawn && socket.in_flight > 0
                    &&& after.phase is Idle <==> event is Withdrawn && socket.in_flight == 0
                    &&& after.phase is Withdrawing <==> !(event is Withdrawn)
                },
                Phase::Draining => {
                    &&& after.phase is Idle <==> event is DrainEnded
                    &&& after.phase is Draining <==> !(event is DrainEnded)
                },
            }
        }),
{
}

/// A socket goes from one phase to the next with one task: to connect within the time given right now,
/// to shake hands within the time it was given to connect, to declare itself, to serve, to withdraw, to
/// drain within the time given to a message. It is handed back with what went wrong, and only a
/// connection that was opened is not counted anymore.
pub proof fn law_tasks_follow_the_phases<R, M>(
    socket: HyperClientSocket,
    control: SocketControl,
    event: SocketEvent<R, M>,
)
    requires
        socket.expects(control, event),
    ensures
        ({
            let (after, task) = socket.stepped(control, event);
            let back = SocketTask::<R, M>::HandBack {
                error: match event {
                    SocketEvent::Failed(error) => Some(error),
                    _ => None,
                },
                disconnected: !(socket.phase is Waiting || socket.phase is Connecting),
                detach: event is DrainEnded && socket.in_flight > 0,
            };
            &&& !(socket.phase is Idle) && after.phase is Idle ==> task == back
            &&& socket.phase is Waiting && after.phase is Connecting ==> task == (SocketTask::<
                R,
                M,
            >::Connect { connect_timeout: control.connect_timeout })
            &&& socket.phase is Connecting && after.phase is Handshaking ==> task == (SocketTask::<
                R,
                M,
            >::Handshake { connect_timeout: socket.target.connect_timeout })
            &&& socket.phase is Handshaking && after.phase is Declaring ==> task == SocketTask::<
                R,
                M,
            >::Declare
            &&& socket.phase is Declaring && after.phase is Serving ==> task == SocketTask::<
                R,
                M,
            >::Serve
            &&& socket.phase is Serving && after.phase is Withdrawing ==> task == SocketTask::<
                R,
                M,
            >::Withdraw
            &&& socket.phase is Withdrawing && after.phase is Draining ==> task == (SocketTask::<
                R,
                M,
            >::Drain { http_timeout: control.http_timeout })
            &&& after.phase == socket.phase && !(event matches SocketEvent::Message(
                SocketMsg::Request { .. },
            )) ==> task == SocketTask::<R, M>::Keep
        }),
{
}

/// A request that the adaptor refused is answered with the error it gave, and the connection goes on.
pub proof fn law_refused_request_is_answered<R, M>(
    socket: HyperClientSocket,
    control: SocketControl,
    request: R,
    error: ServiceError,
)
    requires
        socket.phase is Exchanging,
    ensures
        socket.stepped::<R, M>(control, SocketEvent::Refused { request, error }).1 == (SocketTask::<
            R,
            M,
        >::Reply { request, reply: Err(error), close: false }),
        socket.stepped::<R, M>(control, SocketEvent::Refused { request, error }).0.phase is Serving,
{
}

/// An exchange that ended in time is answered what the adaptor made of it, and one that did not is
/// answered that the service took longer than the time it was given.
pub proof fn law_reply_tells_what_happened<M>(
    service_name: String,
    answered: bool,
    reply: Result<M, ServiceError>,
    http_timeout: u64,
)
    ensures
        reply_of(service_name, Exchange::Done { answered, reply }) == reply,
        reply_of(service_name, Exchange::<M>::TimedOut { http_timeout }) == Err::<M, ServiceError>(
            ServiceError::Timeout(service_name, http_timeout),
        ),
{
}

/// A service request is sent as the adaptor made it, and answered with its error if it made none.
pub proof fn law_prepared_request_is_what_the_adaptor_made<R, Q>(
    request: R,
    http_request: Q,
    error: ServiceError,
)
    ensures
        prepared(request, Ok::<Q, ServiceError>(http_request)) == (Prepared::Send {
            request,
            http_request,
        }),
        prepared(request, Err::<Q, ServiceError>(error)) == (Prepared::<R, Q>::Answer {
            request,
            error,
        }),
{
}

/// The count of failures changes only when a socket is handed back after it tried to connect.
pub proof fn law_count_waits_for_the_end<R, M>(
    socket: HyperClientSocket,
    control: SocketControl,
    event: SocketEvent<R, M>,
)
    requires
        socket.expects(control, event),
    ensures
        ({
            let (after, task) = socket.stepped(control, event);
            socket.phase is Waiting || !(task is HandBack) ==> after.retry == socket.retry
        }),
{
}

/// A connection has served something from the first answer it gets, until another is opened. Nothing
/// is served by a socket that has none.
pub proof fn law_served_from_the_first_answer<R, M>(
    socket: HyperClientSocket,
    control: SocketControl,
    event: SocketEvent<R, M>,
)
    requires
        socket.expects(control, event),
    ensures
        ({
            let after = socket.stepped(control, event).0;
            let connected = !(socket.phase is Idle || socket.phase is Waiting
                || socket.phase is Connecting);
            let answers = (event is Answered && connected) || event matches SocketEvent::Exchanged {
                exchange: Exchange::Done { answered: true, .. },
                ..
            };
            if event is Connected && socket.phase is Connecting {
                !after.served && after.h2 == event->h2
            } else {
                after.served == (socket.served || answers) && after.h2 == socket.h2
            }
        }),
{
}

/// The requests in flight are the HTTP/2 ones that were sent and did not come to their end on the
/// connection there is.
pub proof fn law_in_flight_is_counted<R, M>(
    socket: HyperClientSocket,
    control: SocketControl,
    event: SocketEvent<R, M>,
)
    requires
        socket.expects(control, event),
    ensures
        ({
            let (after, task) = socket.stepped(control, event);
            let gone = (task is HandBack && !(socket.phase is Waiting)) || task is Handshake;
            after.in_flight == if gone {
                0
            } else if task is Multiplex {
                socket.in_flight + 1
            } else if event is RequestDone && socket.in_flight > 0 {
                socket.in_flight - 1
            } else {
                socket.in_flight as int
            }
        }),
{
}

/// Nothing that happens to a socket changes its slot, its service, its backend or how long a
/// connection must last, but for the time given to connect, which is the one given when it connects.
pub proof fn law_only_connecting_changes_the_backend<R, M>(
    socket: HyperClientSocket,
    control: SocketControl,
    event: SocketEvent<R, M>,
)
    requires
        socket.expects(control, event),
    ensures
        ({
            let (after, task) = socket.stepped(control, event);
            &&& after.id == socket.id
            &&& after.service_name == socket.service_name
            &&& after.healthy_connection == socket.healthy_connection
            &&& after.target.url == socket.target.url
            &&& after.target.ssl == socket.target.ssl
            &&& after.target.proxy == socket.target.proxy
            &&& after.target.connect_timeout == if task is Connect {
                control.connect_timeout
            } else {
                socket.target.connect_timeout
            }
        }),
{
}

/// A socket takes what its queue brings while it waits to connect again, and while it serves as long as
/// it is not retired.
pub proof fn law_socket_takes_messages(socket: HyperClientSocket, control: SocketControl)
    ensures
        socket.phase is Waiting ==> socket.takes(control),
        socket.phase is Serving ==> (socket.takes(control) <==> !control.stopped),
        !(socket.phase is Waiting || socket.phase is Serving) ==> !socket.takes(control),
{
}

/// A socket can be handed every event but for a message where it takes none, an answer to nothing it
/// asked, and the end of an exchange it is not in.
pub proof fn law_socket_expects_what_can_happen<R, M>(
    socket: HyperClientSocket,
    control: SocketControl,
    event: SocketEvent<R, M>,
)
    ensures
        !(event is Message || event is Refused || event is Exchanged) ==> socket.expects(
            control,
            event,
        ),
        event is Refused || event is Exchanged ==> (socket.expects(control, event)
            <==> socket.phase is Exchanging),
        event is Message && socket.phase is Waiting ==> socket.expects(control, event),
        event is Message && !(socket.phase is Waiting || socket.phase is Serving)
            ==> !socket.expects(control, event),
        event is Message && socket.phase is Serving && control.stopped ==> !socket.expects(
            control,
            event,
        ),
        socket.phase is Serving && !control.stopped ==> (event matches SocketEvent::Message(msg)
            ==> (socket.expects(control, event) <==> match msg {
            SocketMsg::Response => false,
            SocketMsg::Error => false,
            SocketMsg::Request { .. } => socket.in_flight < u64::MAX,
            _ => true,
        })),
{
}

/// A socket has a connection from the moment it is opened until the socket is handed back.
pub proof fn law_connected_phases(socket: HyperClientSocket)
    ensures
        socket.is_connected() <==> socket.phase is Handshaking || socket.phase is Declaring
            || socket.phase is Serving || socket.phase is Exchanging || socket.phase is Withdrawing
            || socket.phase is Draining,
{
}

/// A connection is counted under its backend's address and its protocol, nothing else.
pub proof fn law_labels_tell_the_protocol(socket: HyperClientSocket)
    ensures
        socket.label_view().0 == target_text(
            socket.target@.connection.url,
            socket.target.ssl is Some,
        ),
        socket.label_view().1 == if socket.h2 {
            "HTTP/2"@
        } else {
            "HTTP/1.1"@
        },
{
}

} // verus!
