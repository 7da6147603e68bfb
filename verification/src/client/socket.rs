//! What a client socket does with each event that reaches it.
//!
//! A socket connects to its backend, serves what its queue brings until the connection ends or it is
//! told to stop, then hands itself back. Which sockets exist is the processor's call.
use crate::backoff::{clamped_base, delay_of};
use crate::client::adaptor::HyperClientAdaptor;
use crate::client::proc::HyperClientSettings;
use crate::error::{HyperProcError, IoError, IoErrorKind, ServiceError};
use crate::io::{target_text, TargetSetting};
use crate::message::{
    connection_version, connection_version_str, hyper_version_str, version_name, HttpVersion,
};
use crate::text::{decimal, decimal_text, join};
use vstd::prelude::*;

verus! {

/// What the processor decides for one of its sockets, out of band from the requests it serves.
#[derive(Debug, Clone, Copy, PartialEq, Eq, Structural)]
pub struct SocketControl {
    /// Time given to the next attempt to connect, in milliseconds.
    pub connect_timeout: u64,
    /// Time given to the next HTTP message, in milliseconds.
    pub http_timeout: u64,
    /// Set once the processor retires the socket.
    pub stopped: bool,
}

impl SocketControl {
    /// What a socket about to be spawned is told.
    pub fn new(connect_timeout: u64, http_timeout: u64) -> (r: SocketControl)
        ensures
            r == (SocketControl { connect_timeout, http_timeout, stopped: false }),
    {
        SocketControl { connect_timeout, http_timeout, stopped: false }
    }
}

/// The part of an HTTP response that is measured.
#[derive(Debug, Clone, Copy, PartialEq, Eq, Structural)]
pub struct ResponseHead {
    /// Status code.
    pub status: u16,
    /// HTTP version.
    pub version: HttpVersion,
}

/// The measure of an HTTP message.
#[derive(Debug)]
pub struct MessageRecord {
    /// How long the message took, in milliseconds.
    pub duration: u64,
    /// Backend it was sent to, without credentials.
    pub target: String,
    /// Status code of the response, as a server error when there is none.
    pub code: u16,
    /// HTTP version of the response, as the one of the connection when there is none.
    pub version: &'static str,
}

/// Measure an HTTP message under the backend it was sent to.
pub fn record_message(
    target: &TargetSetting,
    response: Option<ResponseHead>,
    duration: u64,
    default_version: &'static str,
) -> (r: MessageRecord)
    ensures
        r.duration == duration,
        r.target@ == target_text(target@.connection.url, target@.connection.ssl is Some),
        match response {
            Some(head) => r.code == head.status && r.version@ == version_name(head.version),
            None => r.code == 500 && r.version@ == default_version@,
        },
{
    match response {
        Some(head) => MessageRecord {
            duration,
            target: target.to_text(),
            code: head.status,
            version: hyper_version_str(head.version),
        },
        None => MessageRecord {
            duration,
            target: target.to_text(),
            code: 500,
            version: default_version,
        },
    }
}

/// What the queue of a socket brings.
#[derive(Debug)]
pub enum SocketMsg<R, M> {
    /// A service request, with its data if it still holds any.
    Request { request: R, data: Option<M> },
    /// A service response.
    Response,
    /// A service error.
    Error,
    /// A new service table.
    Service,
    /// A new configuration.
    Config,
    /// ProSA shuts down.
    Shutdown,
}

/// How an HTTP exchange came to its end.
#[derive(Debug)]
pub enum Exchange<M> {
    /// It ended in time. The backend answered or not, and the adaptor made a service reply of it.
    Done { answered: bool, reply: Result<M, ServiceError> },
    /// It took longer than the time it was given, in milliseconds.
    TimedOut { http_timeout: u64 },
}

/// How a handshake came to its end.
#[derive(Debug)]
pub enum Handshake<T> {
    /// It gave a connection.
    Done(T),
    /// It failed.
    Failed(hyper::Error),
    /// It took too long.
    TimedOut,
}

/// Where a socket stands.
#[derive(Debug, Clone, Copy, PartialEq, Eq, Structural)]
pub enum Phase {
    /// Held by the processor.
    Idle,
    /// Waiting to connect again.
    Waiting,
    /// Connecting to the backend.
    Connecting,
    /// Shaking hands on a connection.
    Handshaking,
    /// Declaring its queue and its service.
    Declaring,
    /// Serving requests.
    Serving,
    /// In the middle of an HTTP/1.1 exchange.
    Exchanging,
    /// Taking its queue back.
    Withdrawing,
    /// Waiting for its HTTP/2 requests to be answered.
    Draining,
}

/// What happens to a socket.
#[derive(Debug)]
pub enum SocketEvent<R, M> {
    /// The delay before connecting again is over.
    DelayElapsed,
    /// The processor retired the socket.
    Stopped,
    /// The queue of the socket brought a message.
    Message(SocketMsg<R, M>),
    /// A connection was opened, HTTP/2 or not.
    Connected { h2: bool },
    /// The connection, the handshake or the declaration failed.
    Failed(HyperProcError),
    /// The handshake is done.
    HandshakeDone,
    /// The queue and the service are declared.
    Declared,
    /// The remote closed the connection.
    Closed,
    /// The adaptor refused to make an HTTP request.
    Refused { request: R, error: ServiceError },
    /// The HTTP/1.1 exchange came to its end.
    Exchanged { request: R, exchange: Exchange<M> },
    /// The backend answered an HTTP/2 request.
    Answered,
    /// An HTTP/2 request came to its end.
    RequestDone,
    /// The queue was taken back, that many milliseconds after the connection was opened.
    Withdrawn { elapsed: u64 },
    /// The HTTP/2 requests were waited for, that many milliseconds after the connection was opened.
    DrainEnded { elapsed: u64 },
}

/// What a socket has to do.
#[derive(Debug)]
pub enum SocketTask<R, M> {
    /// Nothing but to wait for the next event.
    Keep,
    /// Wait for a delay in milliseconds, answering what the queue brings.
    Wait { delay: u64 },
    /// Connect to the backend, within a number of milliseconds.
    Connect { connect_timeout: u64 },
    /// Count the connection, and shake hands on it within a number of milliseconds.
    Handshake { connect_timeout: u64 },
    /// Declare the queue and the service.
    Declare,
    /// Serve what the queue brings.
    Serve,
    /// Answer a request, and carry on or not.
    Reply { request: R, reply: Result<M, ServiceError>, close: bool },
    /// Send a request alone on the connection, within a number of milliseconds.
    Exchange { request: R, data: M, http_timeout: u64 },
    /// Send a request among others on the connection, within a number of milliseconds.
    Multiplex { request: R, data: M, http_timeout: u64 },
    /// Take the queue back.
    Withdraw,
    /// Wait for the requests in flight to be answered, within a number of milliseconds.
    Drain { http_timeout: u64 },
    /// Hand the socket back to the processor, with what went wrong. The connection is not counted
    /// anymore if it was, and the requests still in flight are left to end by themselves.
    HandBack { error: Option<HyperProcError>, disconnected: bool, detach: bool },
}

/// A client socket.
#[derive(Debug)]
pub struct HyperClientSocket {
    /// Slot of the socket, stable across its reconnections.
    pub id: u32,
    /// Backend of the socket.
    pub target: TargetSetting,
    /// Service the socket advertises.
    pub service_name: String,
    /// Number of attempts in a row that gave no working connection.
    pub retry: u32,
    /// Where the socket stands.
    pub phase: Phase,
    /// Whether the connection is HTTP/2.
    pub h2: bool,
    /// Whether the backend answered anything on this connection.
    pub served: bool,
    /// Number of HTTP/2 requests that did not come to their end.
    pub in_flight: u64,
    /// How long a connection that served nothing must last to count as a working one, in
    /// milliseconds.
    pub healthy_connection: u64,
}

/// The number of failures once an attempt is over.
pub open spec fn next_retry(retry: u32, worked: bool) -> u32 {
    if worked {
        0
    } else if retry == u32::MAX {
        u32::MAX
    } else {
        (retry + 1) as u32
    }
}

impl HyperClientSocket {
    /// Whether a connection is counted for the socket.
    pub open spec fn is_connected(self) -> bool {
        !(self.phase is Idle || self.phase is Waiting || self.phase is Connecting)
    }

    /// Whether the socket takes what its queue brings. A retired socket takes nothing anymore once
    /// it is connected.
    pub open spec fn takes(self, control: SocketControl) -> bool {
        self.phase is Waiting || (self.phase is Serving && !control.stopped)
    }

    /// Whether the socket can be handed an event: a message only where it takes them, and the end
    /// of an exchange only in the middle of one. Nothing answers a socket, so a response or an
    /// error is a mistake of its sender once the socket serves.
    pub open spec fn expects<R, M>(self, control: SocketControl, event: SocketEvent<R, M>) -> bool {
        match event {
            SocketEvent::Message(msg) => {
                &&& self.takes(control)
                &&& self.phase is Serving ==> !(msg is Response) && !(msg is Error)
                &&& self.phase is Serving && msg is Request ==> self.in_flight < u64::MAX
            },
            SocketEvent::Refused { .. } => self.phase is Exchanging,
            SocketEvent::Exchanged { .. } => self.phase is Exchanging,
            _ => true,
        }
    }

    /// The socket given back to the processor after an attempt that worked or not.
    pub open spec fn given_back(self, worked: bool) -> HyperClientSocket {
        HyperClientSocket {
            retry: next_retry(self.retry, worked),
            phase: Phase::Idle,
            in_flight: 0,
            ..self
        }
    }

    /// The socket given back before any attempt.
    pub open spec fn put_down(self) -> HyperClientSocket {
        HyperClientSocket { phase: Phase::Idle, ..self }
    }

    /// The socket that connects to its backend.
    pub open spec fn connecting(self, control: SocketControl) -> HyperClientSocket {
        HyperClientSocket {
            target: TargetSetting { connect_timeout: control.connect_timeout, ..self.target },
            phase: Phase::Connecting,
            ..self
        }
    }

    /// Whether the connection that comes to its end worked: it served something, or lasted long
    /// enough.
    pub open spec fn worked(self, elapsed: u64) -> bool {
        self.served || elapsed >= self.healthy_connection
    }

    /// What a socket told to stop becomes.
    pub open spec fn stopped<R, M>(self) -> (HyperClientSocket, SocketTask<R, M>) {
        match self.phase {
            Phase::Waiting => (
                self.put_down(),
                SocketTask::HandBack { error: None, disconnected: false, detach: false },
            ),
            Phase::Connecting => (
                self.given_back(true),
                SocketTask::HandBack { error: None, disconnected: false, detach: false },
            ),
            Phase::Handshaking => (
                self.given_back(true),
                SocketTask::HandBack { error: None, disconnected: true, detach: false },
            ),
            Phase::Serving => (
                HyperClientSocket { phase: Phase::Withdrawing, ..self },
                SocketTask::Withdraw,
            ),
            _ => (self, SocketTask::Keep),
        }
    }

    /// What a socket becomes with a message of its queue.
    pub open spec fn messaged<R, M>(self, control: SocketControl, msg: SocketMsg<R, M>) -> (
        HyperClientSocket,
        SocketTask<R, M>,
    ) {
        let unreachable = ServiceError::UnableToReachService(self.service_name);
        if self.phase is Waiting {
            match msg {
                SocketMsg::Request { request, .. } => (
                    self,
                    SocketTask::Reply { request, reply: Err(unreachable), close: false },
                ),
                SocketMsg::Shutdown => (
                    self.put_down(),
                    SocketTask::HandBack { error: None, disconnected: false, detach: false },
                ),
                _ => (self, SocketTask::Keep),
            }
        } else {
            match msg {
                SocketMsg::Request { request, data: None } => (
                    self,
                    SocketTask::Reply { request, reply: Err(unreachable), close: false },
                ),
                SocketMsg::Request { request, data: Some(data) } => if self.h2 {
                    (
                        HyperClientSocket { in_flight: (self.in_flight + 1) as u64, ..self },
                        SocketTask::Multiplex { request, data, http_timeout: control.http_timeout },
                    )
                } else {
                    (
                        HyperClientSocket { phase: Phase::Exchanging, ..self },
                        SocketTask::Exchange { request, data, http_timeout: control.http_timeout },
                    )
                },
                SocketMsg::Shutdown => (
                    HyperClientSocket { phase: Phase::Withdrawing, ..self },
                    SocketTask::Withdraw,
                ),
                _ => (self, SocketTask::Keep),
            }
        }
    }

    /// What a socket becomes when its HTTP/1.1 exchange came to its end. One that took too long
    /// leaves the connection where the next response can't be told apart, so it closes.
    pub open spec fn exchanged<R, M>(self, request: R, exchange: Exchange<M>) -> (
        HyperClientSocket,
        SocketTask<R, M>,
    ) {
        match exchange {
            Exchange::Done { answered, .. } => (
                HyperClientSocket {
                    phase: Phase::Serving,
                    served: self.served || answered,
                    ..self
                },
                SocketTask::Reply {
                    request,
                    reply: reply_of(self.service_name, exchange),
                    close: false,
                },
            ),
            Exchange::TimedOut { .. } => (
                HyperClientSocket { phase: Phase::Withdrawing, ..self },
                SocketTask::Reply {
                    request,
                    reply: reply_of(self.service_name, exchange),
                    close: true,
                },
            ),
        }
    }

    /// What a socket becomes with an event, and what it has to do. An event that means nothing where
    /// the socket stands changes nothing.
    pub open spec fn stepped<R, M>(self, control: SocketControl, event: SocketEvent<R, M>) -> (
        HyperClientSocket,
        SocketTask<R, M>,
    ) {
        match event {
            SocketEvent::DelayElapsed => if self.phase is Waiting {
                (
                    self.connecting(control),
                    SocketTask::Connect { connect_timeout: control.connect_timeout },
                )
            } else {
                (self, SocketTask::Keep)
            },
            SocketEvent::Stopped => self.stopped(),
            SocketEvent::Message(msg) => self.messaged(control, msg),
            SocketEvent::Connected { h2 } => if self.phase is Connecting {
                (
                    HyperClientSocket {
                        phase: Phase::Handshaking,
                        h2,
                        served: false,
                        in_flight: 0,
                        ..self
                    },
                    SocketTask::Handshake { connect_timeout: self.target.connect_timeout },
                )
            } else {
                (self, SocketTask::Keep)
            },
            SocketEvent::Failed(error) => if self.phase is Connecting || self.phase is Handshaking
                || self.phase is Declaring {
                (
                    self.given_back(false),
                    SocketTask::HandBack {
                        error: Some(error),
                        disconnected: !(self.phase is Connecting),
                        detach: false,
                    },
                )
            } else {
                (self, SocketTask::Keep)
            },
            SocketEvent::HandshakeDone => if self.phase is Handshaking {
                (HyperClientSocket { phase: Phase::Declaring, ..self }, SocketTask::Declare)
            } else {
                (self, SocketTask::Keep)
            },
            SocketEvent::Declared => if self.phase is Declaring {
                (HyperClientSocket { phase: Phase::Serving, ..self }, SocketTask::Serve)
            } else {
                (self, SocketTask::Keep)
            },
            SocketEvent::Closed => if self.phase is Serving {
                (HyperClientSocket { phase: Phase::Withdrawing, ..self }, SocketTask::Withdraw)
            } else {
                (self, SocketTask::Keep)
            },
            SocketEvent::Refused { request, error } => (
                HyperClientSocket { phase: Phase::Serving, ..self },
                SocketTask::Reply { request, reply: Err(error), close: false },
            ),
            SocketEvent::Exchanged { request, exchange } => self.exchanged(request, exchange),
            SocketEvent::Answered => (
                HyperClientSocket { served: self.served || self.is_connected(), ..self },
                SocketTask::Keep,
            ),
            SocketEvent::RequestDone => (
                HyperClientSocket {
                    in_flight: if self.in_flight == 0 {
                        0
                    } else {
                        (self.in_flight - 1) as u64
                    },
                    ..self
                },
                SocketTask::Keep,
            ),
            SocketEvent::Withdrawn { elapsed } => if !(self.phase is Withdrawing) {
                (self, SocketTask::Keep)
            } else if self.in_flight > 0 {
                (
                    HyperClientSocket { phase: Phase::Draining, ..self },
                    SocketTask::Drain { http_timeout: control.http_timeout },
                )
            } else {
                (
                    self.given_back(self.worked(elapsed)),
                    SocketTask::HandBack { error: None, disconnected: true, detach: false },
                )
            },
            SocketEvent::DrainEnded { elapsed } => if self.phase is Draining {
                (
                    self.given_back(self.worked(elapsed)),
                    SocketTask::HandBack {
                        error: None,
                        disconnected: true,
                        detach: self.in_flight > 0,
                    },
                )
            } else {
                (self, SocketTask::Keep)
            },
        }
    }

    /// What a socket becomes when the processor starts it, and what it has to do.
    pub open spec fn started<R, M>(
        self,
        reconnect_delay: u64,
        max_reconnect_delay: u64,
        control: SocketControl,
    ) -> (HyperClientSocket, SocketTask<R, M>) {
        let delay = delay_of(reconnect_delay, max_reconnect_delay, self.retry);
        let socket = HyperClientSocket {
            phase: Phase::Waiting,
            healthy_connection: clamped_base(reconnect_delay, max_reconnect_delay),
            ..self
        };
        if control.stopped {
            (
                socket.put_down(),
                SocketTask::HandBack { error: None, disconnected: false, detach: false },
            )
        } else if delay == 0 {
            (
                socket.connecting(control),
                SocketTask::Connect { connect_timeout: control.connect_timeout },
            )
        } else {
            (socket, SocketTask::Wait { delay: delay as u64 })
        }
    }

    /// A socket on a backend, which the processor starts when it wants to.
    pub fn new(id: u32, target: TargetSetting, service_name: String) -> (r: HyperClientSocket)
        ensures
            r.id == id,
            r.target == target,
            r.service_name == service_name,
            r.retry == 0,
            r.phase is Idle,
            r.in_flight == 0,
            !r.served,
            !r.h2,
            r.healthy_connection == 0,
    {
        HyperClientSocket {
            id,
            target,
            service_name,
            retry: 0,
            phase: Phase::Idle,
            h2: false,
            served: false,
            in_flight: 0,
            healthy_connection: 0,
        }
    }

    /// What the connection of the socket is counted under: its target, without credentials, and
    /// its HTTP version.
    pub open spec fn label_view(self) -> (Seq<char>, Seq<char>) {
        (
            target_text(self.target@.connection.url, self.target@.connection.ssl is Some),
            connection_version(self.h2),
        )
    }

    /// What the connection of the socket is counted under.
    pub fn labels(&self) -> (r: (String, &'static str))
        ensures
            (r.0@, r.1@) == self.label_view(),
    {
        (self.target.to_text(), connection_version_str(self.h2))
    }

    /// Slot of the socket.
    pub fn id(&self) -> (r: u32)
        ensures
            r == self.id,
    {
        self.id
    }

    /// Whether the socket takes what its queue brings.
    pub fn takes_messages(&self, control: SocketControl) -> (r: bool)
        ensures
            r == self.takes(control),
    {
        self.phase == Phase::Waiting || (self.phase == Phase::Serving && !control.stopped)
    }

    /// Start the socket: wait first if its last attempts failed, and do nothing if it was retired
    /// in the meantime.
    pub fn spawn<R, M>(&mut self, settings: &HyperClientSettings, control: SocketControl) -> (r:
        SocketTask<R, M>)
        ensures
            (*final(self), r) == old(self).started::<R, M>(
                settings@.reconnect_delay,
                settings@.max_reconnect_delay,
                control,
            ),
    {
        let backoff = settings.backoff();
        let delay: u64 = backoff.delay(self.retry);
        self.healthy_connection = backoff.healthy_connection();
        proof {
            crate::backoff::lemma_clamped_delay(
                settings@.reconnect_delay,
                settings@.max_reconnect_delay,
                self.retry,
            );
        }
        if control.stopped {
            self.phase = Phase::Idle;
            return SocketTask::HandBack { error: None, disconnected: false, detach: false };
        }
        self.phase = Phase::Waiting;
        if delay == 0 {
            self.connect(control)
        } else {
            SocketTask::Wait { delay }
        }
    }

    /// Connect to the backend, within the time the processor gives right now.
    fn connect<R, M>(&mut self, control: SocketControl) -> (r: SocketTask<R, M>)
        ensures
            *final(self) == old(self).connecting(control),
            r == (SocketTask::<R, M>::Connect { connect_timeout: control.connect_timeout }),
    {
        self.target.connect_timeout = control.connect_timeout;
        self.phase = Phase::Connecting;
        SocketTask::Connect { connect_timeout: control.connect_timeout }
    }

    /// Hand the socket back after an attempt that worked or not.
    fn give_back(&mut self, worked: bool)
        ensures
            *final(self) == old(self).given_back(worked),
    {
        self.retry = if worked {
            0
        } else {
            self.retry.saturating_add(1)
        };
        self.phase = Phase::Idle;
        self.in_flight = 0;
    }

    /// Stop, unless something has to come to its end first.
    fn stop<R, M>(&mut self) -> (r: SocketTask<R, M>)
        ensures
            (*final(self), r) == old(self).stopped::<R, M>(),
    {
        match self.phase {
            Phase::Waiting => {
                self.phase = Phase::Idle;
                SocketTask::HandBack { error: None, disconnected: false, detach: false }
            },
            Phase::Connecting => {
                self.give_back(true);
                SocketTask::HandBack { error: None, disconnected: false, detach: false }
            },
            Phase::Handshaking => {
                self.give_back(true);
                SocketTask::HandBack { error: None, disconnected: true, detach: false }
            },
            Phase::Serving => {
                self.phase = Phase::Withdrawing;
                SocketTask::Withdraw
            },
            _ => SocketTask::Keep,
        }
    }

    /// Take a message of the queue.
    fn message<R, M>(&mut self, control: SocketControl, msg: SocketMsg<R, M>) -> (r: SocketTask<
        R,
        M,
    >)
        requires
            old(self).expects(control, SocketEvent::Message(msg)),
        ensures
            (*final(self), r) == old(self).messaged(control, msg),
    {
        let waiting: bool = self.phase == Phase::Waiting;
        match msg {
            SocketMsg::Request { request, data } => {
                let unreachable = ServiceError::UnableToReachService(self.service_name.clone());
                let http_timeout: u64 = control.http_timeout;
                if waiting {
                    return SocketTask::Reply { request, reply: Err(unreachable), close: false };
                }
                match data {
                    Some(data) => if self.h2 {
                        self.in_flight = self.in_flight + 1;
                        SocketTask::Multiplex { request, data, http_timeout }
                    } else {
                        self.phase = Phase::Exchanging;
                        SocketTask::Exchange { request, data, http_timeout }
                    },
                    None => SocketTask::Reply { request, reply: Err(unreachable), close: false },
                }
            },
            SocketMsg::Shutdown => if waiting {
                self.phase = Phase::Idle;
                SocketTask::HandBack { error: None, disconnected: false, detach: false }
            } else {
                self.phase = Phase::Withdrawing;
                SocketTask::Withdraw
            },
            _ => SocketTask::Keep,
        }
    }

    /// Answer the request of an HTTP/1.1 exchange that came to its end.
    fn exchange<R, M>(&mut self, request: R, exchange: Exchange<M>) -> (r: SocketTask<R, M>)
        ensures
            (*final(self), r) == old(self).exchanged(request, exchange),
    {
        let close: bool = match &exchange {
            Exchange::Done { answered, .. } => {
                self.phase = Phase::Serving;
                self.served = self.served || *answered;
                false
            },
            Exchange::TimedOut { .. } => {
                self.phase = Phase::Withdrawing;
                true
            },
        };
        SocketTask::Reply { request, reply: exchange_reply(&self.service_name, exchange), close }
    }

    /// Take an event, and say what has to be done.
    pub fn step<R, M>(&mut self, control: SocketControl, event: SocketEvent<R, M>) -> (r:
        SocketTask<R, M>)
        requires
            old(self).expects(control, event),
        ensures
            (*final(self), r) == old(self).stepped(control, event),
    {
        match event {
            SocketEvent::DelayElapsed => if self.phase == Phase::Waiting {
                self.connect(control)
            } else {
                SocketTask::Keep
            },
            SocketEvent::Stopped => self.stop(),
            SocketEvent::Message(msg) => self.message(control, msg),
            SocketEvent::Connected { h2 } => if self.phase == Phase::Connecting {
                self.phase = Phase::Handshaking;
                self.h2 = h2;
                self.served = false;
                self.in_flight = 0;
                SocketTask::Handshake { connect_timeout: self.target.connect_timeout }
            } else {
                SocketTask::Keep
            },
            SocketEvent::Failed(error) => match self.phase {
                Phase::Connecting | Phase::Handshaking | Phase::Declaring => {
                    let disconnected: bool = self.phase != Phase::Connecting;
                    self.give_back(false);
                    SocketTask::HandBack { error: Some(error), disconnected, detach: false }
                },
                _ => SocketTask::Keep,
            },
            SocketEvent::HandshakeDone => if self.phase == Phase::Handshaking {
                self.phase = Phase::Declaring;
                SocketTask::Declare
            } else {
                SocketTask::Keep
            },
            SocketEvent::Declared => if self.phase == Phase::Declaring {
                self.phase = Phase::Serving;
                SocketTask::Serve
            } else {
                SocketTask::Keep
            },
            SocketEvent::Closed => if self.phase == Phase::Serving {
                self.phase = Phase::Withdrawing;
                SocketTask::Withdraw
            } else {
                SocketTask::Keep
            },
            SocketEvent::Refused { request, error } => {
                self.phase = Phase::Serving;
                SocketTask::Reply { request, reply: Err(error), close: false }
            },
            SocketEvent::Exchanged { request, exchange } => self.exchange(request, exchange),
            SocketEvent::Answered => {
                self.served = self.served || !matches!(
                    self.phase,
                    Phase::Idle | Phase::Waiting | Phase::Connecting
                );
                SocketTask::Keep
            },
            SocketEvent::RequestDone => {
                if self.in_flight > 0 {
                    self.in_flight = self.in_flight - 1;
                }
                SocketTask::Keep
            },
            SocketEvent::Withdrawn { elapsed } => if self.phase != Phase::Withdrawing {
                SocketTask::Keep
            } else if self.in_flight > 0 {
                self.phase = Phase::Draining;
                SocketTask::Drain { http_timeout: control.http_timeout }
            } else {
                let worked: bool = self.served || elapsed >= self.healthy_connection;
                self.give_back(worked);
                SocketTask::HandBack { error: None, disconnected: true, detach: false }
            },
            SocketEvent::DrainEnded { elapsed } => if self.phase == Phase::Draining {
                let worked: bool = self.served || elapsed >= self.healthy_connection;
                let detach: bool = self.in_flight > 0;
                self.give_back(worked);
                SocketTask::HandBack { error: None, disconnected: true, detach }
            } else {
                SocketTask::Keep
            },
        }
    }

    /// Make the HTTP request of a service request, or answer it right away when the adaptor refuses
    /// or when there is nothing to send.
    pub fn process_request<A, R, M>(&self, adaptor: &A, request: R, data: Option<M>) -> (r:
        Prepared<R, A::Request>) where A: HyperClientAdaptor<M>
        ensures
            match data {
                Some(data) => exists|made: Result<A::Request, ServiceError>|
                    call_ensures(
                        A::process_srv_request,
                        (adaptor, data, &self.target.url),
                        made,
                    ) && r == #[trigger] prepared(request, made),
                None => r == (Prepared::<R, A::Request>::Answer {
                    request,
                    error: ServiceError::UnableToReachService(self.service_name),
                }),
            },
    {
        match data {
            Some(data) => {
                let made = adaptor.process_srv_request(data, &self.target.url);
                prepare(request, made)
            },
            None => Prepared::Answer {
                request,
                error: ServiceError::UnableToReachService(self.service_name.clone()),
            },
        }
    }

    /// Turn a handshake into the connection it gave, or into what went wrong.
    pub fn handshake_result<T>(&self, handshake: Handshake<T>, protocol: &str) -> (r: Result<
        T,
        HyperProcError,
    >)
        ensures
            match handshake {
                Handshake::Done(connected) => r == Ok::<T, HyperProcError>(connected),
                Handshake::Failed(error) => r matches Err(HyperProcError::Hyper(e, target)) && e
                    == error && target@ == target_text(
                    self.target@.connection.url,
                    self.target@.connection.ssl is Some,
                ),
                Handshake::TimedOut => r matches Err(HyperProcError::Io(error)) && error.kind
                    == IoErrorKind::TimedOut && error.message@ == protocol@
                    + " handshake timeout after "@ + decimal(self.target.connect_timeout as nat)
                    + " ms"@,
            },
    {
        match handshake {
            Handshake::Done(connected) => Ok(connected),
            Handshake::Failed(error) => Err(HyperProcError::Hyper(error, self.target.to_text())),
            Handshake::TimedOut => {
                let start = join(protocol, " handshake timeout after ");
                let timed = join(
                    start.as_str(),
                    decimal_text(self.target.connect_timeout).as_str(),
                );
                Err(
                    HyperProcError::Io(
                        IoError {
                            kind: IoErrorKind::TimedOut,
                            message: join(timed.as_str(), " ms"),
                        },
                    ),
                )
            },
        }
    }

    /// What is answered to a message that reaches a socket that won't come back.
    pub fn retire<R, M>(&self, msg: SocketMsg<R, M>) -> (r: Option<(R, ServiceError)>)
        ensures
            r == match msg {
                SocketMsg::Request { request, .. } => Some(
                    (request, ServiceError::UnableToReachService(self.service_name)),
                ),
                _ => None::<(R, ServiceError)>,
            },
    {
        match msg {
            SocketMsg::Request { request, .. } => Some(
                (request, ServiceError::UnableToReachService(self.service_name.clone())),
            ),
            _ => None,
        }
    }
}

/// A service request that can be sent or has to be answered.
#[derive(Debug)]
pub enum Prepared<R, Q> {
    /// The HTTP request to send for it.
    Send { request: R, http_request: Q },
    /// What it is answered.
    Answer { request: R, error: ServiceError },
}

/// What a service request becomes by what the adaptor made of it.
pub open spec fn prepared<R, Q>(request: R, made: Result<Q, ServiceError>) -> Prepared<R, Q> {
    match made {
        Ok(http_request) => Prepared::Send { request, http_request },
        Err(error) => Prepared::Answer { request, error },
    }
}

/// Send a service request or answer it, by what the adaptor made of it.
pub fn prepare<R, Q>(request: R, made: Result<Q, ServiceError>) -> (r: Prepared<R, Q>)
    ensures
        r == prepared(request, made),
{
    match made {
        Ok(http_request) => Prepared::Send { request, http_request },
        Err(error) => Prepared::Answer { request, error },
    }
}

/// The reply of an exchange: what the adaptor made of it, or a timeout.
pub open spec fn reply_of<M>(service_name: String, exchange: Exchange<M>) -> Result<
    M,
    ServiceError,
> {
    match exchange {
        Exchange::Done { reply, .. } => reply,
        Exchange::TimedOut { http_timeout } => Err(
            ServiceError::Timeout(service_name, http_timeout),
        ),
    }
}

/// Reply of an exchange that came to its end, for a service.
pub fn exchange_reply<M>(service_name: &String, exchange: Exchange<M>) -> (r: Result<
    M,
    ServiceError,
>)
    ensures
        r == reply_of(*service_name, exchange),
{
    match exchange {
        Exchange::Done { reply, .. } => reply,
        Exchange::TimedOut { http_timeout } => Err(
            ServiceError::Timeout(service_name.clone(), http_timeout),
        ),
    }
}

} // verus!
