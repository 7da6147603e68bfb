//! What goes wrong in the processors and in the services they call.
use vstd::prelude::*;
use vstd::std_specs::convert::FromSpec;

use crate::text::join;

verus! {

/// An error of `hyper`, carried as it is.
#[verifier::external_type_specification]
#[verifier::external_body]
pub struct ExHyperError(hyper::Error);

/// An error of `http`, carried as it is.
#[verifier::external_type_specification]
#[verifier::external_body]
pub struct ExHttpError(http::Error);

/// What a service answers when it can't respond correctly to a request.
#[derive(Debug)]
pub enum ServiceError {
    /// The service made no error.
    NoError(String),
    /// The service can't be reached.
    UnableToReachService(String),
    /// The service didn't respond before a number of milliseconds.
    Timeout(String, u64),
    /// The service made a protocol error.
    ProtocolError(String),
}

/// What a service answered to a request.
#[derive(Debug)]
pub struct ResponseMsg<M> {
    /// Id of the request.
    pub id: u64,
    /// Service the request was for.
    pub service: String,
    /// Data the service answered with, if it still holds any.
    pub data: Option<M>,
}

/// A request that ended with an error.
#[derive(Debug)]
pub struct ErrorMsg<M> {
    /// Id of the request.
    pub id: u64,
    /// Service the request was for.
    pub service: String,
    /// Data the request comes back with.
    pub data: Option<M>,
    /// What went wrong.
    pub err: ServiceError,
}

impl<M> ErrorMsg<M> {
    /// What went wrong.
    pub fn get_err(&self) -> (r: &ServiceError)
        ensures
            *r == self.err,
    {
        &self.err
    }
}

/// What the ProSA bus couldn't do.
#[derive(Debug)]
pub enum BusError {
    /// A message for the main task couldn't be sent: its name, the processor, the queue, and why.
    InternalMainQueue(String, u32, u32, String),
    /// An internal message couldn't be sent.
    InternalQueue(String),
    /// A queue of a processor can't be contacted.
    ProcComm(u32, u32, String),
    /// An internal message is not correct.
    InternalTvfMsg(String),
    /// The data was already consumed.
    NoData,
}

impl BusError {
    /// Whether a processor can be started again after this error: only the main task comes back.
    pub fn recoverable(&self) -> (r: bool)
        ensures
            r == (self is InternalMainQueue),
    {
        matches!(self, BusError::InternalMainQueue(..))
    }
}

/// The kinds of input and output errors that may be temporary, and all the others.
#[derive(Debug, Clone, Copy, PartialEq, Eq, Structural)]
pub enum IoErrorKind {
    /// The remote reset the connection.
    ConnectionReset,
    /// The remote aborted the connection.
    ConnectionAborted,
    /// There is no connection yet.
    NotConnected,
    /// The pipe was closed.
    BrokenPipe,
    /// The operation would have to block.
    WouldBlock,
    /// The data is not valid.
    InvalidData,
    /// The operation took too long.
    TimedOut,
    /// Nothing could be written.
    WriteZero,
    /// The operation was interrupted.
    Interrupted,
    /// The data ended too early.
    UnexpectedEof,
    /// There is no memory left.
    OutOfMemory,
    /// Anything else.
    Other,
}

/// An input or output error.
#[derive(Debug)]
pub struct IoError {
    /// What kind of error it is.
    pub kind: IoErrorKind,
    /// What it says.
    pub message: String,
}

impl IoError {
    /// Whether a processor can be started again after this error, because it may be temporary.
    pub fn recoverable(&self) -> (r: bool)
        ensures
            r == (self.kind != IoErrorKind::Other),
    {
        kind_recoverable(self.kind)
    }
}

/// Calls `prosa::core::error::ProcError::recoverable` on a standard error of the given kind.
///
/// Trusted: every kind that is named here is recoverable, any other is not.
#[verifier::external_body]
fn kind_recoverable(kind: IoErrorKind) -> (r: bool)
    ensures
        r == (kind != IoErrorKind::Other),
{
    let kind = match kind {
        IoErrorKind::ConnectionReset => std::io::ErrorKind::ConnectionReset,
        IoErrorKind::ConnectionAborted => std::io::ErrorKind::ConnectionAborted,
        IoErrorKind::NotConnected => std::io::ErrorKind::NotConnected,
        IoErrorKind::BrokenPipe => std::io::ErrorKind::BrokenPipe,
        IoErrorKind::WouldBlock => std::io::ErrorKind::WouldBlock,
        IoErrorKind::InvalidData => std::io::ErrorKind::InvalidData,
        IoErrorKind::TimedOut => std::io::ErrorKind::TimedOut,
        IoErrorKind::WriteZero => std::io::ErrorKind::WriteZero,
        IoErrorKind::Interrupted => std::io::ErrorKind::Interrupted,
        IoErrorKind::UnexpectedEof => std::io::ErrorKind::UnexpectedEof,
        IoErrorKind::OutOfMemory => std::io::ErrorKind::OutOfMemory,
        IoErrorKind::Other => std::io::ErrorKind::Other,
    };
    prosa::core::error::ProcError::recoverable(&std::io::Error::from(kind))
}

/// What stops a processor or one of its sockets.
#[derive(Debug)]
pub enum HyperProcError {
    /// Input or output error.
    Io(IoError),
    /// Error of `hyper`, and the target it happened on.
    Hyper(hyper::Error, String),
    /// Error of the ProSA bus.
    InternalBus(BusError),
    /// Any other error.
    Other(String),
}

impl HyperProcError {
    /// Whether the processor can be started again after this error.
    pub open spec fn is_recoverable(self) -> bool {
        match self {
            HyperProcError::Io(error) => error.kind != IoErrorKind::Other,
            HyperProcError::Hyper(..) => true,
            HyperProcError::InternalBus(error) => error is InternalMainQueue,
            HyperProcError::Other(_) => true,
        }
    }

    /// Whether the processor can be started again after this error.
    pub fn recoverable(&self) -> (r: bool)
        ensures
            r == self.is_recoverable(),
    {
        match self {
            HyperProcError::Io(error) => error.recoverable(),
            HyperProcError::Hyper(..) => true,
            HyperProcError::InternalBus(error) => error.recoverable(),
            HyperProcError::Other(_) => true,
        }
    }

    /// The error of a message that couldn't be sent to another processor, from what it says.
    pub fn from_send_error(error: &str) -> (r: HyperProcError)
        ensures
            r matches HyperProcError::InternalBus(BusError::InternalQueue(message)) && message@
                == "Failed to send message: "@ + error@,
    {
        HyperProcError::InternalBus(
            BusError::InternalQueue(join("Failed to send message: ", error)),
        )
    }
}

impl From<IoError> for HyperProcError {
    fn from(error: IoError) -> (r: Self) {
        HyperProcError::Io(error)
    }
}

impl vstd::std_specs::convert::FromSpecImpl<IoError> for HyperProcError {
    open spec fn obeys_from_spec() -> bool {
        true
    }

    open spec fn from_spec(error: IoError) -> Self {
        HyperProcError::Io(error)
    }
}

impl From<BusError> for HyperProcError {
    fn from(error: BusError) -> (r: Self) {
        HyperProcError::InternalBus(error)
    }
}

impl vstd::std_specs::convert::FromSpecImpl<BusError> for HyperProcError {
    open spec fn obeys_from_spec() -> bool {
        true
    }

    open spec fn from_spec(error: BusError) -> Self {
        HyperProcError::InternalBus(error)
    }
}

/// What goes wrong with an HTTP message.
#[derive(Debug)]
pub enum HttpError {
    /// Error of `hyper`.
    Hyper(hyper::Error),
    /// Error of `http`.
    Http(http::Error),
}

impl From<hyper::Error> for HttpError {
    fn from(error: hyper::Error) -> (r: Self) {
        HttpError::Hyper(error)
    }
}

impl vstd::std_specs::convert::FromSpecImpl<hyper::Error> for HttpError {
    open spec fn obeys_from_spec() -> bool {
        true
    }

    open spec fn from_spec(error: hyper::Error) -> Self {
        HttpError::Hyper(error)
    }
}

impl From<http::Error> for HttpError {
    fn from(error: http::Error) -> (r: Self) {
        HttpError::Http(error)
    }
}

impl vstd::std_specs::convert::FromSpecImpl<http::Error> for HttpError {
    open spec fn obeys_from_spec() -> bool {
        true
    }

    open spec fn from_spec(error: http::Error) -> Self {
        HttpError::Http(error)
    }
}

/// A processor can be started again after any error but an unknown one of input or output, and one of
/// the bus that is not about the main task.
pub proof fn law_recoverable_errors(error: HyperProcError)
    ensures
        match error {
            HyperProcError::Io(error) => HyperProcError::Io(error).is_recoverable() <==> !(
            error.kind is Other),
            HyperProcError::Hyper(..) => error.is_recoverable(),
            HyperProcError::InternalBus(bus) => error.is_recoverable() <==> bus is InternalMainQueue,
            HyperProcError::Other(_) => error.is_recoverable(),
        },
{
}

/// An error is carried as it is, under what made it.
pub proof fn law_errors_keep_their_source(
    io: IoError,
    bus: BusError,
    hyper: hyper::Error,
    http: http::Error,
)
    ensures
        <HyperProcError as FromSpec<IoError>>::from_spec(io) == HyperProcError::Io(io),
        <HyperProcError as FromSpec<BusError>>::from_spec(bus) == HyperProcError::InternalBus(bus),
        <HttpError as FromSpec<hyper::Error>>::from_spec(hyper) == HttpError::Hyper(hyper),
        <HttpError as FromSpec<http::Error>>::from_spec(http) == HttpError::Http(http),
{
}

} // verus!
