//! The `AioError` type, the `AioResult` alias, and the rules that sort the
//! errors of the lower layers into one closed set of kinds.

use vstd::prelude::*;
use vstd::std_specs::convert::FromSpecImpl;
use vstd::string::StringExecFns;
use std::io::ErrorKind;
use nix::errno::Errno;

verus! {

/// The result type used throughout the crate.
pub type AioResult<T> = Result<T, AioError>;

/// The kind of an `AioError`.
#[derive(Copy, Clone, Debug, PartialEq, Eq, Hash, Structural)]
pub enum Kind {
    /// End of file or socket closed
    Eof,
    /// Inet socket address or domain socket path already in use
    AddressInUse,
    /// Permissions disallowed access to this file
    PermissionDenied,
    /// Network connection failed
    ConnectionFailed,
    /// Network connection failed because the connection was closed
    ConnectionClosed,
    /// The remote server refused the connection
    ConnectionRefused,
    /// The remote server reset the connection
    ConnectionReset,
    /// The remote server terminated the connection
    ConnectionAborted,
    /// Network operation failed because it wasn't connected
    NotConnected,
    /// The operation failed because a pipe was closed
    BrokenPipe,
    /// A file already exists at this location
    PathAlreadyExists,
    /// No file was found at this location
    PathDoesntExist,
    /// This file type does not support the operation
    MismatchedFileType,
    /// The operation failed non-terminally, and retrying may succeed
    TemporaryFailure,
    /// This thread doesn't support IO
    IoUnavailable,
    /// A parameter for this operation was set incorrectly
    InvalidInput,
    /// This operation was requested to be non-blocking but would block
    WouldBlock,
    /// Some other error, should be used sparingly
    Other,
}

/// The type used to indicate errors in IO operations.
///
/// It holds a static description of the error, meant for logging, and a tag
/// that tells the kind of the error. Control flow matches on `kind` only.
#[derive(Copy, Clone, Debug, PartialEq, Eq, Hash)]
pub struct AioError {
    /// A string description of the error meant for logging.
    pub desc: &'static str,
    /// The type of this error, meant for disambiguating the error.
    pub kind: Kind,
}

/// The kinds of a generic I/O error.
#[derive(Copy, Clone, Debug, PartialEq, Eq, Hash)]
pub enum IoErrorKind {
    OtherIoError,
    EndOfFile,
    FileNotFound,
    PermissionDenied,
    ConnectionFailed,
    Closed,
    ConnectionRefused,
    ConnectionReset,
    ConnectionAborted,
    NotConnected,
    BrokenPipe,
    PathAlreadyExists,
    PathDoesntExist,
    MismatchedFileTypeForOperation,
    ResourceUnavailable,
    IoUnavailable,
    InvalidInput,
    TimedOut,
    /// A write stopped after this many bytes.
    ShortWrite(usize),
    NoProgress,
}

/// A generic I/O error: its kind and a static description.
#[derive(Copy, Clone, Debug, PartialEq, Eq, Hash)]
pub struct IoError {
    pub kind: IoErrorKind,
    pub desc: &'static str,
}

/// The kinds of error that the event loop reports.
#[derive(Copy, Clone, Debug, PartialEq, Eq, Hash, Structural)]
pub enum ReactorErrorKind {
    /// End of file or socket closed
    Eof,
    /// The operation would have blocked
    WouldBlock,
    /// Inet socket address or domain socket path already in use
    AddrInUse,
    /// The buffer does not hold enough data for the read
    BufUnderflow,
    /// The buffer does not have the room for the write
    BufOverflow,
    /// The event loop is not running anymore
    EventLoopTerminated,
    /// A system error that no other kind covers
    OtherError,
}

/// An error of the event loop.
#[derive(Copy, Clone, Debug, PartialEq, Eq, Hash, Structural)]
pub struct ReactorError {
    pub kind: ReactorErrorKind,
}

/// The result of an operation that does not block: the value, or the news
/// that the operation would have blocked.
#[derive(Debug, PartialEq, Eq)]
pub enum NonBlock<T> {
    Ready(T),
    WouldBlock,
}

/// The error numbers of a failed system call that are told apart.
#[derive(Copy, Clone, Debug, PartialEq, Eq, Hash, Structural)]
pub enum SysError {
    /// `EAGAIN`: the call would have blocked.
    Again,
    /// `EADDRINUSE`: the address is taken.
    AddrInUse,
    /// Any other error number.
    Unrecognized,
}

/// The name of each kind, as it is written.
pub open spec fn kind_name(kind: Kind) -> &'static str {
    match kind {
        Kind::Eof => "Eof",
        Kind::AddressInUse => "AddressInUse",
        Kind::PermissionDenied => "PermissionDenied",
        Kind::ConnectionFailed => "ConnectionFailed",
        Kind::ConnectionClosed => "ConnectionClosed",
        Kind::ConnectionRefused => "ConnectionRefused",
        Kind::ConnectionReset => "ConnectionReset",
        Kind::ConnectionAborted => "ConnectionAborted",
        Kind::NotConnected => "NotConnected",
        Kind::BrokenPipe => "BrokenPipe",
        Kind::PathAlreadyExists => "PathAlreadyExists",
        Kind::PathDoesntExist => "PathDoesntExist",
        Kind::MismatchedFileType => "MismatchedFileType",
        Kind::TemporaryFailure => "TemporaryFailure",
        Kind::IoUnavailable => "IoUnavailable",
        Kind::InvalidInput => "InvalidInput",
        Kind::WouldBlock => "WouldBlock",
        Kind::Other => "Other",
    }
}

/// The canonical description of each kind.
pub open spec fn canonical_desc(kind: Kind) -> &'static str {
    match kind {
        Kind::Eof => "end of file",
        Kind::AddressInUse => "address in use",
        Kind::PermissionDenied => "permission denied",
        Kind::ConnectionFailed => "connection failed",
        Kind::ConnectionClosed => "connection closed",
        Kind::ConnectionRefused => "connection refused",
        Kind::ConnectionReset => "connection reset",
        Kind::ConnectionAborted => "connection aborted",
        Kind::NotConnected => "not connected",
        Kind::BrokenPipe => "broken pipe",
        Kind::PathAlreadyExists => "path already exists",
        Kind::PathDoesntExist => "path doesn't exist",
        Kind::MismatchedFileType => "mismatched file type for operation",
        Kind::TemporaryFailure => "temporary failure (resource unavailable)",
        Kind::IoUnavailable => "io unvailable on this thread",
        Kind::InvalidInput => "invalid input for this operation",
        Kind::WouldBlock => "operation would block",
        Kind::Other => "unknown I/O error",
    }
}

/// The kind that a generic I/O error of the given kind is sorted under.
pub open spec fn kind_of_io(kind: IoErrorKind) -> Kind {
    match kind {
        IoErrorKind::OtherIoError => Kind::Other,
        IoErrorKind::ShortWrite(_) => Kind::Other,
        IoErrorKind::TimedOut => Kind::Other,
        IoErrorKind::NoProgress => Kind::Other,
        IoErrorKind::EndOfFile => Kind::Eof,
        IoErrorKind::FileNotFound => Kind::PathDoesntExist,
        IoErrorKind::PathDoesntExist => Kind::PathDoesntExist,
        IoErrorKind::PermissionDenied => Kind::PermissionDenied,
        IoErrorKind::ConnectionFailed => Kind::ConnectionFailed,
        IoErrorKind::Closed => Kind::ConnectionClosed,
        IoErrorKind::ConnectionRefused => Kind::ConnectionRefused,
        IoErrorKind::ConnectionReset => Kind::ConnectionReset,
        IoErrorKind::ConnectionAborted => Kind::ConnectionAborted,
        IoErrorKind::NotConnected => Kind::NotConnected,
        IoErrorKind::BrokenPipe => Kind::BrokenPipe,
        IoErrorKind::PathAlreadyExists => Kind::PathAlreadyExists,
        IoErrorKind::MismatchedFileTypeForOperation => Kind::MismatchedFileType,
        IoErrorKind::ResourceUnavailable => Kind::TemporaryFailure,
        IoErrorKind::IoUnavailable => Kind::IoUnavailable,
        IoErrorKind::InvalidInput => Kind::InvalidInput,
    }
}

/// The description that a generic I/O error carries when nothing more
/// specific is known than its kind.
pub open spec fn standard_io_desc(kind: IoErrorKind) -> &'static str {
    match kind {
        IoErrorKind::OtherIoError => "unknown I/O error",
        IoErrorKind::EndOfFile => "end of file",
        IoErrorKind::FileNotFound => "file not found",
        IoErrorKind::PermissionDenied => "permission denied",
        IoErrorKind::ConnectionFailed => "connection failed",
        IoErrorKind::Closed => "stream is closed",
        IoErrorKind::ConnectionRefused => "connection refused",
        IoErrorKind::ConnectionReset => "connection reset",
        IoErrorKind::ConnectionAborted => "connection aborted",
        IoErrorKind::NotConnected => "not connected",
        IoErrorKind::BrokenPipe => "broken pipe",
        IoErrorKind::PathAlreadyExists => "file already exists",
        IoErrorKind::PathDoesntExist => "no such file",
        IoErrorKind::MismatchedFileTypeForOperation => "mismatched file type",
        IoErrorKind::ResourceUnavailable => "resource unavailable",
        IoErrorKind::IoUnavailable => "I/O is unavailable",
        IoErrorKind::InvalidInput => "invalid input",
        IoErrorKind::TimedOut => "operation timed out",
        IoErrorKind::ShortWrite(_) => "short write",
        IoErrorKind::NoProgress => "no progress",
    }
}

/// The error that an error of the event loop is sorted under.
pub open spec fn of_reactor(kind: ReactorErrorKind) -> AioError {
    match kind {
        ReactorErrorKind::Eof => AioError::spec_from_kind(Kind::Eof),
        ReactorErrorKind::WouldBlock => AioError::spec_from_kind(Kind::WouldBlock),
        ReactorErrorKind::AddrInUse => AioError::spec_from_kind(Kind::AddressInUse),
        ReactorErrorKind::BufUnderflow => AioError {
            desc: "wrote or read too little",
            kind: Kind::Other,
        },
        ReactorErrorKind::BufOverflow => AioError {
            desc: "wrote or read too much",
            kind: Kind::Other,
        },
        ReactorErrorKind::EventLoopTerminated => AioError {
            desc: "event loop terminated",
            kind: Kind::Other,
        },
        ReactorErrorKind::OtherError => AioError::spec_from_kind(Kind::Other),
    }
}

/// The kind under which the event loop reports a failed system call.
pub open spec fn reactor_kind_of_sys(sys: SysError) -> ReactorErrorKind {
    match sys {
        SysError::Again => ReactorErrorKind::WouldBlock,
        SysError::AddrInUse => ReactorErrorKind::AddrInUse,
        SysError::Unrecognized => ReactorErrorKind::OtherError,
    }
}

/// Whether a kind is one of the two signals that the pump consumes itself
/// (`Eof` ends a side cleanly, `WouldBlock` suspends it) rather than a
/// failure that ends the transfer.
pub open spec fn is_signal(kind: Kind) -> bool {
    kind == Kind::Eof || kind == Kind::WouldBlock
}

impl Kind {
    /// The name of the kind, as it is written.
    pub fn name(self) -> (name: &'static str)
        ensures
            name == kind_name(self),
    {
        match self {
            Kind::Eof => "Eof",
            Kind::AddressInUse => "AddressInUse",
            Kind::PermissionDenied => "PermissionDenied",
            Kind::ConnectionFailed => "ConnectionFailed",
            Kind::ConnectionClosed => "ConnectionClosed",
            Kind::ConnectionRefused => "ConnectionRefused",
            Kind::ConnectionReset => "ConnectionReset",
            Kind::ConnectionAborted => "ConnectionAborted",
            Kind::NotConnected => "NotConnected",
            Kind::BrokenPipe => "BrokenPipe",
            Kind::PathAlreadyExists => "PathAlreadyExists",
            Kind::PathDoesntExist => "PathDoesntExist",
            Kind::MismatchedFileType => "MismatchedFileType",
            Kind::TemporaryFailure => "TemporaryFailure",
            Kind::IoUnavailable => "IoUnavailable",
            Kind::InvalidInput => "InvalidInput",
            Kind::WouldBlock => "WouldBlock",
            Kind::Other => "Other",
        }
    }

    /// Tells the two protocol signals from the terminal failures.
    pub fn is_signal(self) -> (b: bool)
        ensures
            b == is_signal(self),
    {
        match self {
            Kind::Eof => true,
            Kind::WouldBlock => true,
            _ => false,
        }
    }
}

impl AioError {
    pub open spec fn spec_from_kind(kind: Kind) -> AioError {
        AioError { desc: canonical_desc(kind), kind: kind }
    }

    /// What a generic I/O error is sorted as: the description is kept.
    pub open spec fn classify_io(io: IoError) -> AioError {
        AioError { desc: io.desc, kind: kind_of_io(io.kind) }
    }

    /// What an error of the event loop is sorted as.
    pub open spec fn classify_reactor(err: ReactorError) -> AioError {
        of_reactor(err.kind)
    }

    /// What a failed system call is sorted as: as the event loop's error
    /// for it.
    pub open spec fn classify_sys(sys: SysError) -> AioError {
        of_reactor(reactor_kind_of_sys(sys))
    }

    /// Create a new AioError from the constituent parts.
    pub fn new(desc: &'static str, kind: Kind) -> (err: AioError)
        ensures
            err == (AioError { desc: desc, kind: kind }),
    {
        AioError { desc: desc, kind: kind }
    }

    /// Create a new AioError with the canonical error description.
    pub fn from_kind(kind: Kind) -> (err: AioError)
        ensures
            err == AioError::spec_from_kind(kind),
            err.kind == kind,
    {
        AioError {
            kind: kind,
            desc: match kind {
                Kind::Eof => "end of file",
                Kind::AddressInUse => "address in use",
                Kind::PermissionDenied => "permission denied",
                Kind::ConnectionFailed => "connection failed",
                Kind::ConnectionClosed => "connection closed",
                Kind::ConnectionRefused => "connection refused",
                Kind::ConnectionReset => "connection reset",
                Kind::ConnectionAborted => "connection aborted",
                Kind::NotConnected => "not connected",
                Kind::BrokenPipe => "broken pipe",
                Kind::PathAlreadyExists => "path already exists",
                Kind::PathDoesntExist => "path doesn't exist",
                Kind::MismatchedFileType => "mismatched file type for operation",
                Kind::TemporaryFailure => "temporary failure (resource unavailable)",
                Kind::IoUnavailable => "io unvailable on this thread",
                Kind::InvalidInput => "invalid input for this operation",
                Kind::WouldBlock => "operation would block",
                Kind::Other => "unknown I/O error",
            },
        }
    }

    /// What the result of a non-blocking operation of the event loop is
    /// sorted as: a value stays a value, "would block" is the error of kind
    /// `WouldBlock`, and an error of the event loop is sorted as such.
    pub open spec fn spec_from_nonblock<T>(res: Result<NonBlock<T>, ReactorError>) -> AioResult<
        T,
    > {
        match res {
            Ok(NonBlock::Ready(value)) => Ok(value),
            Ok(NonBlock::WouldBlock) => Err(AioError::spec_from_kind(Kind::WouldBlock)),
            Err(err) => Err(AioError::classify_reactor(err)),
        }
    }

    /// Sorts the result of a non-blocking operation of the event loop.
    pub fn from_nonblock<T>(res: Result<NonBlock<T>, ReactorError>) -> (out: AioResult<T>)
        ensures
            out == AioError::spec_from_nonblock(res),
    {
        match res {
            Ok(NonBlock::Ready(value)) => Ok(value),
            Ok(NonBlock::WouldBlock) => Err(AioError::from_kind(Kind::WouldBlock)),
            Err(err) => Err(AioError::from(err)),
        }
    }

    /// Create an AioError from a system errno.
    ///
    /// The number is decoded as the standard library decodes it; what it
    /// decodes to depends on the platform, so the result is stated for
    /// whichever kind of generic I/O error the decoding gave. A number too
    /// large for an error code is an unknown error.
    pub fn from_errno(errno: usize) -> (err: AioError)
        ensures
            exists|kind: IoErrorKind| err == AioError::classify_io(IoError::spec_standard(kind)),
            errno > i32::MAX ==> err == AioError::classify_io(
                IoError::spec_standard(IoErrorKind::OtherIoError),
            ),
    {
        let kind = if errno > i32::MAX as usize {
            IoErrorKind::OtherIoError
        } else {
            decode_os_error(errno as i32)
        };
        AioError::from(IoError::standard(kind))
    }

    /// Get the AioError best representing the latest errno.
    ///
    /// This observes state that any later system call overwrites: call it
    /// right after the operation that failed.
    pub fn latest() -> (err: AioError)
        ensures
            exists|kind: IoErrorKind| err == AioError::classify_io(IoError::spec_standard(kind)),
    {
        let errno = last_os_errno();
        if errno < 0 {
            AioError::from(IoError::standard(IoErrorKind::OtherIoError))
        } else {
            AioError::from_errno(errno as usize)
        }
    }

    /// The error as a line of text: the name of the kind, a colon and a
    /// space, and the description.
    pub fn describe(&self) -> (text: String)
        ensures
            text@ == kind_name(self.kind)@ + ": "@ + self.desc@,
    {
        String::from_str(self.kind.name()).concat(": ").concat(self.desc)
    }

    /// The static description, as the error reports it.
    pub fn description(&self) -> (desc: &'static str)
        ensures
            desc == self.desc,
    {
        self.desc
    }
}

impl IoError {
    pub open spec fn spec_standard(kind: IoErrorKind) -> IoError {
        IoError { kind: kind, desc: standard_io_desc(kind) }
    }

    /// The generic I/O error of a kind, with the standard description.
    pub fn standard(kind: IoErrorKind) -> (err: IoError)
        ensures
            err == IoError::spec_standard(kind),
    {
        IoError {
            kind: kind,
            desc: match kind {
                IoErrorKind::OtherIoError => "unknown I/O error",
                IoErrorKind::EndOfFile => "end of file",
                IoErrorKind::FileNotFound => "file not found",
                IoErrorKind::PermissionDenied => "permission denied",
                IoErrorKind::ConnectionFailed => "connection failed",
                IoErrorKind::Closed => "stream is closed",
                IoErrorKind::ConnectionRefused => "connection refused",
                IoErrorKind::ConnectionReset => "connection reset",
                IoErrorKind::ConnectionAborted => "connection aborted",
                IoErrorKind::NotConnected => "not connected",
                IoErrorKind::BrokenPipe => "broken pipe",
                IoErrorKind::PathAlreadyExists => "file already exists",
                IoErrorKind::PathDoesntExist => "no such file",
                IoErrorKind::MismatchedFileTypeForOperation => "mismatched file type",
                IoErrorKind::ResourceUnavailable => "resource unavailable",
                IoErrorKind::IoUnavailable => "I/O is unavailable",
                IoErrorKind::InvalidInput => "invalid input",
                IoErrorKind::TimedOut => "operation timed out",
                IoErrorKind::ShortWrite(_) => "short write",
                IoErrorKind::NoProgress => "no progress",
            },
        }
    }
}

impl ReactorError {
    /// The event loop's error for a failed system call.
    pub fn from_sys_error(sys: SysError) -> (err: ReactorError)
        ensures
            err.kind == reactor_kind_of_sys(sys),
    {
        let kind = match sys {
            SysError::Again => ReactorErrorKind::WouldBlock,
            SysError::AddrInUse => ReactorErrorKind::AddrInUse,
            SysError::Unrecognized => ReactorErrorKind::OtherError,
        };
        ReactorError { kind: kind }
    }
}

impl From<IoError> for AioError {
    /// Sorts a generic I/O error: the description is kept, the kind is
    /// `kind_of_io` of its kind.
    fn from(io: IoError) -> (err: AioError) {
        AioError {
            desc: io.desc,
            kind: match io.kind {
                IoErrorKind::OtherIoError => Kind::Other,
                IoErrorKind::ShortWrite(_) => Kind::Other,
                IoErrorKind::TimedOut => Kind::Other,
                IoErrorKind::NoProgress => Kind::Other,
                IoErrorKind::EndOfFile => Kind::Eof,
                IoErrorKind::FileNotFound => Kind::PathDoesntExist,
                IoErrorKind::PathDoesntExist => Kind::PathDoesntExist,
                IoErrorKind::PermissionDenied => Kind::PermissionDenied,
                IoErrorKind::ConnectionFailed => Kind::ConnectionFailed,
                IoErrorKind::Closed => Kind::ConnectionClosed,
                IoErrorKind::ConnectionRefused => Kind::ConnectionRefused,
                IoErrorKind::ConnectionReset => Kind::ConnectionReset,
                IoErrorKind::ConnectionAborted => Kind::ConnectionAborted,
                IoErrorKind::NotConnected => Kind::NotConnected,
                IoErrorKind::BrokenPipe => Kind::BrokenPipe,
                IoErrorKind::PathAlreadyExists => Kind::PathAlreadyExists,
                IoErrorKind::MismatchedFileTypeForOperation => Kind::MismatchedFileType,
                IoErrorKind::ResourceUnavailable => Kind::TemporaryFailure,
                IoErrorKind::IoUnavailable => Kind::IoUnavailable,
                IoErrorKind::InvalidInput => Kind::InvalidInput,
            },
        }
    }
}

impl FromSpecImpl<IoError> for AioError {
    open spec fn obeys_from_spec() -> bool {
        true
    }

    open spec fn from_spec(io: IoError) -> AioError {
        AioError::classify_io(io)
    }
}

impl From<ReactorError> for AioError {
    /// Sorts an error of the event loop as `of_reactor` says.
    fn from(err: ReactorError) -> (out: AioError) {
        match err.kind {
            ReactorErrorKind::Eof => AioError::from_kind(Kind::Eof),
            ReactorErrorKind::WouldBlock => AioError::from_kind(Kind::WouldBlock),
            ReactorErrorKind::AddrInUse => AioError::from_kind(Kind::AddressInUse),
            ReactorErrorKind::BufUnderflow => AioError::new(
                "wrote or read too little",
                Kind::Other,
            ),
            ReactorErrorKind::BufOverflow => AioError::new("wrote or read too much", Kind::Other),
            ReactorErrorKind::EventLoopTerminated => AioError::new(
                "event loop terminated",
                Kind::Other,
            ),
            ReactorErrorKind::OtherError => AioError::from_kind(Kind::Other),
        }
    }
}

impl FromSpecImpl<ReactorError> for AioError {
    open spec fn obeys_from_spec() -> bool {
        true
    }

    open spec fn from_spec(err: ReactorError) -> AioError {
        AioError::classify_reactor(err)
    }
}

impl From<SysError> for AioError {
    /// Sorts a failed system call as the event loop would report it.
    fn from(sys: SysError) -> (out: AioError) {
        AioError::from(ReactorError::from_sys_error(sys))
    }
}

impl FromSpecImpl<SysError> for AioError {
    open spec fn obeys_from_spec() -> bool {
        true
    }

    open spec fn from_spec(sys: SysError) -> AioError {
        AioError::classify_sys(sys)
    }
}

/// Sorts an error number of a failed system call as the event loop would
/// report it: the number is told apart by `sys_error_of`, and the error is
/// the one that the `SysError` of its group converts to. Which group a
/// number falls in depends on the platform, so the result is stated for
/// whichever group it was.
pub fn from_errno_value(code: i32) -> (err: AioError)
    ensures
        exists|sys: SysError| err == AioError::classify_sys(sys),
        err.kind == Kind::WouldBlock || err.kind == Kind::AddressInUse || err.kind == Kind::Other,
        err == AioError::spec_from_kind(err.kind),
{
    AioError::from(sys_error_of(code))
}

/// What an error of the operating system is sorted as, from what is known of
/// it: whether it says "would block", the group of its error number if it
/// has one, and its generic kind. "Would block" is the signal of that kind
/// whatever else is known; then the error number decides, if it is one that
/// is told apart; and the generic kind decides what is left.
pub open spec fn spec_classify_os(
    would_block: bool,
    sys: Option<SysError>,
    kind: IoErrorKind,
) -> AioError {
    if would_block {
        AioError::spec_from_kind(Kind::WouldBlock)
    } else {
        match sys {
            Some(SysError::Again) => AioError::classify_sys(SysError::Again),
            Some(SysError::AddrInUse) => AioError::classify_sys(SysError::AddrInUse),
            _ => AioError::classify_io(IoError::spec_standard(kind)),
        }
    }
}

/// Sorts an error of the operating system from what is known of it; see
/// `spec_classify_os`.
pub fn classify_from(would_block: bool, sys: Option<SysError>, kind: IoErrorKind) -> (err:
    AioError)
    ensures
        err == spec_classify_os(would_block, sys, kind),
{
    if would_block {
        return AioError::from_kind(Kind::WouldBlock);
    }
    match sys {
        Some(SysError::Again) => AioError::from(SysError::Again),
        Some(SysError::AddrInUse) => AioError::from(SysError::AddrInUse),
        _ => AioError::from(IoError::standard(kind)),
    }
}

/// Sorts an error of the operating system that may carry an error number.
/// Which group the number falls in depends on the platform, so with a
/// number the result is stated for whichever group it was; without one, and
/// for "would block", it is exact.
pub fn classify_os(would_block: bool, code: Option<i32>, kind: IoErrorKind) -> (err: AioError)
    ensures
        would_block ==> err == AioError::spec_from_kind(Kind::WouldBlock),
        !would_block && code is None ==> err == AioError::classify_io(
            IoError::spec_standard(kind),
        ),
        exists|sys: Option<SysError>|
            (sys is Some <==> code is Some) && err == #[trigger] spec_classify_os(
                would_block,
                sys,
                kind,
            ),
{
    let sys = match code {
        Some(code) => Some(sys_error_of(code)),
        None => None,
    };
    classify_from(would_block, sys, kind)
}

/// `std::io::Error::from_raw_os_error(code).kind()`, each kind of the
/// standard library written as the generic kind it stands for. What a code
/// decodes to depends on the platform, so nothing is claimed of the result.
#[verifier::external_body]
fn decode_os_error(code: i32) -> IoErrorKind {
    match std::io::Error::from_raw_os_error(code).kind() {
        ErrorKind::NotFound => IoErrorKind::FileNotFound,
        ErrorKind::PermissionDenied => IoErrorKind::PermissionDenied,
        ErrorKind::ConnectionRefused => IoErrorKind::ConnectionRefused,
        ErrorKind::ConnectionReset => IoErrorKind::ConnectionReset,
        ErrorKind::ConnectionAborted => IoErrorKind::ConnectionAborted,
        ErrorKind::NotConnected => IoErrorKind::NotConnected,
        ErrorKind::BrokenPipe => IoErrorKind::BrokenPipe,
        ErrorKind::AlreadyExists => IoErrorKind::PathAlreadyExists,
        ErrorKind::WouldBlock => IoErrorKind::ResourceUnavailable,
        ErrorKind::InvalidInput => IoErrorKind::InvalidInput,
        ErrorKind::TimedOut => IoErrorKind::TimedOut,
        ErrorKind::UnexpectedEof => IoErrorKind::EndOfFile,
        _ => IoErrorKind::OtherIoError,
    }
}

/// `nix::errno::Errno::last_raw()`: the calling thread's current error
/// number. It is whatever the last failing system call left, so nothing is
/// claimed of it.
#[verifier::external_body]
fn last_os_errno() -> i32 {
    Errno::last_raw()
}

/// `nix::errno::Errno::from_raw`, and the variant told apart: `EAGAIN` and
/// `EADDRINUSE` each have a group of their own, every other number is
/// unrecognized. Which number is which depends on the platform, so nothing
/// is claimed of the result.
#[verifier::external_body]
fn sys_error_of(code: i32) -> SysError {
    match Errno::from_raw(code) {
        Errno::EAGAIN => SysError::Again,
        Errno::EADDRINUSE => SysError::AddrInUse,
        _ => SysError::Unrecognized,
    }
}

} // verus!
