use aio::error::{
    classify_from, classify_os, from_errno_value, AioError, AioResult, IoError, IoErrorKind, Kind,
    NonBlock, ReactorError, ReactorErrorKind, SysError,
};
use aio::sys::read_result;
use nix::errno::Errno;

const KINDS: [Kind; 18] = [
    Kind::Eof,
    Kind::AddressInUse,
    Kind::PermissionDenied,
    Kind::ConnectionFailed,
    Kind::ConnectionClosed,
    Kind::ConnectionRefused,
    Kind::ConnectionReset,
    Kind::ConnectionAborted,
    Kind::NotConnected,
    Kind::BrokenPipe,
    Kind::PathAlreadyExists,
    Kind::PathDoesntExist,
    Kind::MismatchedFileType,
    Kind::TemporaryFailure,
    Kind::IoUnavailable,
    Kind::InvalidInput,
    Kind::WouldBlock,
    Kind::Other,
];

#[test]
fn new_keeps_both_parts() {
    let err = AioError::new("out of luck", Kind::TemporaryFailure);
    assert_eq!(err.desc, "out of luck");
    assert_eq!(err.kind, Kind::TemporaryFailure);
    assert_eq!(err.description(), "out of luck");
}

#[test]
fn from_kind_gives_the_canonical_descriptions() {
    let expected = [
        "end of file",
        "address in use",
        "permission denied",
        "connection failed",
        "connection closed",
        "connection refused",
        "connection reset",
        "connection aborted",
        "not connected",
        "broken pipe",
        "path already exists",
        "path doesn't exist",
        "mismatched file type for operation",
        "temporary failure (resource unavailable)",
        "io unvailable on this thread",
        "invalid input for this operation",
        "operation would block",
        "unknown I/O error",
    ];
    for (kind, desc) in KINDS.iter().zip(expected.iter()) {
        let err = AioError::from_kind(*kind);
        assert_eq!(err.kind, *kind);
        assert_eq!(err.desc, *desc);
    }
}

#[test]
fn only_eof_and_would_block_are_signals() {
    for kind in KINDS.iter() {
        let expected = *kind == Kind::Eof || *kind == Kind::WouldBlock;
        assert_eq!(kind.is_signal(), expected);
    }
}

#[test]
fn describe_is_kind_colon_description() {
    assert_eq!(AioError::from_kind(Kind::BrokenPipe).describe(), "BrokenPipe: broken pipe");
    assert_eq!(AioError::new("x", Kind::Other).describe(), "Other: x");
    for kind in KINDS.iter() {
        assert_eq!(kind.name(), format!("{:?}", kind));
    }
}

#[test]
fn generic_io_errors_are_sorted_by_kind_and_keep_their_description() {
    let cases = [
        (IoErrorKind::OtherIoError, Kind::Other),
        (IoErrorKind::ShortWrite(7), Kind::Other),
        (IoErrorKind::TimedOut, Kind::Other),
        (IoErrorKind::NoProgress, Kind::Other),
        (IoErrorKind::EndOfFile, Kind::Eof),
        (IoErrorKind::FileNotFound, Kind::PathDoesntExist),
        (IoErrorKind::PathDoesntExist, Kind::PathDoesntExist),
        (IoErrorKind::PermissionDenied, Kind::PermissionDenied),
        (IoErrorKind::ConnectionFailed, Kind::ConnectionFailed),
        (IoErrorKind::Closed, Kind::ConnectionClosed),
        (IoErrorKind::ConnectionRefused, Kind::ConnectionRefused),
        (IoErrorKind::ConnectionReset, Kind::ConnectionReset),
        (IoErrorKind::ConnectionAborted, Kind::ConnectionAborted),
        (IoErrorKind::NotConnected, Kind::NotConnected),
        (IoErrorKind::BrokenPipe, Kind::BrokenPipe),
        (IoErrorKind::PathAlreadyExists, Kind::PathAlreadyExists),
        (IoErrorKind::MismatchedFileTypeForOperation, Kind::MismatchedFileType),
        (IoErrorKind::ResourceUnavailable, Kind::TemporaryFailure),
        (IoErrorKind::IoUnavailable, Kind::IoUnavailable),
        (IoErrorKind::InvalidInput, Kind::InvalidInput),
    ];
    for (from, to) in cases.iter() {
        let err = AioError::from(IoError { kind: *from, desc: "as it came" });
        assert_eq!(err.kind, *to);
        assert_eq!(err.desc, "as it came");
    }
}

#[test]
fn standard_io_errors_carry_the_standard_description() {
    assert_eq!(IoError::standard(IoErrorKind::EndOfFile).desc, "end of file");
    assert_eq!(IoError::standard(IoErrorKind::OtherIoError).desc, "unknown I/O error");
    assert_eq!(IoError::standard(IoErrorKind::ShortWrite(3)).desc, "short write");
    assert_eq!(IoError::standard(IoErrorKind::ShortWrite(3)).kind, IoErrorKind::ShortWrite(3));
    assert_eq!(IoError::standard(IoErrorKind::Closed).desc, "stream is closed");
}

#[test]
fn event_loop_errors_are_sorted() {
    let of = |kind| AioError::from(ReactorError { kind });
    assert_eq!(of(ReactorErrorKind::Eof), AioError::from_kind(Kind::Eof));
    assert_eq!(of(ReactorErrorKind::WouldBlock), AioError::from_kind(Kind::WouldBlock));
    assert_eq!(of(ReactorErrorKind::AddrInUse), AioError::from_kind(Kind::AddressInUse));
    assert_eq!(
        of(ReactorErrorKind::BufUnderflow),
        AioError::new("wrote or read too little", Kind::Other)
    );
    assert_eq!(
        of(ReactorErrorKind::BufOverflow),
        AioError::new("wrote or read too much", Kind::Other)
    );
    assert_eq!(
        of(ReactorErrorKind::EventLoopTerminated),
        AioError::new("event loop terminated", Kind::Other)
    );
    assert_eq!(of(ReactorErrorKind::OtherError), AioError::from_kind(Kind::Other));
}

#[test]
fn failed_system_calls_are_sorted_as_the_event_loop_reports_them() {
    assert_eq!(ReactorError::from_sys_error(SysError::Again).kind, ReactorErrorKind::WouldBlock);
    assert_eq!(
        ReactorError::from_sys_error(SysError::AddrInUse).kind,
        ReactorErrorKind::AddrInUse
    );
    assert_eq!(
        ReactorError::from_sys_error(SysError::Unrecognized).kind,
        ReactorErrorKind::OtherError
    );
    assert_eq!(AioError::from(SysError::Again), AioError::from_kind(Kind::WouldBlock));
    assert_eq!(AioError::from(SysError::AddrInUse), AioError::from_kind(Kind::AddressInUse));
    assert_eq!(AioError::from(SysError::Unrecognized), AioError::from_kind(Kind::Other));
}

#[test]
fn error_numbers_are_told_apart() {
    assert_eq!(from_errno_value(Errno::EAGAIN as i32), AioError::from_kind(Kind::WouldBlock));
    assert_eq!(from_errno_value(Errno::EADDRINUSE as i32), AioError::from_kind(Kind::AddressInUse));
    assert_eq!(from_errno_value(Errno::ECONNRESET as i32), AioError::from_kind(Kind::Other));
    assert_eq!(from_errno_value(Errno::EPIPE as i32), AioError::from_kind(Kind::Other));
    assert_eq!(from_errno_value(0), AioError::from_kind(Kind::Other));
    assert_eq!(from_errno_value(-7), AioError::from_kind(Kind::Other));
}

#[test]
fn from_errno_decodes_as_the_standard_library_does() {
    let not_found = AioError::from_errno(Errno::ENOENT as usize);
    assert_eq!(not_found.kind, Kind::PathDoesntExist);
    assert_eq!(not_found.desc, "file not found");
    assert_eq!(AioError::from_errno(Errno::EPIPE as usize).kind, Kind::BrokenPipe);
    assert_eq!(AioError::from_errno(Errno::ECONNREFUSED as usize).kind, Kind::ConnectionRefused);
    assert_eq!(AioError::from_errno(Errno::ECONNRESET as usize).kind, Kind::ConnectionReset);
    assert_eq!(AioError::from_errno(Errno::EACCES as usize).kind, Kind::PermissionDenied);
    assert_eq!(AioError::from_errno(Errno::EEXIST as usize).kind, Kind::PathAlreadyExists);
    assert_eq!(AioError::from_errno(Errno::EINVAL as usize).kind, Kind::InvalidInput);
    assert_eq!(AioError::from_errno(Errno::EAGAIN as usize).kind, Kind::TemporaryFailure);
    assert_eq!(AioError::from_errno(Errno::ETIMEDOUT as usize).kind, Kind::Other);
}

#[test]
fn from_errno_of_an_unknown_number_is_other() {
    let unknown = AioError::from_errno(usize::MAX);
    assert_eq!(unknown.kind, Kind::Other);
    assert_eq!(unknown.desc, "unknown I/O error");
    assert_eq!(AioError::from_errno(0).kind, Kind::Other);
}

#[test]
fn latest_reads_the_error_number_of_the_thread() {
    Errno::EPIPE.set();
    assert_eq!(AioError::latest().kind, Kind::BrokenPipe);
    Errno::ENOENT.set();
    let err = AioError::latest();
    assert_eq!(err, AioError::new("file not found", Kind::PathDoesntExist));
}

#[test]
fn from_nonblock_keeps_values_and_names_the_block() {
    let ready: AioResult<u32> = AioError::from_nonblock(Ok(NonBlock::Ready(5)));
    assert_eq!(ready, Ok(5));
    let block: AioResult<u32> = AioError::from_nonblock(Ok(NonBlock::WouldBlock));
    assert_eq!(block, Err(AioError::from_kind(Kind::WouldBlock)));
    let failed: AioResult<u32> =
        AioError::from_nonblock(Err(ReactorError { kind: ReactorErrorKind::AddrInUse }));
    assert_eq!(failed, Err(AioError::from_kind(Kind::AddressInUse)));
    let eof: AioResult<u32> =
        AioError::from_nonblock(Err(ReactorError { kind: ReactorErrorKind::Eof }));
    assert_eq!(eof.unwrap_err().kind, Kind::Eof);
}

#[test]
fn would_block_comes_before_the_error_number_and_the_number_before_the_kind() {
    let block = AioError::from_kind(Kind::WouldBlock);
    assert_eq!(classify_from(true, Some(SysError::AddrInUse), IoErrorKind::BrokenPipe), block);
    assert_eq!(classify_from(true, None, IoErrorKind::OtherIoError), block);
    assert_eq!(
        classify_from(false, Some(SysError::AddrInUse), IoErrorKind::ConnectionRefused),
        AioError::from_kind(Kind::AddressInUse)
    );
    assert_eq!(classify_from(false, Some(SysError::Again), IoErrorKind::BrokenPipe), block);
    assert_eq!(
        classify_from(false, Some(SysError::Unrecognized), IoErrorKind::BrokenPipe),
        AioError::new("broken pipe", Kind::BrokenPipe)
    );
    assert_eq!(
        classify_from(false, None, IoErrorKind::EndOfFile),
        AioError::new("end of file", Kind::Eof)
    );
}

#[test]
fn errors_of_the_operating_system_are_sorted_by_what_is_known_of_them() {
    let reset = Errno::ECONNRESET as i32;
    assert_eq!(
        classify_os(false, Some(reset), IoErrorKind::ConnectionReset),
        AioError::new("connection reset", Kind::ConnectionReset)
    );
    assert_eq!(
        classify_os(false, Some(Errno::EADDRINUSE as i32), IoErrorKind::OtherIoError),
        AioError::from_kind(Kind::AddressInUse)
    );
    assert_eq!(
        classify_os(false, Some(Errno::EAGAIN as i32), IoErrorKind::OtherIoError).kind,
        Kind::WouldBlock
    );
    assert_eq!(
        classify_os(true, Some(reset), IoErrorKind::ConnectionReset),
        AioError::from_kind(Kind::WouldBlock)
    );
    assert_eq!(
        classify_os(false, None, IoErrorKind::InvalidInput),
        AioError::new("invalid input", Kind::InvalidInput)
    );
}

#[test]
fn a_read_of_no_bytes_into_a_region_with_room_is_the_end() {
    assert_eq!(read_result(Ok(0), 4), Err(AioError::from_kind(Kind::Eof)));
    assert_eq!(read_result(Ok(0), 0), Ok(0));
    assert_eq!(read_result(Ok(3), 4), Ok(3));
    let block = AioError::from_kind(Kind::WouldBlock);
    assert_eq!(read_result(Err(block), 4), Err(block));
}
