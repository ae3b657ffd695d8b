use std::io::SeekFrom;

use process_vm_io::cursor::probe_error;
use process_vm_io::{ErrorKind, IoError, IoOperation, ProcessVirtualMemoryIO};

fn cursor_at(address: u64) -> ProcessVirtualMemoryIO {
    ProcessVirtualMemoryIO::new(4242, address, Ok(())).unwrap()
}

#[test]
fn new_invalid_process_id() {
    assert!(matches!(
        ProcessVirtualMemoryIO::new(1, 0, Err(libc::EPERM)).unwrap_err().kind(),
        ErrorKind::Io { error: IoError::PermissionDenied, process_id: Some(1), .. }
    ));

    for pid in -2_i32..=0_i32 {
        assert!(matches!(
            ProcessVirtualMemoryIO::new(pid as u32, 0, Ok(())).unwrap_err().kind(),
            ErrorKind::Io { error: IoError::InvalidInput, .. }
        ));
    }
}

#[test]
fn non_positive_process_id_is_refused_before_probing() {
    for pid in [0_u32, u32::MAX, 0x8000_0000] {
        let err = ProcessVirtualMemoryIO::checked_process_id(pid).unwrap_err();
        assert_eq!(
            *err.kind(),
            ErrorKind::Io {
                operation: IoOperation::New,
                error: IoError::InvalidInput,
                process_id: Some(pid as i32),
            }
        );
        let err = ProcessVirtualMemoryIO::new(pid, 7, Err(libc::ESRCH)).unwrap_err();
        assert_eq!(
            *err.kind(),
            ErrorKind::Io {
                operation: IoOperation::New,
                error: IoError::InvalidInput,
                process_id: Some(pid as i32),
            }
        );
    }
    assert_eq!(ProcessVirtualMemoryIO::checked_process_id(1).unwrap(), 1);
    assert_eq!(
        ProcessVirtualMemoryIO::checked_process_id(0x7fff_ffff).unwrap(),
        i32::MAX
    );
}

#[test]
fn probe_failures_are_classified() {
    let err = ProcessVirtualMemoryIO::new(999_999, 0, Err(libc::ESRCH)).unwrap_err();
    assert_eq!(
        *err.kind(),
        ErrorKind::Io {
            operation: IoOperation::Kill,
            error: IoError::NotFound,
            process_id: Some(999_999),
        }
    );
    assert_eq!(err.os_error_code(), None);
    assert_eq!(probe_error(libc::ESRCH), IoError::NotFound);
    assert_eq!(probe_error(libc::EINVAL), IoError::InvalidInput);
    assert_eq!(probe_error(libc::EPERM), IoError::PermissionDenied);
    assert_eq!(probe_error(libc::EIO), IoError::Os(libc::EIO));
}

#[test]
fn new_cursor_starts_at_initial_address() {
    let io = ProcessVirtualMemoryIO::new(4242, 0x1000, Ok(())).unwrap();
    assert_eq!(io.process_id(), 4242);
    assert_eq!(io.stream_position(), 0x1000);
    let io = ProcessVirtualMemoryIO::new(4242, u64::MAX, Ok(())).unwrap();
    assert_eq!(io.stream_position(), u64::MAX);
}

#[test]
fn seek_below_zero_is_invalid_input() {
    let mut io = cursor_at(0x1234);
    assert_eq!(io.seek(SeekFrom::Start(0)).unwrap(), 0);
    let err = io.seek(SeekFrom::Current(-1)).unwrap_err();
    assert_eq!(
        *err.kind(),
        ErrorKind::Io {
            operation: IoOperation::Seek,
            error: IoError::InvalidInput,
            process_id: Some(4242),
        }
    );
    assert_eq!(io.stream_position(), 0);
}

#[test]
fn seek_from_end_forward_is_past_end() {
    for start in [0, 0x1234, u64::MAX] {
        let mut io = cursor_at(start);
        assert_eq!(io.seek(SeekFrom::End(5)).unwrap(), u64::MAX);
        assert!(io.prepare_io_vectored(16, 4096, 1024).is_none());
        assert_eq!(io.seek(SeekFrom::End(5)).unwrap(), u64::MAX);
    }
}

#[test]
fn seek_table() {
    let mut io = cursor_at(100);
    assert_eq!(io.seek(SeekFrom::Current(20)).unwrap(), 120);
    assert_eq!(io.seek(SeekFrom::Current(-120)).unwrap(), 0);
    assert_eq!(io.seek(SeekFrom::Start(u64::MAX - 1)).unwrap(), u64::MAX - 1);
    assert_eq!(io.seek(SeekFrom::Current(1)).unwrap(), u64::MAX);
    assert!(io.prepare_io_vectored(1, 4096, 1024).is_some());
    // Crossing the top of the address space puts the cursor past the end.
    assert_eq!(io.seek(SeekFrom::Current(1)).unwrap(), u64::MAX);
    assert!(io.prepare_io_vectored(1, 4096, 1024).is_none());
    // Past the end, forward seeks stay there and backward ones count from the top.
    assert_eq!(io.seek(SeekFrom::Current(0)).unwrap(), u64::MAX);
    assert_eq!(io.seek(SeekFrom::Current(-16)).unwrap(), u64::MAX - 15);
    assert_eq!(io.seek(SeekFrom::End(-1)).unwrap(), u64::MAX);
    assert!(io.prepare_io_vectored(1, 4096, 1024).is_some());
    assert_eq!(io.seek(SeekFrom::End(i64::MIN)).unwrap(), 1 << 63);
    assert_eq!(io.seek(SeekFrom::Start(5)).unwrap(), 5);
}

#[test]
fn zero_length_transfer_needs_no_system_call() {
    let io = cursor_at(0x1000);
    assert!(io.prepare_io_vectored(0, 4096, 1024).is_none());
}

#[test]
fn transfer_is_clamped_to_top_of_address_space() {
    let io = cursor_at(u64::MAX - 7);
    let (list, uncovered) = io.prepare_io_vectored(100, 4096, 1024).unwrap();
    assert_eq!(list.as_slice(), &[(u64::MAX - 7, 8)][..]);
    assert_eq!(uncovered, 0);

    let io = cursor_at(4088);
    let (list, uncovered) = io.prepare_io_vectored(32, 4096, 1024).unwrap();
    assert_eq!(list.as_slice(), &[(4088, 8), (4096, 24)][..]);
    assert_eq!(uncovered, 0);
}

#[test]
fn finished_transfer_moves_cursor() {
    let mut io = cursor_at(0x1000);
    assert_eq!(io.finish_io_vectored(IoOperation::ProcessVmReadv, Ok(16)).unwrap(), 16);
    assert_eq!(io.stream_position(), 0x1010);
    assert_eq!(io.finish_io_vectored(IoOperation::ProcessVmWritev, Ok(0)).unwrap(), 0);
    assert_eq!(io.stream_position(), 0x1010);

    let mut io = cursor_at(u64::MAX - 7);
    assert_eq!(io.finish_io_vectored(IoOperation::ProcessVmReadv, Ok(8)).unwrap(), 8);
    assert_eq!(io.stream_position(), u64::MAX);
    assert!(io.prepare_io_vectored(8, 4096, 1024).is_none());
}

#[test]
fn failed_transfer_reports_os_error() {
    let mut io = cursor_at(0);
    let err = io
        .finish_io_vectored(IoOperation::ProcessVmReadv, Err(libc::EFAULT))
        .unwrap_err();
    assert_eq!(
        *err.kind(),
        ErrorKind::Io {
            operation: IoOperation::ProcessVmReadv,
            error: IoError::Os(libc::EFAULT),
            process_id: Some(4242),
        }
    );
    assert_eq!(err.os_error_code(), Some(libc::EFAULT));
    assert_eq!(io.stream_position(), 0);
}

#[test]
fn write_then_read_leaves_cursor_after_bytes() {
    let a = 0x7000_0000_u64;
    let n = 4096 + 100;
    let mut io = cursor_at(a);
    assert!(io.prepare_io_vectored(n as u64, 4096, 1024).is_some());
    io.finish_io_vectored(IoOperation::ProcessVmWritev, Ok(n)).unwrap();
    assert_eq!(io.seek(SeekFrom::Start(a)).unwrap(), a);
    io.finish_io_vectored(IoOperation::ProcessVmReadv, Ok(n)).unwrap();
    assert_eq!(io.stream_position(), a + n as u64);
}

#[test]
fn operation_names() {
    assert_eq!(IoOperation::Kill.name(), "kill");
    assert_eq!(IoOperation::ProcessVmReadv.name(), "process_vm_readv");
    assert_eq!(IoOperation::ProcessVmWritev.name(), "process_vm_writev");
    assert_eq!(
        IoOperation::New.name(),
        "process_vm_io::ProcessVirtualMemoryIO::new"
    );
}
