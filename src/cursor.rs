//! The cursor over the address space of one target process.
use std::io::SeekFrom;
use vstd::prelude::*;

use crate::capabilities::is_power_of_two;
use crate::errors::{Error, ErrorKind, IoError, IoOperation};
use crate::iovec::{remote_io_vectors, RemoteIoVectors};
use crate::range::{page_aware_range, retry_outcome, total_length, PageAwareAddressRange};

verus! {

/// Declares `std::io::SeekFrom`, whose variants the cursor reads.
#[verifier::external_type_specification]
pub struct ExSeekFrom(SeekFrom);

/// Number of addresses in the address space.
pub open spec fn address_space_size() -> int {
    0x1_0000_0000_0000_0000
}

/// The cursor after seeking to `pos` from `address`, or `None` where the
/// seek is refused (it would move before address zero). A cursor of `None`
/// stands past the end of the address space.
pub open spec fn seek_target(address: Option<u64>, pos: SeekFrom) -> Option<Option<u64>> {
    match pos {
        SeekFrom::Start(n) => Some(Some(n)),
        SeekFrom::End(n) => if n >= 0 {
            Some(None)
        } else {
            Some(Some((address_space_size() + n) as u64))
        },
        SeekFrom::Current(n) => if n >= 0 {
            match address {
                None => Some(None),
                Some(a) => if a + n <= u64::MAX {
                    Some(Some((a + n) as u64))
                } else {
                    Some(None)
                },
            }
        } else {
            match address {
                None => Some(Some((address_space_size() + n) as u64)),
                Some(a) => if a + n >= 0 {
                    Some(Some((a + n) as u64))
                } else {
                    None
                },
            }
        },
    }
}

/// The position that a seek reports for a cursor: its address, or
/// `u64::MAX` past the end of the address space.
pub open spec fn reported_position(address: Option<u64>) -> u64 {
    match address {
        Some(a) => a,
        None => u64::MAX,
    }
}

/// Number of bytes from `address` to the top of the address space, as far as
/// a `u64` can count them.
pub open spec fn remaining_bytes(address: u64) -> u64 {
    if address == 0 {
        u64::MAX
    } else {
        (address_space_size() - address) as u64
    }
}

/// The number of bytes of a transfer of `byte_count` bytes at `address`,
/// clamped to the top of the address space.
pub open spec fn clamped_count(address: u64, byte_count: u64) -> u64 {
    if byte_count < remaining_bytes(address) {
        byte_count
    } else {
        remaining_bytes(address)
    }
}

/// The range of a transfer of `byte_count` bytes at `address`, clamped to the
/// top of the address space.
pub open spec fn transfer_range(address: u64, byte_count: u64, page_size: u64) -> PageAwareAddressRange {
    page_aware_range(address, clamped_count(address, byte_count), page_size)
}

/// The cursor after `n` bytes were transferred from `address`.
pub open spec fn advanced(address: Option<u64>, n: int) -> Option<u64> {
    match address {
        Some(a) => if n < remaining_bytes(a) {
            Some((a + n) as u64)
        } else {
            None
        },
        None => None,
    }
}

/// Input/Output object transferring data to/from the virtual memory contents
/// of a particular process.
#[derive(Debug)]
pub struct ProcessVirtualMemoryIO {
    process_id: i32,
    /// Current virtual memory address where I/O happens in the target process.
    /// A value of `None` means we are **past** the end of the address space.
    address: Option<u64>,
}

impl ProcessVirtualMemoryIO {
    /// Identifier of the target process.
    pub closed spec fn spec_process_id(&self) -> i32 {
        self.process_id
    }

    /// The cursor: the address where the next transfer happens, or `None`
    /// past the end of the address space.
    pub closed spec fn position(&self) -> Option<u64> {
        self.address
    }

    /// The process identifier that `process_id` stands for, or the error for
    /// one that can name no process (zero, or negative as a `pid_t`). No
    /// process is probed.
    pub fn checked_process_id(process_id: u32) -> (r: Result<i32, Error>)
        ensures
            match r {
                Ok(pid) => checked_pid(process_id) == Ok::<i32, ErrorKind>(pid),
                Err(e) => checked_pid(process_id) == Err::<i32, ErrorKind>(e@),
            },
    {
        if process_id == 0 || process_id > i32::MAX as u32 {
            let pid: i32 = if process_id == 0 {
                0
            } else {
                ((process_id - 0x8000_0000) as i32) - i32::MAX - 1
            };
            return Err(Error::from_io3(IoError::InvalidInput, IoOperation::New, pid));
        }
        Ok(process_id as i32)
    }

    /// Create a new object to perform input/output of data from/to the virtual
    /// memory contents of the process identified by `process_id`, given what
    /// the liveness probe of that process reported: success, or its error
    /// code.
    ///
    /// The initial virtual memory address where data transfers initially
    /// happen is specified by `initial_address`.
    ///
    /// An identifier that can name no process is refused whatever `probe`
    /// holds: probe only the identifier that `checked_process_id` returns.
    pub fn new(process_id: u32, initial_address: u64, probe: Result<(), i32>) -> (r: Result<
        Self,
        Error,
    >)
        ensures
            match (checked_pid(process_id), probe) {
                (Err(kind), _) => r matches Err(e) && e@ == kind,
                (Ok(pid), Err(code)) => r matches Err(e) && e@ == (ErrorKind::Io {
                    operation: IoOperation::Kill,
                    error: probe_failure(code),
                    process_id: Some(pid),
                }),
                (Ok(pid), Ok(())) => r matches Ok(io) && io.spec_process_id() == pid
                    && io.position() == Some(initial_address),
            },
    {
        let process_id = match Self::checked_process_id(process_id) {
            Ok(pid) => pid,
            Err(e) => return Err(e),
        };
        match probe {
            Ok(()) => Ok(Self { process_id, address: Some(initial_address) }),
            Err(code) => Err(Error::from_io3(probe_error(code), IoOperation::Kill, process_id)),
        }
    }

    /// The remote descriptors for a transfer of `byte_count` bytes at the
    /// cursor, and the number of bytes at their end that they leave
    /// uncovered; `None` where there is nothing to transfer (no bytes are
    /// asked for, or the cursor is past the end of the address space), and
    /// so no system call is to be made.
    ///
    /// The request is clamped to the bytes left before the top of the
    /// address space.
    pub fn prepare_io_vectored(&self, byte_count: u64, page_size: u64, max_iov_count: usize) -> (r:
        Option<(RemoteIoVectors, u64)>)
        requires
            is_power_of_two(page_size),
            max_iov_count >= 1,
        ensures
            byte_count == 0 || self.position() is None <==> r is None,
            r matches Some(list) ==> exists|k: nat|
                #[trigger] retry_outcome(
                    transfer_range(self.position()->0, byte_count, page_size),
                    page_size,
                    max_iov_count,
                    k,
                ) == (remote_io_vectors(list.0), list.1),
            r matches Some(list) ==> remote_io_vectors(list.0).is_prefix_of(
                transfer_range(self.position()->0, byte_count, page_size).descriptors(page_size),
            ),
            r matches Some(list) ==> remote_io_vectors(list.0).len() <= max_iov_count,
            r matches Some(list) ==> total_length(remote_io_vectors(list.0)) + list.1
                == clamped_count(self.position()->0, byte_count),
    {
        if byte_count == 0 || self.address.is_none() {
            return None;
        }
        let address = match self.address {
            Some(a) => a,
            None => 0,
        };

        // Do not overflow the address space.
        let max_remaining_bytes = (u64::MAX - address).saturating_add(1);
        let clamped_count = if byte_count < max_remaining_bytes {
            byte_count
        } else {
            max_remaining_bytes
        };
        proof {
            crate::range::lemma_split_partitions(address, clamped_count, page_size);
        }
        let range = PageAwareAddressRange::new(address, clamped_count, page_size);
        assert(range == transfer_range(address, byte_count, page_size));
        Some(range.into_iov_buffers(page_size, max_iov_count))
    }

    /// Accounts for the outcome of a transfer call at the cursor: the number
    /// of bytes transferred, or the error code of its failure. The cursor
    /// moves past the bytes transferred, or past the end of the address space
    /// where they reach its top.
    pub fn finish_io_vectored(&mut self, operation: IoOperation, outcome: Result<usize, i32>) -> (r:
        Result<usize, Error>)
        ensures
            final(self).spec_process_id() == old(self).spec_process_id(),
            match outcome {
                Ok(n) => r == Ok::<usize, Error>(n) && final(self).position() == advanced(
                    old(self).position(),
                    n as int,
                ),
                Err(code) => final(self).position() == old(self).position() && (r matches Err(e)
                    && e@ == (ErrorKind::Io {
                    operation,
                    error: IoError::Os(code),
                    process_id: Some(old(self).spec_process_id()),
                })),
            },
    {
        match outcome {
            Err(code) => Err(Error::from_io3(IoError::Os(code), operation, self.process_id)),
            Ok(transferred_bytes_count) => {
                if let Some(address) = self.address {
                    let max_remaining_bytes = (u64::MAX - address).saturating_add(1);
                    // A cursor of `None` stands past the end of the address space.
                    self.address = if (transferred_bytes_count as u64) < max_remaining_bytes {
                        Some(address + transferred_bytes_count as u64)
                    } else {
                        None
                    };
                }
                Ok(transferred_bytes_count)
            },
        }
    }

    /// Return the process identifier of the target process.
    pub fn process_id(&self) -> (r: u32)
        ensures
            r as int == if self.spec_process_id() >= 0 {
                self.spec_process_id() as int
            } else {
                self.spec_process_id() + 0x1_0000_0000
            },
    {
        if self.process_id >= 0 {
            self.process_id as u32
        } else {
            ((self.process_id as i64) + 0x1_0000_0000) as u32
        }
    }

    /// The address where the next transfer happens, or `None` past the end of
    /// the address space.
    pub fn address(&self) -> (r: Option<u64>)
        ensures
            r == self.position(),
    {
        self.address
    }

    /// The current position: the address, or `u64::MAX` past the end.
    pub fn stream_position(&self) -> (r: u64)
        ensures
            r == reported_position(self.position()),
    {
        match self.address {
            Some(a) => a,
            None => u64::MAX,
        }
    }

    /// Seek to an address in the virtual memory address space of the associated
    /// process.
    ///
    /// If the seek operation completed successfully, this method returns
    /// the new position from the start of the stream.
    ///
    /// The target address need not be readable/writable or even mapped.
    /// Seeking beyond the address space size puts the cursor after the end
    /// of the address space.
    pub fn seek(&mut self, pos: SeekFrom) -> (r: Result<u64, Error>)
        ensures
            final(self).spec_process_id() == old(self).spec_process_id(),
            match seek_target(old(self).position(), pos) {
                Some(target) => final(self).position() == target && r == Ok::<u64, Error>(
                    reported_position(target),
                ),
                None => final(self).position() == old(self).position() && (r matches Err(e)
                    && e@ == (ErrorKind::Io {
                    operation: IoOperation::Seek,
                    error: IoError::InvalidInput,
                    process_id: Some(old(self).spec_process_id()),
                })),
            },
    {
        let address = match pos {
            SeekFrom::Start(n) => Some(n),
            SeekFrom::End(n) => if n >= 0 {
                None
            } else {
                let backward = (-(n as i128)) as u64;
                Some((u64::MAX - backward) + 1)
            },
            SeekFrom::Current(n) => if n >= 0 {
                match self.address {
                    None => None,
                    Some(address) => address.checked_add(n as u64),
                }
            } else {
                let backward = (-(n as i128)) as u64;
                match self.address {
                    None => Some((u64::MAX - backward) + 1),
                    Some(address) => match address.checked_sub(backward) {
                        Some(a) => Some(a),
                        None => {
                            return Err(
                                Error::from_io3(
                                    IoError::InvalidInput,
                                    IoOperation::Seek,
                                    self.process_id,
                                ),
                            );
                        },
                    },
                }
            },
        };
        self.address = address;
        Ok(self.stream_position())
    }
}

/// `p` read as a `pid_t`.
pub open spec fn as_pid(p: u32) -> i32 {
    if p <= i32::MAX {
        p as i32
    } else {
        (p - 0x1_0000_0000) as i32
    }
}

/// The identifier that `p` gives to probe, or the error of a non-positive one.
pub open spec fn checked_pid(p: u32) -> Result<i32, ErrorKind> {
    if as_pid(p) > 0 {
        Ok(as_pid(p))
    } else {
        Err(
            ErrorKind::Io {
                operation: IoOperation::New,
                error: IoError::InvalidInput,
                process_id: Some(as_pid(p)),
            },
        )
    }
}

/// The error code of a missing process (`ESRCH` on Linux).
pub open spec fn no_such_process() -> i32 {
    3
}

/// The error code of an invalid argument (`EINVAL` on Linux).
pub open spec fn invalid_argument() -> i32 {
    22
}

/// The error code of a missing permission (`EPERM` on Linux).
pub open spec fn not_permitted() -> i32 {
    1
}

/// Relies on `libc::ESRCH`, the code of a missing process: 3 on Linux.
#[verifier::external_body]
fn esrch() -> (r: i32)
    ensures
        r == no_such_process(),
{
    libc::ESRCH
}

/// Relies on `libc::EINVAL`, the code of an invalid argument: 22 on Linux.
#[verifier::external_body]
fn einval() -> (r: i32)
    ensures
        r == invalid_argument(),
{
    libc::EINVAL
}

/// Relies on `libc::EPERM`, the code of a missing permission: 1 on Linux.
#[verifier::external_body]
fn eperm() -> (r: i32)
    ensures
        r == not_permitted(),
{
    libc::EPERM
}

/// How a failed liveness probe is reported: the error codes for a missing
/// process, a bad identifier and a missing permission are classified, any
/// other code is kept.
pub open spec fn probe_failure(code: i32) -> IoError {
    if code == no_such_process() {
        IoError::NotFound
    } else if code == invalid_argument() {
        IoError::InvalidInput
    } else if code == not_permitted() {
        IoError::PermissionDenied
    } else {
        IoError::Os(code)
    }
}

/// Classifies the error code `code` of a failed liveness probe.
pub fn probe_error(code: i32) -> (r: IoError)
    ensures
        r == probe_failure(code),
{
    if code == esrch() {
        IoError::NotFound
    } else if code == einval() {
        IoError::InvalidInput
    } else if code == eperm() {
        IoError::PermissionDenied
    } else {
        IoError::Os(code)
    }
}

/// No seek moves before address zero: once the cursor is at the start of the
/// address space, every seek backward from the current position is refused.
pub proof fn lemma_no_seek_below_zero(address: Option<u64>, n: i64)
    requires
        n < 0,
    ensures
        seek_target(address, SeekFrom::Start(0)) == Some(Some(0u64)),
        seek_target(Some(0u64), SeekFrom::Current(n)) is None,
{
}

/// A seek forward from the end of the address space puts the cursor past
/// the end, wherever it stood before.
pub proof fn lemma_seek_from_end_past_end(address: Option<u64>, n: i64)
    requires
        n >= 0,
    ensures
        seek_target(address, SeekFrom::End(n)) == Some(None::<u64>),
{
}

/// A transfer of `n` bytes at `a`, a seek back to `a` and another transfer of
/// `n` bytes leave the cursor at `a + n`, where the bytes stay below the top
/// of the address space.
pub proof fn lemma_transfer_rewind_transfer(a: u64, n: int)
    requires
        0 <= n < remaining_bytes(a),
    ensures
        advanced(Some(a), n) == Some((a + n) as u64),
        seek_target(advanced(Some(a), n), SeekFrom::Start(a)) == Some(Some(a)),
        advanced(Some(a), n) == advanced(seek_target(advanced(Some(a), n), SeekFrom::Start(a))->0, n),
{
}

} // verus!
