//! Error reporting.
use vstd::prelude::*;

verus! {

/// The system operations whose failures this library reports.
#[derive(Debug, Clone, Copy, PartialEq, Eq)]
pub enum IoOperation {
    /// Construction of a cursor, which checks the process identifier.
    New,
    /// The liveness probe: delivery of signal 0 to the target process.
    Kill,
    /// A move of the cursor.
    Seek,
    /// The transfer that reads from the target process.
    ProcessVmReadv,
    /// The transfer that writes to the target process.
    ProcessVmWritev,
}

impl IoOperation {
    /// The name under which the operation is reported.
    pub fn name(&self) -> (r: &'static str)
        ensures
            r@ == self.spec_name(),
    {
        match self {
            IoOperation::New => "process_vm_io::ProcessVirtualMemoryIO::new",
            IoOperation::Kill => "kill",
            IoOperation::Seek => "seek",
            IoOperation::ProcessVmReadv => "process_vm_readv",
            IoOperation::ProcessVmWritev => "process_vm_writev",
        }
    }

    /// The name under which the operation is reported.
    pub open spec fn spec_name(&self) -> Seq<char> {
        match self {
            IoOperation::New => "process_vm_io::ProcessVirtualMemoryIO::new"@,
            IoOperation::Kill => "kill"@,
            IoOperation::Seek => "seek"@,
            IoOperation::ProcessVmReadv => "process_vm_readv"@,
            IoOperation::ProcessVmWritev => "process_vm_writev"@,
        }
    }
}

/// The failure beneath an I/O error: a classification, or the raw error code
/// that the operating system reported.
#[derive(Debug, Clone, Copy, PartialEq, Eq)]
pub enum IoError {
    /// No process has the given identifier.
    NotFound,
    /// An argument is not acceptable.
    InvalidInput,
    /// The caller may not act on the target process.
    PermissionDenied,
    /// An error code (`errno`) reported by the operating system.
    Os(i32),
}

/// Actual storage for an error.
#[derive(Debug, Clone, Copy, PartialEq, Eq)]
pub enum ErrorKind {
    /// The system could not report its page size.
    UnknownPageSize,
    /// The system reported a page size that is zero or not a power of two.
    InvalidPageSize(u64),
    /// A system operation failed.
    Io {
        /// The operation that failed.
        operation: IoOperation,
        /// What made it fail.
        error: IoError,
        /// Identifier of the process that was the target of the operation.
        process_id: Option<i32>,
    },
    /// A value does not fit the integer type that it must be given in.
    IntegerCast,
}

/// An error of this library.
#[derive(Debug, Clone, PartialEq, Eq)]
pub struct Error {
    kind: ErrorKind,
}

impl View for Error {
    type V = ErrorKind;

    closed spec fn view(&self) -> ErrorKind {
        self.kind
    }
}

impl Error {
    /// An error of the given kind.
    pub fn new(kind: ErrorKind) -> (r: Error)
        ensures
            r@ == kind,
    {
        Error { kind }
    }

    /// An I/O error of `operation` on the process `process_id`.
    pub fn from_io3(error: IoError, operation: IoOperation, process_id: i32) -> (r: Error)
        ensures
            r@ == (ErrorKind::Io { operation, error, process_id: Some(process_id) }),
    {
        Error::new(ErrorKind::Io { operation, error, process_id: Some(process_id) })
    }

    /// Returns the actual kind of this error.
    pub fn kind(&self) -> (r: &ErrorKind)
        ensures
            *r == self@,
    {
        &self.kind
    }

    /// Returns the error code that the operating system reported for this
    /// error, if it reported one.
    pub fn os_error_code(&self) -> (r: Option<i32>)
        ensures
            r == os_error_code_of(self@),
    {
        match &self.kind {
            ErrorKind::Io { error: IoError::Os(code), .. } => Some(*code),
            _ => None,
        }
    }
}

/// The error code that an error of kind `kind` carries.
pub open spec fn os_error_code_of(kind: ErrorKind) -> Option<i32> {
    match kind {
        ErrorKind::Io { error: IoError::Os(code), .. } => Some(code),
        _ => None,
    }
}

} // verus!
