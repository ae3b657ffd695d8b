//! Random-access byte I/O against the virtual memory of another process.
//!
//! The library turns an `(address, length)` request into the page-aligned
//! descriptor lists that the scatter/gather transfer system calls expect,
//! and keeps the seek/read/write cursor of one target process.
pub mod capabilities;
pub mod cursor;
pub mod errors;
pub mod iovec;
pub mod range;

pub use capabilities::{align_down, min_system_page_size, system_iov_max};
pub use cursor::ProcessVirtualMemoryIO;
pub use errors::{Error, ErrorKind, IoError, IoOperation};
pub use iovec::RemoteIoVectors;
pub use range::PageAwareAddressRange;
