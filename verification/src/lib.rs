//! Event loops, doorbells and shared memory for a virtual machine monitor on
//! Windows, as verified decisions.
//!
//! Nothing in this crate calls the kernel. Each operation that needs it is a
//! value that says which call comes next and with which arguments; the caller
//! makes the call and hands the answer back. What is decided in between (which
//! handle is refused, which packet belongs to which registration, when a wait
//! is over, which address is mapped) is decided here, and proved.

pub mod afd;
pub mod completion;
pub mod epoll;
pub mod error;
pub mod event;
pub mod eventfd;
pub mod flags;
pub mod mmap;
pub mod named_object;
pub mod section;
pub mod sys;
pub mod text;
pub mod utf16;
pub mod waitable;
