//! Numbers that the Windows bindings and the C library define.
//!
//! Each function hands out one constant of an outside crate. Its contract
//! states the number.

use vstd::prelude::*;

verus! {

/// The `WSAPoll` bit for "readable".
pub open spec fn pollrdnorm_value() -> i16 {
    0x100i16
}

/// The constant `windows_sys::Win32::Networking::WinSock::POLLRDNORM`. The
/// contract claims that it is `0x100`.
#[verifier::external_body]
pub(crate) fn pollrdnorm() -> (r: i16)
    ensures
        r == pollrdnorm_value(),
{
    windows_sys::Win32::Networking::WinSock::POLLRDNORM
}

/// The `WSAPoll` bit for "writable".
pub open spec fn pollwrnorm_value() -> i16 {
    0x10i16
}

/// The constant `windows_sys::Win32::Networking::WinSock::POLLWRNORM`. The
/// contract claims that it is `0x10`.
#[verifier::external_body]
pub(crate) fn pollwrnorm() -> (r: i16)
    ensures
        r == pollwrnorm_value(),
{
    windows_sys::Win32::Networking::WinSock::POLLWRNORM
}

/// The `WSAPoll` bit for a socket in error.
pub open spec fn pollerr_value() -> i16 {
    0x1i16
}

/// The constant `windows_sys::Win32::Networking::WinSock::POLLERR`. The
/// contract claims that it is 1.
#[verifier::external_body]
pub(crate) fn pollerr() -> (r: i16)
    ensures
        r == pollerr_value(),
{
    windows_sys::Win32::Networking::WinSock::POLLERR
}

/// The `WSAPoll` bit for a connection that was hung up.
pub open spec fn pollhup_value() -> i16 {
    0x2i16
}

/// The constant `windows_sys::Win32::Networking::WinSock::POLLHUP`. The
/// contract claims that it is 2.
#[verifier::external_body]
pub(crate) fn pollhup() -> (r: i16)
    ensures
        r == pollhup_value(),
{
    windows_sys::Win32::Networking::WinSock::POLLHUP
}

/// The `WSAPoll` bit for a descriptor that is no socket.
pub open spec fn pollnval_value() -> i16 {
    0x4i16
}

/// The constant `windows_sys::Win32::Networking::WinSock::POLLNVAL`. The
/// contract claims that it is 4.
#[verifier::external_body]
pub(crate) fn pollnval() -> (r: i16)
    ensures
        r == pollnval_value(),
{
    windows_sys::Win32::Networking::WinSock::POLLNVAL
}

/// What a failed Winsock call returns.
pub open spec fn socket_error_value() -> i32 {
    -1i32
}

/// The constant `windows_sys::Win32::Networking::WinSock::SOCKET_ERROR`. The
/// contract claims that it is -1.
#[verifier::external_body]
pub(crate) fn socket_error() -> (r: i32)
    ensures
        r == socket_error_value(),
{
    windows_sys::Win32::Networking::WinSock::SOCKET_ERROR
}

/// The Winsock code for a request that goes on.
pub open spec fn wsa_io_pending_value() -> i32 {
    997i32
}

/// The constant `windows_sys::Win32::Networking::WinSock::WSA_IO_PENDING`. The
/// contract claims that it is 997.
#[verifier::external_body]
pub(crate) fn wsa_io_pending() -> (r: i32)
    ensures
        r == wsa_io_pending_value(),
{
    windows_sys::Win32::Networking::WinSock::WSA_IO_PENDING
}

/// The control code that asks for the base socket.
pub open spec fn sio_base_handle_value() -> u32 {
    0x4800_0022u32
}

/// The constant `windows_sys::Win32::Networking::WinSock::SIO_BASE_HANDLE`.
/// The contract claims that it is `0x48000022`.
#[verifier::external_body]
pub(crate) fn sio_base_handle() -> (r: u32)
    ensures
        r == sio_base_handle_value(),
{
    windows_sys::Win32::Networking::WinSock::SIO_BASE_HANDLE
}

/// The control code that asks for the base provider's socket.
pub open spec fn sio_bsp_handle_value() -> u32 {
    0x4800_001Bu32
}

/// The constant `windows_sys::Win32::Networking::WinSock::SIO_BSP_HANDLE`. The
/// contract claims that it is `0x4800001b`.
#[verifier::external_body]
pub(crate) fn sio_bsp_handle() -> (r: u32)
    ensures
        r == sio_bsp_handle_value(),
{
    windows_sys::Win32::Networking::WinSock::SIO_BSP_HANDLE
}

/// The control code that asks for the base provider's socket for `WSAPoll`.
pub open spec fn sio_bsp_handle_poll_value() -> u32 {
    0x4800_001Du32
}

/// The constant
/// `windows_sys::Win32::Networking::WinSock::SIO_BSP_HANDLE_POLL`. The
/// contract claims that it is `0x4800001d`.
#[verifier::external_body]
pub(crate) fn sio_bsp_handle_poll() -> (r: u32)
    ensures
        r == sio_bsp_handle_poll_value(),
{
    windows_sys::Win32::Networking::WinSock::SIO_BSP_HANDLE_POLL
}

/// The control code that asks for the base provider's socket for `select`.
pub open spec fn sio_bsp_handle_select_value() -> u32 {
    0x4800_001Cu32
}

/// The constant
/// `windows_sys::Win32::Networking::WinSock::SIO_BSP_HANDLE_SELECT`. The
/// contract claims that it is `0x4800001c`.
#[verifier::external_body]
pub(crate) fn sio_bsp_handle_select() -> (r: u32)
    ensures
        r == sio_bsp_handle_select_value(),
{
    windows_sys::Win32::Networking::WinSock::SIO_BSP_HANDLE_SELECT
}

/// The timeout that never expires.
pub open spec fn infinite_value() -> u32 {
    0xFFFF_FFFFu32
}

/// The constant `windows_sys::Win32::System::Threading::INFINITE`. The
/// contract claims that it is the largest `u32`.
#[verifier::external_body]
pub(crate) fn infinite() -> (r: u32)
    ensures
        r == infinite_value(),
{
    windows_sys::Win32::System::Threading::INFINITE
}

/// The code for a wait that expired.
pub open spec fn wait_timeout_value() -> u32 {
    258u32
}

/// The constant `windows_sys::Win32::Foundation::WAIT_TIMEOUT`. The contract
/// claims that it is 258.
#[verifier::external_body]
pub(crate) fn wait_timeout() -> (r: u32)
    ensures
        r == wait_timeout_value(),
{
    windows_sys::Win32::Foundation::WAIT_TIMEOUT
}

/// The code for a wait that was satisfied.
pub open spec fn wait_object_0_value() -> u32 {
    0u32
}

/// The constant `windows_sys::Win32::Foundation::WAIT_OBJECT_0`. The contract
/// claims that it is 0.
#[verifier::external_body]
pub(crate) fn wait_object_0() -> (r: u32)
    ensures
        r == wait_object_0_value(),
{
    windows_sys::Win32::Foundation::WAIT_OBJECT_0
}

/// The code for a wait that failed.
pub open spec fn wait_failed_value() -> u32 {
    0xFFFF_FFFFu32
}

/// The constant `windows_sys::Win32::Foundation::WAIT_FAILED`. The contract
/// claims that it is the largest `u32`.
#[verifier::external_body]
pub(crate) fn wait_failed() -> (r: u32)
    ensures
        r == wait_failed_value(),
{
    windows_sys::Win32::Foundation::WAIT_FAILED
}

/// The code for a handle that names nothing.
pub open spec fn error_invalid_handle_value() -> u32 {
    6u32
}

/// The constant `windows_sys::Win32::Foundation::ERROR_INVALID_HANDLE`. The
/// contract claims that it is 6.
#[verifier::external_body]
pub(crate) fn error_invalid_handle() -> (r: u32)
    ensures
        r == error_invalid_handle_value(),
{
    windows_sys::Win32::Foundation::ERROR_INVALID_HANDLE
}

/// The code for a request that goes on.
pub open spec fn error_io_pending_value() -> u32 {
    997u32
}

/// The constant `windows_sys::Win32::Foundation::ERROR_IO_PENDING`. The
/// contract claims that it is 997.
#[verifier::external_body]
pub(crate) fn error_io_pending() -> (r: u32)
    ensures
        r == error_io_pending_value(),
{
    windows_sys::Win32::Foundation::ERROR_IO_PENDING
}

/// The code for a request that is not there to be cancelled.
pub open spec fn error_not_found_value() -> u32 {
    1168u32
}

/// The constant `windows_sys::Win32::Foundation::ERROR_NOT_FOUND`. The
/// contract claims that it is 1168.
#[verifier::external_body]
pub(crate) fn error_not_found() -> (r: u32)
    ensures
        r == error_not_found_value(),
{
    windows_sys::Win32::Foundation::ERROR_NOT_FOUND
}

/// The code for a name that is taken.
pub open spec fn error_already_exists_value() -> u32 {
    183u32
}

/// The constant `windows_sys::Win32::Foundation::ERROR_ALREADY_EXISTS`. The
/// contract claims that it is 183.
#[verifier::external_body]
pub(crate) fn error_already_exists() -> (r: u32)
    ensures
        r == error_already_exists_value(),
{
    windows_sys::Win32::Foundation::ERROR_ALREADY_EXISTS
}

/// The status of a request that succeeded.
pub open spec fn status_success_value() -> i32 {
    0i32
}

/// The constant `windows_sys::Win32::Foundation::STATUS_SUCCESS`. The contract
/// claims that it is 0.
#[verifier::external_body]
pub(crate) fn status_success() -> (r: i32)
    ensures
        r == status_success_value(),
{
    windows_sys::Win32::Foundation::STATUS_SUCCESS
}

/// The status of a request that goes on.
pub open spec fn status_pending_value() -> i32 {
    0x103i32
}

/// The constant `windows_sys::Win32::Foundation::STATUS_PENDING`. The contract
/// claims that it is `0x103`.
#[verifier::external_body]
pub(crate) fn status_pending() -> (r: i32)
    ensures
        r == status_pending_value(),
{
    windows_sys::Win32::Foundation::STATUS_PENDING
}

/// Every right to a view.
pub open spec fn file_map_all_access_value() -> u32 {
    0xF001Fu32
}

/// The constant `windows_sys::Win32::System::Memory::FILE_MAP_ALL_ACCESS`. The
/// contract claims that it is `0xf001f`.
#[verifier::external_body]
pub(crate) fn file_map_all_access() -> (r: u32)
    ensures
        r == file_map_all_access_value(),
{
    windows_sys::Win32::System::Memory::FILE_MAP_ALL_ACCESS
}

/// The right to read through a view.
pub open spec fn file_map_read_value() -> u32 {
    4u32
}

/// The constant `windows_sys::Win32::System::Memory::FILE_MAP_READ`. The
/// contract claims that it is 4.
#[verifier::external_body]
pub(crate) fn file_map_read() -> (r: u32)
    ensures
        r == file_map_read_value(),
{
    windows_sys::Win32::System::Memory::FILE_MAP_READ
}

/// The right to write through a view.
pub open spec fn file_map_write_value() -> u32 {
    2u32
}

/// The constant `windows_sys::Win32::System::Memory::FILE_MAP_WRITE`. The
/// contract claims that it is 2.
#[verifier::external_body]
pub(crate) fn file_map_write() -> (r: u32)
    ensures
        r == file_map_write_value(),
{
    windows_sys::Win32::System::Memory::FILE_MAP_WRITE
}

/// The code for an argument that cannot be used.
pub open spec fn einval_value() -> i32 {
    22i32
}

/// The constant `libc::EINVAL`. The contract claims that it is 22.
#[verifier::external_body]
pub(crate) fn einval() -> (r: i32)
    ensures
        r == einval_value(),
{
    libc::EINVAL
}

/// The code for a bad descriptor.
pub open spec fn ebadf_value() -> i32 {
    9i32
}

/// The constant `libc::EBADF`. The contract claims that it is 9.
#[verifier::external_body]
pub(crate) fn ebadf() -> (r: i32)
    ensures
        r == ebadf_value(),
{
    libc::EBADF
}

} // verus!
