//! What the platform's C library defines, on the Linux targets that the
//! manager runs on (x86_64, aarch64 and arm).
//!
//! Each constant is read from `libc`. The contract of each reader claims the
//! number that `libc` gives that constant on these targets.

use vstd::prelude::*;

verus! {

// Error numbers of the Linux ABI.

/// The number of `EAGAIN`.
pub open spec fn eagain() -> i32 {
    11
}

/// `libc::EAGAIN`: claimed to be `11`.
#[verifier::external_body]
pub(crate) fn libc_eagain() -> (r: i32)
    ensures
        r == eagain(),
{
    libc::EAGAIN
}

/// The number of `EIO`.
pub open spec fn eio() -> i32 {
    5
}

/// `libc::EIO`: claimed to be `5`.
#[verifier::external_body]
pub(crate) fn libc_eio() -> (r: i32)
    ensures
        r == eio(),
{
    libc::EIO
}

/// The number of `ENOENT`.
pub open spec fn enoent() -> i32 {
    2
}

/// `libc::ENOENT`: claimed to be `2`.
#[verifier::external_body]
pub(crate) fn libc_enoent() -> (r: i32)
    ensures
        r == enoent(),
{
    libc::ENOENT
}

/// The number of `ECONNREFUSED`.
pub open spec fn econnrefused() -> i32 {
    111
}

/// `libc::ECONNREFUSED`: claimed to be `111`.
#[verifier::external_body]
pub(crate) fn libc_econnrefused() -> (r: i32)
    ensures
        r == econnrefused(),
{
    libc::ECONNREFUSED
}

/// The number of `ENOTSOCK`.
pub open spec fn enotsock() -> i32 {
    88
}

/// `libc::ENOTSOCK`: claimed to be `88`.
#[verifier::external_body]
pub(crate) fn libc_enotsock() -> (r: i32)
    ensures
        r == enotsock(),
{
    libc::ENOTSOCK
}

/// The number of `EADDRINUSE`.
pub open spec fn eaddrinuse() -> i32 {
    98
}

/// `libc::EADDRINUSE`: claimed to be `98`.
#[verifier::external_body]
pub(crate) fn libc_eaddrinuse() -> (r: i32)
    ensures
        r == eaddrinuse(),
{
    libc::EADDRINUSE
}

// Signals.

/// The number of `SIGHUP`.
pub open spec fn sighup() -> i32 {
    1
}

/// `libc::SIGHUP`: claimed to be `1`.
#[verifier::external_body]
pub(crate) fn libc_sighup() -> (r: i32)
    ensures
        r == sighup(),
{
    libc::SIGHUP
}

/// The number of `SIGKILL`.
pub open spec fn sigkill() -> i32 {
    9
}

/// `libc::SIGKILL`: claimed to be `9`.
#[verifier::external_body]
pub(crate) fn libc_sigkill() -> (r: i32)
    ensures
        r == sigkill(),
{
    libc::SIGKILL
}

/// The number of `SIGTERM`.
pub open spec fn sigterm() -> i32 {
    15
}

/// `libc::SIGTERM`: claimed to be `15`.
#[verifier::external_body]
pub(crate) fn libc_sigterm() -> (r: i32)
    ensures
        r == sigterm(),
{
    libc::SIGTERM
}

/// The number of `SIGWINCH`.
pub open spec fn sigwinch() -> i32 {
    28
}

/// `libc::SIGWINCH`: claimed to be `28`.
#[verifier::external_body]
pub(crate) fn libc_sigwinch() -> (r: i32)
    ensures
        r == sigwinch(),
{
    libc::SIGWINCH
}

// File modes.

/// The number of `S_IFMT`.
pub open spec fn s_ifmt() -> u32 {
    0o170000
}

/// `libc::S_IFMT`: claimed to be `0o170000`.
#[verifier::external_body]
pub(crate) fn libc_s_ifmt() -> (r: u32)
    ensures
        r == s_ifmt(),
{
    libc::S_IFMT
}

/// The number of `S_IFSOCK`.
pub open spec fn s_ifsock() -> u32 {
    0o140000
}

/// `libc::S_IFSOCK`: claimed to be `0o140000`.
#[verifier::external_body]
pub(crate) fn libc_s_ifsock() -> (r: u32)
    ensures
        r == s_ifsock(),
{
    libc::S_IFSOCK
}

/// The number of `S_IXUSR`.
pub open spec fn s_ixusr() -> u32 {
    0o100
}

/// `libc::S_IXUSR`: claimed to be `0o100`.
#[verifier::external_body]
pub(crate) fn libc_s_ixusr() -> (r: u32)
    ensures
        r == s_ixusr(),
{
    libc::S_IXUSR
}

// Terminal input flags.

/// The number of `IGNBRK`.
pub open spec fn ignbrk() -> u32 {
    0x1
}

/// `libc::IGNBRK`: claimed to be `0x1`.
#[verifier::external_body]
pub(crate) fn libc_ignbrk() -> (r: u32)
    ensures
        r == ignbrk(),
{
    libc::IGNBRK
}

/// The number of `BRKINT`.
pub open spec fn brkint() -> u32 {
    0x2
}

/// `libc::BRKINT`: claimed to be `0x2`.
#[verifier::external_body]
pub(crate) fn libc_brkint() -> (r: u32)
    ensures
        r == brkint(),
{
    libc::BRKINT
}

/// The number of `PARMRK`.
pub open spec fn parmrk() -> u32 {
    0x8
}

/// `libc::PARMRK`: claimed to be `0x8`.
#[verifier::external_body]
pub(crate) fn libc_parmrk() -> (r: u32)
    ensures
        r == parmrk(),
{
    libc::PARMRK
}

/// The number of `ISTRIP`.
pub open spec fn istrip() -> u32 {
    0x20
}

/// `libc::ISTRIP`: claimed to be `0x20`.
#[verifier::external_body]
pub(crate) fn libc_istrip() -> (r: u32)
    ensures
        r == istrip(),
{
    libc::ISTRIP
}

/// The number of `INLCR`.
pub open spec fn inlcr() -> u32 {
    0x40
}

/// `libc::INLCR`: claimed to be `0x40`.
#[verifier::external_body]
pub(crate) fn libc_inlcr() -> (r: u32)
    ensures
        r == inlcr(),
{
    libc::INLCR
}

/// The number of `IGNCR`.
pub open spec fn igncr() -> u32 {
    0x80
}

/// `libc::IGNCR`: claimed to be `0x80`.
#[verifier::external_body]
pub(crate) fn libc_igncr() -> (r: u32)
    ensures
        r == igncr(),
{
    libc::IGNCR
}

/// The number of `ICRNL`.
pub open spec fn icrnl() -> u32 {
    0x100
}

/// `libc::ICRNL`: claimed to be `0x100`.
#[verifier::external_body]
pub(crate) fn libc_icrnl() -> (r: u32)
    ensures
        r == icrnl(),
{
    libc::ICRNL
}

/// The number of `IXON`.
pub open spec fn ixon() -> u32 {
    0x400
}

/// `libc::IXON`: claimed to be `0x400`.
#[verifier::external_body]
pub(crate) fn libc_ixon() -> (r: u32)
    ensures
        r == ixon(),
{
    libc::IXON
}

/// The number of `IXOFF`.
pub open spec fn ixoff() -> u32 {
    0x1000
}

/// `libc::IXOFF`: claimed to be `0x1000`.
#[verifier::external_body]
pub(crate) fn libc_ixoff() -> (r: u32)
    ensures
        r == ixoff(),
{
    libc::IXOFF
}

// Terminal output flags.

/// The number of `OPOST`.
pub open spec fn opost() -> u32 {
    0x1
}

/// `libc::OPOST`: claimed to be `0x1`.
#[verifier::external_body]
pub(crate) fn libc_opost() -> (r: u32)
    ensures
        r == opost(),
{
    libc::OPOST
}

// Terminal local flags.

/// The number of `ISIG`.
pub open spec fn isig() -> u32 {
    0x1
}

/// `libc::ISIG`: claimed to be `0x1`.
#[verifier::external_body]
pub(crate) fn libc_isig() -> (r: u32)
    ensures
        r == isig(),
{
    libc::ISIG
}

/// The number of `ICANON`.
pub open spec fn icanon() -> u32 {
    0x2
}

/// `libc::ICANON`: claimed to be `0x2`.
#[verifier::external_body]
pub(crate) fn libc_icanon() -> (r: u32)
    ensures
        r == icanon(),
{
    libc::ICANON
}

/// The number of `ECHO`.
pub open spec fn echo() -> u32 {
    0x8
}

/// `libc::ECHO`: claimed to be `0x8`.
#[verifier::external_body]
pub(crate) fn libc_echo() -> (r: u32)
    ensures
        r == echo(),
{
    libc::ECHO
}

/// The number of `ECHONL`.
pub open spec fn echonl() -> u32 {
    0x40
}

/// `libc::ECHONL`: claimed to be `0x40`.
#[verifier::external_body]
pub(crate) fn libc_echonl() -> (r: u32)
    ensures
        r == echonl(),
{
    libc::ECHONL
}

/// The number of `IEXTEN`.
pub open spec fn iexten() -> u32 {
    0x8000
}

/// `libc::IEXTEN`: claimed to be `0x8000`.
#[verifier::external_body]
pub(crate) fn libc_iexten() -> (r: u32)
    ensures
        r == iexten(),
{
    libc::IEXTEN
}

// Terminal control flags.

/// The number of `CSIZE`.
pub open spec fn csize() -> u32 {
    0x30
}

/// `libc::CSIZE`: claimed to be `0x30`.
#[verifier::external_body]
pub(crate) fn libc_csize() -> (r: u32)
    ensures
        r == csize(),
{
    libc::CSIZE
}

/// The number of `CS8`.
pub open spec fn cs8() -> u32 {
    0x30
}

/// `libc::CS8`: claimed to be `0x30`.
#[verifier::external_body]
pub(crate) fn libc_cs8() -> (r: u32)
    ensures
        r == cs8(),
{
    libc::CS8
}

/// The number of `PARENB`.
pub open spec fn parenb() -> u32 {
    0x100
}

/// `libc::PARENB`: claimed to be `0x100`.
#[verifier::external_body]
pub(crate) fn libc_parenb() -> (r: u32)
    ensures
        r == parenb(),
{
    libc::PARENB
}

// Places in the array of control characters.

/// The number of `VTIME`.
pub open spec fn vtime() -> usize {
    5
}

/// `libc::VTIME`: claimed to be `5`.
#[verifier::external_body]
pub(crate) fn libc_vtime() -> (r: usize)
    ensures
        r == vtime(),
{
    libc::VTIME
}

/// The number of `VMIN`.
pub open spec fn vmin() -> usize {
    6
}

/// `libc::VMIN`: claimed to be `6`.
#[verifier::external_body]
pub(crate) fn libc_vmin() -> (r: usize)
    ensures
        r == vmin(),
{
    libc::VMIN
}

/// The number of `VSUSP`.
pub open spec fn vsusp() -> usize {
    10
}

/// `libc::VSUSP`: claimed to be `10`.
#[verifier::external_body]
pub(crate) fn libc_vsusp() -> (r: usize)
    ensures
        r == vsusp(),
{
    libc::VSUSP
}

/// `libc::WIFEXITED` tells whether a wait status says that the process ended by
/// itself: the low seven bits are zero.
pub assume_specification[ libc::WIFEXITED ](status: libc::c_int) -> (r: bool)
    ensures
        r == (status & 0x7f == 0),
;

/// `libc::WEXITSTATUS` reads the exit code out of a wait status: bits 8 to 15.
pub assume_specification[ libc::WEXITSTATUS ](status: libc::c_int) -> (r: libc::c_int)
    ensures
        r == (status >> 8) & 0xff,
;

/// The exit code with which to leave when the child's wait status is `status`:
/// the child's own, or 1 where a signal ended it.
pub open spec fn child_exit_code(status: i32) -> i32 {
    if status & 0x7f == 0 {
        (status >> 8) & 0xff
    } else {
        1
    }
}

/// The exit code with which to leave when the child's wait status is `status`.
pub fn exit_code_of(status: i32) -> (r: i32)
    ensures
        r == child_exit_code(status),
        0 <= r <= 255,
{
    proof {
        assert(0 <= (status >> 8) & 0xff <= 255) by (bit_vector);
    }
    if libc::WIFEXITED(status) {
        libc::WEXITSTATUS(status)
    } else {
        1
    }
}

/// Whether `mode` is the mode of a socket.
pub open spec fn is_socket_mode(mode: u32) -> bool {
    mode & s_ifmt() == s_ifsock()
}

/// Whether `mode` is the mode of a socket.
pub fn is_socket(mode: u32) -> (r: bool)
    ensures
        r == is_socket_mode(mode),
{
    (mode & libc_s_ifmt()) == libc_s_ifsock()
}

} // verus!
