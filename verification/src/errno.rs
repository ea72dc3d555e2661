//! Error numbers of Linux on x86 and Arm, and the error type that carries one.

use vstd::prelude::*;

verus! {

/// Operation not permitted.
pub const EPERM: i32 = 1;

/// No such file or directory.
pub const ENOENT: i32 = 2;

/// Invalid argument.
pub const EINVAL: i32 = 22;

/// Inappropriate request for the device.
pub const ENOTTY: i32 = 25;

/// Broken pipe.
pub const EPIPE: i32 = 32;

/// Resource deadlock would occur.
pub const EDEADLK: i32 = 35;

/// Protocol error.
pub const EPROTO: i32 = 71;

/// A failed system operation, known by its error number.
#[derive(Clone, Copy, Debug, PartialEq, Eq, Structural)]
pub struct SysError {
    pub code: i32,
}

pub type SysResult<T> = Result<T, SysError>;

impl SysError {
    pub fn new(code: i32) -> (r: SysError)
        ensures
            r.code == code,
    {
        SysError { code }
    }

    pub fn errno(&self) -> (r: i32)
        ensures
            r == self.code,
    {
        self.code
    }
}

/// `libc::EPERM`: for Linux on x86 and Arm, the constant is [`EPERM`].
#[verifier::external_body]
pub(crate) fn eperm() -> (r: i32)
    ensures
        r == EPERM,
{
    libc::EPERM
}

/// `libc::ENOENT`: for Linux on x86 and Arm, the constant is [`ENOENT`].
#[verifier::external_body]
pub(crate) fn enoent() -> (r: i32)
    ensures
        r == ENOENT,
{
    libc::ENOENT
}

/// `libc::EINVAL`: for Linux on x86 and Arm, the constant is [`EINVAL`].
#[verifier::external_body]
pub(crate) fn einval() -> (r: i32)
    ensures
        r == EINVAL,
{
    libc::EINVAL
}

/// `libc::ENOTTY`: for Linux on x86 and Arm, the constant is [`ENOTTY`].
#[verifier::external_body]
pub(crate) fn enotty() -> (r: i32)
    ensures
        r == ENOTTY,
{
    libc::ENOTTY
}

/// `libc::EPIPE`: for Linux on x86 and Arm, the constant is [`EPIPE`].
#[verifier::external_body]
pub(crate) fn epipe() -> (r: i32)
    ensures
        r == EPIPE,
{
    libc::EPIPE
}

/// `libc::EDEADLK`: for Linux on x86 and Arm, the constant is [`EDEADLK`].
#[verifier::external_body]
pub(crate) fn edeadlk() -> (r: i32)
    ensures
        r == EDEADLK,
{
    libc::EDEADLK
}

/// `libc::EPROTO`: for Linux on x86 and Arm, the constant is [`EPROTO`].
#[verifier::external_body]
pub(crate) fn eproto() -> (r: i32)
    ensures
        r == EPROTO,
{
    libc::EPROTO
}

} // verus!
