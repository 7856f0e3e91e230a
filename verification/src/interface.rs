//! The usermode call interface: the descriptor a task submits, the
//! three-state result it receives, and the stable error codes.

use vstd::prelude::*;

verus! {

/// Identifier of a usermode-side task awaiting a kernel result.
#[derive(Copy, Clone, PartialEq, Eq, Structural, Debug)]
pub struct TaskId(pub u64);

/// A byte range inside the calling process's address space, passed as a
/// base and a length.  The kernel validates reachability before copying.
#[derive(Copy, Clone, PartialEq, Eq, Structural, Debug)]
pub struct UserBuf {
    pub base: u64,
    pub len: u64,
}

/// One decoded syscall descriptor.
///
/// Strings and byte payloads arrive as owned values: the embedding program
/// copies them out of user memory after validating reachability, before the
/// dispatcher runs.
#[derive(Clone, PartialEq, Eq, Debug)]
pub enum Syscall {
    Print(Vec<u8>),
    Exit(u64),
    Spawn(Vec<u8>, usize),
    Sleep(u64),
    DgSocket,
    DgWrite(u64, Vec<u8>),
    DgRead(u64, UserBuf),
    DgClose(u64),
    Yield,
    /// A descriptor tag the kernel does not recognize.
    Unknown,
}

/// Stable user-visible error codes.
#[derive(Copy, Clone, PartialEq, Eq, Structural, Debug)]
pub enum Error {
    InvalidSyscall,
    InvalidArgument,
    NoSuchSocket,
}

/// The ABI value of each error code.
pub open spec fn spec_error_code(e: Error) -> u64 {
    match e {
        Error::InvalidSyscall => 0,
        Error::InvalidArgument => 1,
        Error::NoSuchSocket => 2,
    }
}

/// The ABI value of each error code.
#[verifier::when_used_as_spec(spec_error_code)]
pub fn error_code(e: Error) -> (r: u64)
    ensures r == spec_error_code(e),
{
    match e {
        Error::InvalidSyscall => 0,
        Error::InvalidArgument => 1,
        Error::NoSuchSocket => 2,
    }
}

/// Decode an ABI error value; inverse of `error_code` on its range.
pub fn error_from_code(v: u64) -> (r: Option<Error>)
    ensures
        match r {
            Some(e) => spec_error_code(e) == v,
            None => v >= 3,
        },
{
    if v == 0 {
        Some(Error::InvalidSyscall)
    } else if v == 1 {
        Some(Error::InvalidArgument)
    } else if v == 2 {
        Some(Error::NoSuchSocket)
    } else {
        None
    }
}

/// The three-state result of a syscall.
#[derive(Copy, Clone, PartialEq, Eq, Structural, Debug)]
pub enum SyscallReturn {
    Complete(u64),
    Error(Error),
    NotComplete,
}

/// The tag register value of a result: 0 complete, 1 not complete, 2 error.
pub open spec fn spec_return_tag(r: SyscallReturn) -> u64 {
    match r {
        SyscallReturn::Complete(_) => 0,
        SyscallReturn::NotComplete => 1,
        SyscallReturn::Error(_) => 2,
    }
}

/// The payload register value of a result: the value, or the error code.
pub open spec fn spec_return_payload(r: SyscallReturn) -> u64 {
    match r {
        SyscallReturn::Complete(v) => v,
        SyscallReturn::NotComplete => 0,
        SyscallReturn::Error(e) => spec_error_code(e),
    }
}

/// The tag register value of a result: 0 complete, 1 not complete, 2 error.
#[verifier::when_used_as_spec(spec_return_tag)]
pub fn return_tag(r: SyscallReturn) -> (t: u64)
    ensures t == spec_return_tag(r),
{
    match r {
        SyscallReturn::Complete(_) => 0,
        SyscallReturn::NotComplete => 1,
        SyscallReturn::Error(_) => 2,
    }
}

/// The payload register value of a result: the value, or the error code.
#[verifier::when_used_as_spec(spec_return_payload)]
pub fn return_payload(r: SyscallReturn) -> (p: u64)
    ensures p == spec_return_payload(r),
{
    match r {
        SyscallReturn::Complete(v) => v,
        SyscallReturn::NotComplete => 0,
        SyscallReturn::Error(e) => error_code(e),
    }
}

} // verus!
