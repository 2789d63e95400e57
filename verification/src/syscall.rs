//! System call numbers and the register that carries them, for the AArch64 system call
//! conventions of Linux and of macOS.
use vstd::prelude::*;
use crate::common::RegisterX;

verus! {

/// The operating system the generated code runs on.
#[derive(Copy, Debug, Clone, PartialEq, Eq, Structural)]
pub enum TargetOs {
    Linux,
    MacOs,
}

#[derive(Copy, Debug, Clone, PartialEq, Eq, Structural)]
pub enum Syscall {
    EXIT,
    WRITE,
}

impl Syscall {
    /// The number of the call on `os`: on Linux `write` is 64 and `exit` 93; on macOS
    /// `write` is 4 and `exit` 1.
    pub fn number(&self, os: TargetOs) -> (n: u16)
        ensures
            n == match (os, *self) {
                (TargetOs::Linux, Syscall::WRITE) => 64u16,
                (TargetOs::Linux, Syscall::EXIT) => 93u16,
                (TargetOs::MacOs, Syscall::WRITE) => 4u16,
                (TargetOs::MacOs, Syscall::EXIT) => 1u16,
            },
    {
        match os {
            TargetOs::Linux => match self {
                Syscall::WRITE => 64,
                Syscall::EXIT => 93,
            },
            TargetOs::MacOs => match self {
                Syscall::WRITE => 4,
                Syscall::EXIT => 1,
            },
        }
    }
}

/// The register that holds the system call number when `svc` traps: `x8` on Linux, `x16`
/// on macOS.
pub fn syscall_register(os: TargetOs) -> (r: RegisterX)
    ensures
        r == match os {
            TargetOs::Linux => RegisterX::X8,
            TargetOs::MacOs => RegisterX::X16,
        },
{
    match os {
        TargetOs::Linux => RegisterX::X8,
        TargetOs::MacOs => RegisterX::X16,
    }
}

} // verus!
