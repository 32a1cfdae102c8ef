//! The decisions of the execution driver around a stopped executor.
use crate::guest::{CpuError, Machine, V0_REG};
use crate::syscall::SyscallResult;
use vstd::prelude::*;

verus! {

/// Why the executor stopped.
#[derive(Debug, Clone, Copy, PartialEq, Eq, Structural)]
pub enum ExecutorMode {
    Running,
    Paused,
    Breakpoint,
    /// A trap; `Invalid(CpuSyscall)` is a syscall.
    Invalid(CpuError),
}

/// A snapshot of why and where execution stopped.
#[derive(Debug, Clone, Copy, PartialEq, Eq, Structural)]
pub struct DebugFrame {
    pub mode: ExecutorMode,
    pub pc: u32,
}

/// What to do with a frame the executor stopped on.
#[derive(Debug, Clone, Copy, PartialEq, Eq, Structural)]
pub enum FrameAction {
    /// A syscall trap: serve this code.
    Dispatch(u32),
    /// Any other stop ends the run with the frame and no syscall result.
    Halt,
}

/// What to do once a syscall has ended.
#[derive(Debug)]
pub enum AfterSyscall {
    /// Tell the executor that the syscall is handled, and go on running.
    Handled,
    /// End the run with the frame of the trap and this result.
    Stop(DebugFrame, SyscallResult),
}

/// Decides on a frame: a syscall trap is served with the code in `$v0`.
pub fn on_frame(frame: &DebugFrame, guest: &Machine) -> (r: FrameAction)
    requires
        guest.wf(),
    ensures
        frame.mode == ExecutorMode::Invalid(CpuError::CpuSyscall) ==> r == FrameAction::Dispatch(
            guest.registers@[V0_REG as int],
        ),
        frame.mode != ExecutorMode::Invalid(CpuError::CpuSyscall) ==> r == FrameAction::Halt,
{
    match frame.mode {
        ExecutorMode::Invalid(CpuError::CpuSyscall) => FrameAction::Dispatch(guest.reg(V0_REG)),
        _ => FrameAction::Halt,
    }
}

/// Decides after a syscall: only a completed one lets execution go on.
pub fn after_syscall(frame: DebugFrame, result: SyscallResult) -> (r: AfterSyscall)
    ensures
        (r is Handled) <==> (result is Completed),
        !(result is Completed) ==> r == AfterSyscall::Stop(frame, result),
{
    match result {
        SyscallResult::Completed => AfterSyscall::Handled,
        _ => AfterSyscall::Stop(frame, result),
    }
}

} // verus!
