//! The decisions of a traced task: what each event that the tracer hands it means, how a
//! signal inside the sandbox is answered, which log messages go out, and how the process
//! is resumed.
use vstd::prelude::*;
use crate::abi;
use crate::protocol::{LogLevel, ToTask, TracerSettings};
use crate::wire_to_sand::log_level_index;

verus! {

/// What the tracer hands a task: a reply from the IPC server, or a stop of its process
/// (the `SIGCHLD` that reported it, its code, and its status).
#[derive(Debug, Copy, Clone, Eq, PartialEq)]
pub enum Event {
    Message(ToTask),
    Signal { sig: u32, code: u32, status: u32 },
}

/// What a task's main loop does with an event.
#[derive(Debug, Copy, Clone, Eq, PartialEq, Structural)]
pub enum TaskStep {
    /// The process forked.
    Fork,
    /// A system call hit the seccomp filter, to be emulated.
    SeccompTrap,
    /// The process stopped on this signal.
    Signal(u8),
    /// The process exited with this status.
    Exited(u32),
    /// No event of this kind is expected here.
    Unexpected,
}

pub open spec fn trapped(sig: u32, code: u32) -> bool {
    sig == abi::SIGCHLD as u32 && code == abi::CLD_TRAPPED
}

/// The step for each event of the main loop.
pub open spec fn step_for(event: Event) -> TaskStep {
    match event {
        Event::Signal { sig, code, status } => if trapped(sig, code) && status
            == abi::PTRACE_SIG_FORK {
            TaskStep::Fork
        } else if trapped(sig, code) && status == abi::PTRACE_SIG_SECCOMP {
            TaskStep::SeccompTrap
        } else if trapped(sig, code) && status < 0x100 {
            TaskStep::Signal(status as u8)
        } else if sig == abi::SIGCHLD as u32 && code == abi::CLD_EXITED {
            TaskStep::Exited(status)
        } else {
            TaskStep::Unexpected
        },
        Event::Message(_) => TaskStep::Unexpected,
    }
}

/// What the main loop does with `event`.
pub fn next_step(event: &Event) -> (r: TaskStep)
    ensures
        r == step_for(*event),
{
    match *event {
        Event::Signal { sig, code, status } => {
            let is_trapped = sig == abi::SIGCHLD as u32 && code == abi::CLD_TRAPPED;
            if is_trapped && status == abi::PTRACE_SIG_FORK {
                TaskStep::Fork
            } else if is_trapped && status == abi::PTRACE_SIG_SECCOMP {
                TaskStep::SeccompTrap
            } else if is_trapped && status < 0x100 {
                TaskStep::Signal(status as u8)
            } else if sig == abi::SIGCHLD as u32 && code == abi::CLD_EXITED {
                TaskStep::Exited(status)
            } else {
                TaskStep::Unexpected
            }
        },
        Event::Message(_) => TaskStep::Unexpected,
    }
}

/// Whether `event` is the first stop of a new task: its process stopped at the exec that
/// started it.
pub fn is_exec_stop(event: &Event) -> (r: bool)
    ensures
        r == (*event matches Event::Signal { sig, code, status } && trapped(sig, code) && status
            == abi::PTRACE_SIG_EXEC),
{
    match *event {
        Event::Signal { sig, code, status } => sig == abi::SIGCHLD as u32 && code
            == abi::CLD_TRAPPED && status == abi::PTRACE_SIG_EXEC,
        Event::Message(_) => false,
    }
}

fn level_rank(level: LogLevel) -> (r: u8)
    ensures
        r == log_level_index(level),
{
    match level {
        LogLevel::Off => 0,
        LogLevel::Error => 1,
        LogLevel::Warn => 2,
        LogLevel::Info => 3,
        LogLevel::Debug => 4,
        LogLevel::Trace => 5,
    }
}

/// Whether a message at `level` goes out under the maximum level `max`: levels rise from
/// `Off` to `Trace`, and a message goes out at or below the maximum.
pub fn log_enabled(level: LogLevel, max: LogLevel) -> (r: bool)
    ensures
        r == (log_level_index(level) <= log_level_index(max)),
{
    level_rank(level) <= level_rank(max)
}

/// The answer to a signal that stopped the process.
#[derive(Debug, Copy, Clone, Eq, PartialEq, Structural)]
pub enum SignalResponse {
    /// A fault inside the sandbox: dump the task's state and stop.
    Crash,
    /// Resume the process, after logging the signal at the given level where that level
    /// is enabled.
    Resume(Option<LogLevel>),
}

/// `SIGSEGV` and `SIGSYS` crash the sandbox; `SIGTRAP` is logged at the maximum level
/// and any other signal at `Trace`, each only where that level is enabled.
pub fn signal_response(signal: u8, settings: TracerSettings) -> (r: SignalResponse)
    ensures
        signal == abi::SIGSEGV || signal == abi::SIGSYS ==> r == SignalResponse::Crash,
        !(signal == abi::SIGSEGV || signal == abi::SIGSYS) ==> ({
            let level = if signal == abi::SIGTRAP {
                settings.max_log_level
            } else {
                LogLevel::Trace
            };
            r == SignalResponse::Resume(
                if log_level_index(level) <= log_level_index(settings.max_log_level) {
                    Some(level)
                } else {
                    None
                },
            )
        }),
{
    if signal == abi::SIGSEGV || signal == abi::SIGSYS {
        return SignalResponse::Crash;
    }
    let level = if signal == abi::SIGTRAP {
        settings.max_log_level
    } else {
        LogLevel::Trace
    };
    if log_enabled(level, settings.max_log_level) {
        SignalResponse::Resume(Some(level))
    } else {
        SignalResponse::Resume(None)
    }
}

/// How a stopped process is resumed.
#[derive(Debug, Copy, Clone, Eq, PartialEq, Structural)]
pub enum Resume {
    SingleStep,
    Continue,
}

/// One instruction at a time where instruction tracing is on, else until the next stop.
pub fn resume_mode(settings: TracerSettings) -> (r: Resume)
    ensures
        settings.instruction_trace ==> r == Resume::SingleStep,
        !settings.instruction_trace ==> r == Resume::Continue,
{
    if settings.instruction_trace {
        Resume::SingleStep
    } else {
        Resume::Continue
    }
}

} // verus!
