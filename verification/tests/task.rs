use bandsocks::protocol::{LogLevel, ProcessHandle, SysFd, ToTask, TracerSettings};
use bandsocks::task::{
    is_exec_stop, log_enabled, next_step, resume_mode, signal_response, Event, Resume,
    SignalResponse, TaskStep,
};

fn stop(status: u32) -> Event {
    Event::Signal { sig: 17, code: 4, status }
}

#[test]
fn main_loop_events() {
    assert_eq!(next_step(&stop(0x105)), TaskStep::Fork);
    assert_eq!(next_step(&stop(0x705)), TaskStep::SeccompTrap);
    assert_eq!(next_step(&stop(11)), TaskStep::Signal(11));
    assert_eq!(next_step(&stop(0x405)), TaskStep::Unexpected);
    assert_eq!(next_step(&Event::Signal { sig: 17, code: 1, status: 3 }), TaskStep::Exited(3));
    assert_eq!(next_step(&Event::Signal { sig: 2, code: 4, status: 5 }), TaskStep::Unexpected);
    let reply = ToTask::OpenProcessReply(ProcessHandle { mem: SysFd(1), maps: SysFd(2) });
    assert_eq!(next_step(&Event::Message(reply)), TaskStep::Unexpected);
}

#[test]
fn first_stop_is_the_exec() {
    assert!(is_exec_stop(&stop(0x405)));
    assert!(!is_exec_stop(&stop(0x105)));
    assert!(!is_exec_stop(&Event::Signal { sig: 17, code: 1, status: 0x405 }));
}

#[test]
fn log_levels() {
    assert!(log_enabled(LogLevel::Error, LogLevel::Warn));
    assert!(log_enabled(LogLevel::Warn, LogLevel::Warn));
    assert!(!log_enabled(LogLevel::Debug, LogLevel::Info));
    assert!(log_enabled(LogLevel::Off, LogLevel::Off));
    assert!(!log_enabled(LogLevel::Error, LogLevel::Off));
}

#[test]
fn signals() {
    let quiet = TracerSettings { max_log_level: LogLevel::Info, instruction_trace: false };
    let loud = TracerSettings { max_log_level: LogLevel::Trace, instruction_trace: true };
    assert_eq!(signal_response(11, quiet), SignalResponse::Crash);
    assert_eq!(signal_response(31, loud), SignalResponse::Crash);
    assert_eq!(signal_response(5, quiet), SignalResponse::Resume(Some(LogLevel::Info)));
    assert_eq!(signal_response(10, quiet), SignalResponse::Resume(None));
    assert_eq!(signal_response(10, loud), SignalResponse::Resume(Some(LogLevel::Trace)));
    assert_eq!(resume_mode(quiet), Resume::Continue);
    assert_eq!(resume_mode(loud), Resume::SingleStep);
}
