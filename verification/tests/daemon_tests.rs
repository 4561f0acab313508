use netpulse::daemon::{
    daemon_user, error_log_path, info_log_path, parse_pid, pid_file_path, status_of, stop_start,
    stop_step, DaemonStatus, SignalOutcome, StopAction, StopEvent, StopResult, StopState,
    STOP_POLL_TRIES,
};

#[test]
fn parse_pid_reads_a_plain_pid() {
    assert_eq!(parse_pid("1234"), Some(1234));
    assert_eq!(parse_pid("1234\n"), Some(1234));
    assert_eq!(parse_pid("  42 \t\r\n"), Some(42));
    assert_eq!(parse_pid("007"), Some(7));
    assert_eq!(parse_pid("0"), Some(0));
    assert_eq!(parse_pid("2147483647"), Some(i32::MAX));
}

#[test]
fn parse_pid_rejects_what_is_not_a_pid() {
    assert_eq!(parse_pid(""), None);
    assert_eq!(parse_pid("   "), None);
    assert_eq!(parse_pid("abc"), None);
    assert_eq!(parse_pid("12a"), None);
    assert_eq!(parse_pid("-5"), None);
    assert_eq!(parse_pid("12 34"), None);
    assert_eq!(parse_pid("2147483648"), None);
    assert_eq!(parse_pid("99999999999999999999"), None);
}

#[test]
fn status_distinguishes_absent_stale_and_running() {
    assert_eq!(status_of(None, false), DaemonStatus::NotRunning);
    assert_eq!(status_of(None, true), DaemonStatus::NotRunning);
    assert_eq!(status_of(Some(7), true), DaemonStatus::Running(7));
    assert_eq!(status_of(Some(7), false), DaemonStatus::Stale(7));
}

#[test]
fn stop_without_pid_file_reports_not_running() {
    let (state, action) = stop_start();
    assert_eq!(action, StopAction::ReadPidFile);
    let (state, action) = stop_step(state, StopEvent::PidFile(None));
    assert_eq!(action, StopAction::Finish(StopResult::NotRunning));
    assert_eq!(state, StopState::Done(StopResult::NotRunning));
}

#[test]
fn stop_with_prompt_exit_sends_no_kill() {
    let (state, _) = stop_start();
    let (state, action) = stop_step(state, StopEvent::PidFile(Some(9)));
    assert_eq!(action, StopAction::SendTerm(9));
    let (mut state, action) = stop_step(state, StopEvent::Signaled(SignalOutcome::Delivered));
    assert_eq!(action, StopAction::Poll(9));
    let mut kills = 0;
    // Three polls see it alive, the fourth sees it gone.
    for _ in 0..3 {
        let (next, action) = stop_step(state, StopEvent::Alive(true));
        assert_eq!(action, StopAction::Poll(9));
        state = next;
    }
    let (state, action) = stop_step(state, StopEvent::Alive(false));
    if let StopAction::SendKill(_) = action {
        kills += 1;
    }
    assert_eq!(action, StopAction::CheckPidFile);
    let (state, action) = stop_step(state, StopEvent::PidFilePresent(false));
    if let StopAction::SendKill(_) = action {
        kills += 1;
    }
    assert_eq!(action, StopAction::Finish(StopResult::Stopped));
    assert_eq!(state, StopState::Done(StopResult::Stopped));
    assert_eq!(kills, 0);
}

#[test]
fn stop_escalates_exactly_once_after_the_poll_budget() {
    let (state, _) = stop_start();
    let (state, _) = stop_step(state, StopEvent::PidFile(Some(5)));
    let (mut state, _) = stop_step(state, StopEvent::Signaled(SignalOutcome::Delivered));
    let mut kills = 0;
    let mut polls = 1;
    loop {
        let (next, action) = stop_step(state, StopEvent::Alive(true));
        state = next;
        match action {
            StopAction::Poll(_) => polls += 1,
            StopAction::SendKill(5) => {
                kills += 1;
                break;
            }
            other => panic!("unexpected action {:?}", other),
        }
    }
    assert_eq!(polls, STOP_POLL_TRIES);
    let (state, action) = stop_step(state, StopEvent::Killed(SignalOutcome::Delivered));
    assert_eq!(action, StopAction::CheckPidFile);
    // The daemon was killed forcefully, so its stale pid file remains and
    // is cleaned up out-of-band.
    let (state, action) = stop_step(state, StopEvent::PidFilePresent(true));
    assert_eq!(action, StopAction::RemovePidFile);
    let (state, action) = stop_step(state, StopEvent::Removed(true));
    assert_eq!(action, StopAction::Finish(StopResult::Stopped));
    assert_eq!(state, StopState::Done(StopResult::Stopped));
    assert_eq!(kills, 1);
}

#[test]
fn stop_treats_no_such_process_as_already_terminated() {
    let (state, _) = stop_start();
    let (state, _) = stop_step(state, StopEvent::PidFile(Some(3)));
    let (state, action) = stop_step(state, StopEvent::Signaled(SignalOutcome::NoSuchProcess));
    assert_eq!(action, StopAction::CheckPidFile);
    let (_, action) = stop_step(state, StopEvent::PidFilePresent(false));
    assert_eq!(action, StopAction::Finish(StopResult::Stopped));
}

#[test]
fn stop_aborts_on_other_signal_failures() {
    let (state, _) = stop_start();
    let (state, _) = stop_step(state, StopEvent::PidFile(Some(3)));
    let (state, action) = stop_step(state, StopEvent::Signaled(SignalOutcome::Failed));
    assert_eq!(action, StopAction::Finish(StopResult::SignalError));
    assert_eq!(state, StopState::Done(StopResult::SignalError));
}

#[test]
fn stop_kill_failure_still_cleans_up() {
    let (state, _) = stop_start();
    let (state, _) = stop_step(state, StopEvent::PidFile(Some(2)));
    let (mut state, _) = stop_step(state, StopEvent::Signaled(SignalOutcome::Delivered));
    loop {
        let (next, action) = stop_step(state, StopEvent::Alive(true));
        state = next;
        if let StopAction::SendKill(_) = action {
            break;
        }
    }
    let (state, action) = stop_step(state, StopEvent::Killed(SignalOutcome::Failed));
    assert_eq!(action, StopAction::CheckPidFile);
    let (_, action) = stop_step(state, StopEvent::PidFilePresent(false));
    assert_eq!(action, StopAction::Finish(StopResult::Stopped));
}

#[test]
fn stop_rejects_out_of_step_events() {
    let (state, _) = stop_start();
    let (state, action) = stop_step(state, StopEvent::Alive(true));
    assert_eq!(action, StopAction::Finish(StopResult::ProtocolError));
    assert_eq!(state, StopState::Done(StopResult::ProtocolError));
}

#[test]
fn fixed_paths_are_the_daemon_files() {
    assert_eq!(pid_file_path(), "/var/run/netpulse/netpulsed.pid");
    assert_eq!(info_log_path(), "/var/log/netpulse/info.log");
    assert_eq!(error_log_path(), "/var/log/netpulse/error.log");
    assert_eq!(daemon_user(), "netpulse");
}
