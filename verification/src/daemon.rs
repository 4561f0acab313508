//! The daemon supervisor's decision logic: pid-file parsing, the status
//! query, and the stop sequence with its bounded signal escalation.
//!
//! All process and file handling stays outside this library. The caller
//! reads the pid file, sends the signals and polls liveness; this module
//! decides, step by step, which action comes next. The stop sequence is a
//! state machine: the caller performs each [`StopAction`], feeds the
//! observed [`StopEvent`] back in, and stops at [`StopAction::Finish`].

use vstd::prelude::*;
use vstd::string::*;

verus! {

/// The pid file the daemon maintains while it runs.
pub fn pid_file_path() -> (r: &'static str)
    ensures
        r@ == "/var/run/netpulse/netpulsed.pid"@,
{
    "/var/run/netpulse/netpulsed.pid"
}

/// Where the detached daemon's standard output goes.
pub fn info_log_path() -> (r: &'static str)
    ensures
        r@ == "/var/log/netpulse/info.log"@,
{
    "/var/log/netpulse/info.log"
}

/// Where the detached daemon's standard error goes.
pub fn error_log_path() -> (r: &'static str)
    ensures
        r@ == "/var/log/netpulse/error.log"@,
{
    "/var/log/netpulse/error.log"
}

/// The unprivileged account the daemon drops to.
pub fn daemon_user() -> (r: &'static str)
    ensures
        r@ == "netpulse"@,
{
    "netpulse"
}

/// Whether `c` is one of the whitespace characters trimmed off pid-file
/// contents.
pub open spec fn spec_is_ws(c: char) -> bool {
    c == ' ' || c == '\t' || c == '\n' || c == '\r'
}

/// `s` without its leading whitespace.
pub open spec fn spec_trim_start(s: Seq<char>) -> Seq<char>
    decreases s.len(),
{
    if s.len() > 0 && spec_is_ws(s.first()) {
        spec_trim_start(s.drop_first())
    } else {
        s
    }
}

/// `s` without its trailing whitespace.
pub open spec fn spec_trim_end(s: Seq<char>) -> Seq<char>
    decreases s.len(),
{
    if s.len() > 0 && spec_is_ws(s.last()) {
        spec_trim_end(s.drop_last())
    } else {
        s
    }
}

/// `s` without leading and trailing whitespace.
pub open spec fn spec_trim(s: Seq<char>) -> Seq<char> {
    spec_trim_end(spec_trim_start(s))
}

/// Whether `c` is a decimal digit.
pub open spec fn spec_is_digit(c: char) -> bool {
    48 <= c as int <= 57
}

/// Whether every character of `s` is a decimal digit.
pub open spec fn spec_all_digits(s: Seq<char>) -> bool {
    forall|i: int| 0 <= i < s.len() ==> spec_is_digit(#[trigger] s[i])
}

/// The number a digit string stands for.
pub open spec fn spec_digits_val(s: Seq<char>) -> int
    decreases s.len(),
{
    if s.len() == 0 {
        0
    } else {
        spec_digits_val(s.drop_last()) * 10 + (s.last() as int - 48)
    }
}

/// What a pid file's contents parse to: the digits between surrounding
/// whitespace, provided there is at least one, nothing else is left, and
/// the value fits a pid.
pub open spec fn spec_parse_pid(s: Seq<char>) -> Option<i32> {
    let t = spec_trim(s);
    if t.len() > 0 && spec_all_digits(t) && spec_digits_val(t) <= i32::MAX {
        Some(spec_digits_val(t) as i32)
    } else {
        None
    }
}

/// A digit string never stands for a negative number.
proof fn lemma_digits_val_nonneg(s: Seq<char>)
    requires
        spec_all_digits(s),
    ensures
        spec_digits_val(s) >= 0,
    decreases s.len(),
{
    if s.len() > 0 {
        assert(spec_all_digits(s.drop_last()));
        lemma_digits_val_nonneg(s.drop_last());
    }
}

/// A prefix of a digit string never stands for more than the whole.
proof fn lemma_digits_prefix_le(s: Seq<char>, i: int)
    requires
        spec_all_digits(s),
        0 <= i <= s.len(),
    ensures
        spec_digits_val(s.take(i)) <= spec_digits_val(s),
    decreases s.len(),
{
    if i == s.len() {
        assert(s.take(i) =~= s);
    } else {
        assert(spec_all_digits(s.drop_last()));
        assert(s.take(i) =~= s.drop_last().take(i));
        lemma_digits_prefix_le(s.drop_last(), i);
        lemma_digits_val_nonneg(s.drop_last());
    }
}

/// Whether `c` is one of the whitespace characters trimmed off pid-file
/// contents.
fn is_ws(c: char) -> (r: bool)
    ensures
        r == spec_is_ws(c),
{
    c == ' ' || c == '\t' || c == '\n' || c == '\r'
}

/// Parses a pid file's contents: the decimal process id between
/// surrounding whitespace, or nothing when the contents are not a single
/// pid-sized number. Only plain digits are accepted: a signed value is no
/// pid, and a negative number handed to the signal step would address a
/// whole process group.
pub fn parse_pid(content: &str) -> (r: Option<i32>)
    ensures
        r == spec_parse_pid(content@),
{
    let n = content.unicode_len();
    let mut a: usize = 0;
    proof {
        assert(content@.skip(0) =~= content@);
    }
    while a < n && is_ws(content.get_char(a))
        invariant
            n == content@.len(),
            0 <= a <= n,
            spec_trim_start(content@) == spec_trim_start(content@.skip(a as int)),
        decreases n - a,
    {
        proof {
            assert(content@.skip(a as int).first() == content@[a as int]);
            assert(content@.skip(a as int).drop_first() =~= content@.skip(a + 1));
        }
        a = a + 1;
    }
    proof {
        if a < n {
            assert(content@.skip(a as int).first() == content@[a as int]);
        }
        assert(spec_trim_start(content@) == content@.skip(a as int));
    }
    let mut b: usize = n;
    proof {
        assert(content@.skip(a as int).take(n - a) =~= content@.skip(a as int));
    }
    while b > a && is_ws(content.get_char(b - 1))
        invariant
            n == content@.len(),
            0 <= a <= b <= n,
            spec_trim_start(content@) == content@.skip(a as int),
            spec_trim_end(content@.skip(a as int)) == spec_trim_end(content@.skip(a as int).take(b - a)),
        decreases b,
    {
        proof {
            let t = content@.skip(a as int).take(b - a);
            assert(t.last() == content@[b - 1]);
            assert(t.drop_last() =~= content@.skip(a as int).take(b - 1 - a));
        }
        b = b - 1;
    }
    let ghost t = spec_trim(content@);
    proof {
        let cur = content@.skip(a as int).take(b - a);
        if b > a {
            assert(cur.last() == content@[b - 1]);
        }
        assert(spec_trim_end(cur) == cur);
        assert(t == cur);
    }
    if b == a {
        proof {
            assert(t.len() == 0);
        }
        return None;
    }
    let mut acc: u64 = 0;
    let mut q: usize = a;
    while q < b
        invariant
            n == content@.len(),
            0 <= a <= q <= b <= n,
            t == spec_trim(content@),
            t == content@.skip(a as int).take(b - a),
            spec_all_digits(t.take(q - a)),
            acc == spec_digits_val(t.take(q - a)),
            acc <= i32::MAX as u64,
        decreases b - q,
    {
        let c = content.get_char(q);
        let u = c as u32;
        proof {
            assert(t[q - a] == content@[q as int]);
            assert(t.take(q + 1 - a).drop_last() =~= t.take(q - a));
            assert(t.take(q + 1 - a).last() == t[q - a]);
        }
        if u < 48 || u > 57 {
            proof {
                assert(t.len() == b - a);
                assert(0 <= q - a < t.len());
                assert(t[q - a] == content@[q as int]);
                assert(!spec_is_digit(t[q - a]));
                assert(!spec_all_digits(t));
                assert(spec_parse_pid(content@) == None::<i32>);
            }
            return None;
        }
        acc = acc * 10 + ((u - 48) as u64);
        if acc > i32::MAX as u64 {
            proof {
                if spec_all_digits(t) {
                    lemma_digits_prefix_le(t, q + 1 - a);
                    assert(spec_digits_val(t) >= spec_digits_val(t.take(q + 1 - a)));
                }
            }
            return None;
        }
        q = q + 1;
    }
    proof {
        assert(t.take(b - a) =~= t);
    }
    Some(acc as i32)
}

/// What a status query found.
#[derive(Clone, Copy, Debug, PartialEq, Eq, Structural)]
pub enum DaemonStatus {
    /// No pid file: the daemon is not running.
    NotRunning,
    /// The pid file names this pid and the process is alive.
    Running(i32),
    /// The pid file names this pid but no such process is alive.
    Stale(i32),
}

/// Decides the daemon's status from the pid file's contents and the
/// observed liveness of the named process: no pid file, a live daemon,
/// and a stale pid file are three distinct answers.
pub fn status_of(pid_file: Option<i32>, alive: bool) -> (r: DaemonStatus)
    ensures
        pid_file is None ==> r == DaemonStatus::NotRunning,
        pid_file matches Some(p) ==> (alive ==> r == DaemonStatus::Running(p)) && (!alive ==> r
            == DaemonStatus::Stale(p)),
{
    match pid_file {
        None => DaemonStatus::NotRunning,
        Some(p) => {
            if alive {
                DaemonStatus::Running(p)
            } else {
                DaemonStatus::Stale(p)
            }
        },
    }
}

/// How many liveness polls the stop sequence makes before it escalates:
/// the bounded timeout, counted in poll intervals.
pub const STOP_POLL_TRIES: u32 = 250;

/// How long the caller waits between two liveness polls, in milliseconds.
pub const STOP_POLL_INTERVAL_MS: u64 = 20;

/// What delivering a signal came to.
#[derive(Clone, Copy, Debug, PartialEq, Eq, Structural)]
pub enum SignalOutcome {
    /// The signal was delivered.
    Delivered,
    /// No such process: the target is already gone.
    NoSuchProcess,
    /// Delivery failed for any other reason.
    Failed,
}

/// What the caller observed while performing the last action.
#[derive(Clone, Copy, Debug, PartialEq, Eq, Structural)]
pub enum StopEvent {
    /// The pid file's contents, parsed; `None` when absent or unreadable.
    PidFile(Option<i32>),
    /// What sending the graceful signal came to.
    Signaled(SignalOutcome),
    /// Whether the target was still alive at this poll.
    Alive(bool),
    /// What sending the forceful signal came to.
    Killed(SignalOutcome),
    /// Whether the pid file still exists after termination.
    PidFilePresent(bool),
    /// Whether removing the stale pid file worked.
    Removed(bool),
}

/// How a finished stop sequence ended.
#[derive(Clone, Copy, Debug, PartialEq, Eq, Structural)]
pub enum StopResult {
    /// There was no pid file: nothing to stop.
    NotRunning,
    /// The daemon is down (gracefully or after escalation).
    Stopped,
    /// Sending the graceful signal failed for a reason other than "no
    /// such process": the sequence aborts.
    SignalError,
    /// The caller fed an event the current state does not expect.
    ProtocolError,
}

/// What the caller must do next.
#[derive(Clone, Copy, Debug, PartialEq, Eq, Structural)]
pub enum StopAction {
    /// Read and parse the pid file.
    ReadPidFile,
    /// Send the graceful termination signal to this pid.
    SendTerm(i32),
    /// Wait one poll interval, then observe this pid's liveness.
    Poll(i32),
    /// Send the forceful termination signal to this pid.
    SendKill(i32),
    /// Check whether the pid file still exists.
    CheckPidFile,
    /// Remove the stale pid file and warn that it was left behind.
    RemovePidFile,
    /// The sequence is over with this result.
    Finish(StopResult),
}

/// Where the stop sequence stands.
#[derive(Clone, Copy, Debug, PartialEq, Eq, Structural)]
pub enum StopState {
    /// Waiting for the pid file's contents.
    ReadingPid,
    /// Waiting for the graceful signal's outcome.
    Terming(i32),
    /// Waiting for a liveness poll, with this many polls left.
    Polling(i32, u32),
    /// Waiting for the forceful signal's outcome.
    Killing(i32),
    /// Waiting to hear whether the pid file is still there.
    CheckingFile,
    /// Waiting for the pid file removal's outcome.
    RemovingFile,
    /// Finished.
    Done(StopResult),
}

/// One step of the stop sequence: from the current state and the observed
/// event to the next state and the next action.
///
/// A missing pid file ends the sequence at once, with no error. A
/// graceful signal answered by "no such process" counts as terminated.
/// Any other delivery failure is fatal. While polls are left, a live
/// target is polled again; when the budget runs out the one forceful
/// signal is sent. After termination, a pid file that is still there is
/// removed. A kill or removal failure is reported by the caller but does
/// not change the outcome.
pub open spec fn spec_stop_step(s: StopState, e: StopEvent) -> (StopState, StopAction) {
    match (s, e) {
        (StopState::ReadingPid, StopEvent::PidFile(None)) => (
            StopState::Done(StopResult::NotRunning),
            StopAction::Finish(StopResult::NotRunning),
        ),
        (StopState::ReadingPid, StopEvent::PidFile(Some(p))) => (
            StopState::Terming(p),
            StopAction::SendTerm(p),
        ),
        (StopState::Terming(p), StopEvent::Signaled(SignalOutcome::Delivered)) => (
            StopState::Polling(p, STOP_POLL_TRIES),
            StopAction::Poll(p),
        ),
        (StopState::Terming(p), StopEvent::Signaled(SignalOutcome::NoSuchProcess)) => (
            StopState::CheckingFile,
            StopAction::CheckPidFile,
        ),
        (StopState::Terming(p), StopEvent::Signaled(SignalOutcome::Failed)) => (
            StopState::Done(StopResult::SignalError),
            StopAction::Finish(StopResult::SignalError),
        ),
        (StopState::Polling(p, n), StopEvent::Alive(false)) => (
            StopState::CheckingFile,
            StopAction::CheckPidFile,
        ),
        (StopState::Polling(p, n), StopEvent::Alive(true)) => if n <= 1 {
            (StopState::Killing(p), StopAction::SendKill(p))
        } else {
            (StopState::Polling(p, (n - 1) as u32), StopAction::Poll(p))
        },
        (StopState::Killing(p), StopEvent::Killed(o)) => (
            StopState::CheckingFile,
            StopAction::CheckPidFile,
        ),
        (StopState::CheckingFile, StopEvent::PidFilePresent(false)) => (
            StopState::Done(StopResult::Stopped),
            StopAction::Finish(StopResult::Stopped),
        ),
        (StopState::CheckingFile, StopEvent::PidFilePresent(true)) => (
            StopState::RemovingFile,
            StopAction::RemovePidFile,
        ),
        (StopState::RemovingFile, StopEvent::Removed(o)) => (
            StopState::Done(StopResult::Stopped),
            StopAction::Finish(StopResult::Stopped),
        ),
        (StopState::Done(res), _) => (StopState::Done(res), StopAction::Finish(res)),
        _ => (
            StopState::Done(StopResult::ProtocolError),
            StopAction::Finish(StopResult::ProtocolError),
        ),
    }
}

/// Where the stop sequence starts, and its first action.
pub fn stop_start() -> (r: (StopState, StopAction))
    ensures
        r == (StopState::ReadingPid, StopAction::ReadPidFile),
{
    (StopState::ReadingPid, StopAction::ReadPidFile)
}

/// One step of the stop sequence; see [`spec_stop_step`].
pub fn stop_step(s: StopState, e: StopEvent) -> (r: (StopState, StopAction))
    ensures
        r == spec_stop_step(s, e),
{
    match (s, e) {
        (StopState::ReadingPid, StopEvent::PidFile(None)) => (
            StopState::Done(StopResult::NotRunning),
            StopAction::Finish(StopResult::NotRunning),
        ),
        (StopState::ReadingPid, StopEvent::PidFile(Some(p))) => (
            StopState::Terming(p),
            StopAction::SendTerm(p),
        ),
        (StopState::Terming(p), StopEvent::Signaled(SignalOutcome::Delivered)) => (
            StopState::Polling(p, STOP_POLL_TRIES),
            StopAction::Poll(p),
        ),
        (StopState::Terming(p), StopEvent::Signaled(SignalOutcome::NoSuchProcess)) => (
            StopState::CheckingFile,
            StopAction::CheckPidFile,
        ),
        (StopState::Terming(_), StopEvent::Signaled(SignalOutcome::Failed)) => (
            StopState::Done(StopResult::SignalError),
            StopAction::Finish(StopResult::SignalError),
        ),
        (StopState::Polling(_, _), StopEvent::Alive(false)) => (
            StopState::CheckingFile,
            StopAction::CheckPidFile,
        ),
        (StopState::Polling(p, n), StopEvent::Alive(true)) => {
            if n <= 1 {
                (StopState::Killing(p), StopAction::SendKill(p))
            } else {
                (StopState::Polling(p, n - 1), StopAction::Poll(p))
            }
        },
        (StopState::Killing(_), StopEvent::Killed(_)) => (
            StopState::CheckingFile,
            StopAction::CheckPidFile,
        ),
        (StopState::CheckingFile, StopEvent::PidFilePresent(false)) => (
            StopState::Done(StopResult::Stopped),
            StopAction::Finish(StopResult::Stopped),
        ),
        (StopState::CheckingFile, StopEvent::PidFilePresent(true)) => (
            StopState::RemovingFile,
            StopAction::RemovePidFile,
        ),
        (StopState::RemovingFile, StopEvent::Removed(_)) => (
            StopState::Done(StopResult::Stopped),
            StopAction::Finish(StopResult::Stopped),
        ),
        (StopState::Done(res), _) => (StopState::Done(res), StopAction::Finish(res)),
        _ => (
            StopState::Done(StopResult::ProtocolError),
            StopAction::Finish(StopResult::ProtocolError),
        ),
    }
}

/// The actions the stop sequence takes from state `s` on a whole event
/// trace, in order.
pub open spec fn spec_stop_run(s: StopState, events: Seq<StopEvent>) -> Seq<StopAction>
    decreases events.len(),
{
    if events.len() == 0 {
        Seq::empty()
    } else {
        let step = spec_stop_step(s, events.first());
        seq![step.1] + spec_stop_run(step.0, events.drop_first())
    }
}

/// How many forceful signals an action trace sends.
pub open spec fn spec_kill_count(actions: Seq<StopAction>) -> nat
    decreases actions.len(),
{
    if actions.len() == 0 {
        0
    } else {
        (if actions.first() is SendKill {
            1nat
        } else {
            0nat
        }) + spec_kill_count(actions.drop_first())
    }
}

/// An action trace without a forceful signal counts none.
proof fn lemma_kill_count_kill_free(actions: Seq<StopAction>)
    requires
        forall|i: int| 0 <= i < actions.len() ==> !((#[trigger] actions[i]) is SendKill),
    ensures
        spec_kill_count(actions) == 0,
    decreases actions.len(),
{
    if actions.len() > 0 {
        assert(!(actions.first() is SendKill));
        lemma_kill_count_kill_free(actions.drop_first());
    }
}

/// Once the stop sequence has reached cleanup (the target is observed
/// down, or the sequence is over), no trace of further events ever sends
/// a forceful signal.
pub proof fn lemma_no_kill_after_cleanup(s: StopState, events: Seq<StopEvent>)
    requires
        s is CheckingFile || s is RemovingFile || s is Done,
    ensures
        spec_kill_count(spec_stop_run(s, events)) == 0,
    decreases events.len(),
{
    if events.len() > 0 {
        let step = spec_stop_step(s, events.first());
        let actions = spec_stop_run(s, events);
        assert(actions == seq![step.1] + spec_stop_run(step.0, events.drop_first()));
        assert(actions.first() == step.1);
        assert(actions.drop_first() =~= spec_stop_run(step.0, events.drop_first()));
        lemma_no_kill_after_cleanup(step.0, events.drop_first());
    }
}

/// If the target exits within the poll budget, the stop sequence never
/// sends a forceful signal, whatever happens afterwards.
pub proof fn lemma_stop_no_force_when_exits(p: i32, n: u32, j: int, rest: Seq<StopEvent>)
    requires
        0 <= j < n,
    ensures
        spec_kill_count(
            spec_stop_run(
                StopState::Polling(p, n),
                Seq::new(j as nat, |k: int| StopEvent::Alive(true)) + seq![StopEvent::Alive(false)]
                    + rest,
            ),
        ) == 0,
    decreases j,
{
    let events = Seq::new(j as nat, |k: int| StopEvent::Alive(true)) + seq![
        StopEvent::Alive(false),
    ] + rest;
    let step = spec_stop_step(StopState::Polling(p, n), events.first());
    let actions = spec_stop_run(StopState::Polling(p, n), events);
    assert(actions == seq![step.1] + spec_stop_run(step.0, events.drop_first()));
    assert(actions.first() == step.1);
    assert(actions.drop_first() =~= spec_stop_run(step.0, events.drop_first()));
    if j == 0 {
        assert(events.first() == StopEvent::Alive(false));
        assert(step.0 is CheckingFile);
        lemma_no_kill_after_cleanup(step.0, events.drop_first());
    } else {
        assert(events.first() == StopEvent::Alive(true));
        assert(n > 1);
        assert(step.0 == StopState::Polling(p, (n - 1) as u32));
        assert(events.drop_first() =~= Seq::new((j - 1) as nat, |k: int| StopEvent::Alive(true))
            + seq![StopEvent::Alive(false)] + rest);
        lemma_stop_no_force_when_exits(p, (n - 1) as u32, j - 1, rest);
    }
}

/// If the target never exits, the stop sequence sends exactly one
/// forceful signal, only after the whole poll budget has elapsed, and a
/// pid file found lying around afterwards is removed before the sequence
/// finishes.
pub proof fn lemma_stop_force_once_on_timeout(p: i32, n: u32, ko: SignalOutcome, removed: bool)
    requires
        n >= 1,
    ensures
        spec_stop_run(
            StopState::Polling(p, n),
            Seq::new(n as nat, |k: int| StopEvent::Alive(true)) + seq![
                StopEvent::Killed(ko),
                StopEvent::PidFilePresent(true),
                StopEvent::Removed(removed),
            ],
        ) == Seq::new((n - 1) as nat, |k: int| StopAction::Poll(p)) + seq![
            StopAction::SendKill(p),
            StopAction::CheckPidFile,
            StopAction::RemovePidFile,
            StopAction::Finish(StopResult::Stopped),
        ],
        spec_kill_count(
            spec_stop_run(
                StopState::Polling(p, n),
                Seq::new(n as nat, |k: int| StopEvent::Alive(true)) + seq![
                    StopEvent::Killed(ko),
                    StopEvent::PidFilePresent(true),
                    StopEvent::Removed(removed),
                ],
            ),
        ) == 1,
    decreases n,
{
    let tail = seq![
        StopEvent::Killed(ko),
        StopEvent::PidFilePresent(true),
        StopEvent::Removed(removed),
    ];
    let events = Seq::new(n as nat, |k: int| StopEvent::Alive(true)) + tail;
    let step = spec_stop_step(StopState::Polling(p, n), events.first());
    let actions = spec_stop_run(StopState::Polling(p, n), events);
    assert(events.first() == StopEvent::Alive(true));
    assert(actions == seq![step.1] + spec_stop_run(step.0, events.drop_first()));
    if n == 1 {
        assert(step == (StopState::Killing(p), StopAction::SendKill(p)));
        assert(events.drop_first() =~= tail);
        assert(tail.first() == StopEvent::Killed(ko));
        let t2 = tail.drop_first();
        assert(t2.first() == StopEvent::PidFilePresent(true));
        let t3 = t2.drop_first();
        assert(t3.first() == StopEvent::Removed(removed));
        let t4 = t3.drop_first();
        assert(t4.len() == 0);
        assert(spec_stop_run(StopState::Killing(p), tail) == seq![StopAction::CheckPidFile]
            + spec_stop_run(StopState::CheckingFile, t2));
        assert(spec_stop_run(StopState::CheckingFile, t2) == seq![StopAction::RemovePidFile]
            + spec_stop_run(StopState::RemovingFile, t3));
        assert(spec_stop_run(StopState::RemovingFile, t3) == seq![
            StopAction::Finish(StopResult::Stopped),
        ] + spec_stop_run(StopState::Done(StopResult::Stopped), t4));
        assert(spec_stop_run(StopState::Done(StopResult::Stopped), t4) == Seq::<
            StopAction,
        >::empty());
        assert(actions =~= Seq::new(0nat, |k: int| StopAction::Poll(p)) + seq![
            StopAction::SendKill(p),
            StopAction::CheckPidFile,
            StopAction::RemovePidFile,
            StopAction::Finish(StopResult::Stopped),
        ]);
        assert(actions.first() == StopAction::SendKill(p));
        let rest3 = actions.drop_first();
        assert(rest3 =~= seq![
            StopAction::CheckPidFile,
            StopAction::RemovePidFile,
            StopAction::Finish(StopResult::Stopped),
        ]);
        assert(forall|i: int| 0 <= i < rest3.len() ==> !((#[trigger] rest3[i]) is SendKill));
        lemma_kill_count_kill_free(rest3);
        assert(spec_kill_count(actions) == 1);
    } else {
        assert(step == (StopState::Polling(p, (n - 1) as u32), StopAction::Poll(p)));
        assert(events.drop_first() =~= Seq::new((n - 1) as nat, |k: int| StopEvent::Alive(true))
            + tail);
        lemma_stop_force_once_on_timeout(p, (n - 1) as u32, ko, removed);
        assert(actions =~= Seq::new((n - 1) as nat, |k: int| StopAction::Poll(p)) + seq![
            StopAction::SendKill(p),
            StopAction::CheckPidFile,
            StopAction::RemovePidFile,
            StopAction::Finish(StopResult::Stopped),
        ]);
        assert(actions.first() == StopAction::Poll(p));
        assert(actions.drop_first() =~= spec_stop_run(step.0, events.drop_first()));
        assert(spec_kill_count(actions) == spec_kill_count(actions.drop_first()));
    }
}

} // verus!
