//! Decisions of the service host: supervising the hosted process (restart
//! after abnormal exits, at most three times in a row), hook commands and the
//! texts the host logs about them.

use vstd::prelude::*;
use crate::scm::{SERVICE_RUNNING, SERVICE_START_PENDING, SERVICE_STOPPED, SERVICE_STOP_PENDING};
use crate::encoding::{decimal, decimal_chars, signed_decimal, signed_decimal_chars};
use crate::template::{f, fill, str_views};
use crate::text::{chars_of, extend, string_from_chars, sub_vec};

verus! {

/// Abnormal exits after which the host restarts the process, in a row.
pub const MAX_RESTART_ATTEMPTS: i32 = 3;

/// What the host remembers between polls of its child process.
#[derive(Clone, Copy, Debug)]
pub struct HostState {
    /// Non-zero exits answered by a restart since the last stop.
    pub consecutive_failures: i32,
    /// Whether the host is stopping (no exit may be handled twice).
    pub stopping: bool,
    /// Exit code of the last child that exited (-1 before any).
    pub last_child_exit_code: i32,
    /// Process id of the last child started (0 before any).
    pub last_child_pid: u32,
}

impl HostState {
    /// The range that the restart counter stays in.
    pub open spec fn wf(&self) -> bool {
        0 <= self.consecutive_failures <= MAX_RESTART_ATTEMPTS
    }

    /// The state of a host that has not started a child yet.
    pub fn new() -> (r: Self)
        ensures
            r.consecutive_failures == 0,
            !r.stopping,
            r.last_child_exit_code == -1,
            r.last_child_pid == 0,
            r.wf(),
    {
        HostState { consecutive_failures: 0, stopping: false, last_child_exit_code: -1, last_child_pid: 0 }
    }
}

/// What a poll found out about the child process.
#[derive(Clone, Copy, Debug, PartialEq, Eq)]
pub enum ChildStatus {
    /// Still running.
    Running,
    /// Exited with this code (-1 when it has none).
    Exited(i32),
    /// Its state could not be queried.
    Unknown,
    /// There is no child.
    Missing,
}

/// What the host does after a poll.
#[derive(Clone, Copy, Debug, PartialEq, Eq)]
pub enum TickAction {
    /// Keep serving; poll again later.
    Continue,
    /// The service should end; nothing more to do here.
    Quit,
    /// Start the child again, then report the outcome with `restart_outcome`.
    Restart,
    /// Stop the host (stop the child, run the post-stop hook), then end.
    StopHost,
}

/// The state and action after a poll: a host already stopping, or whose
/// child is missing or cannot be queried, quits; a running child changes
/// nothing; an exit is recorded and marks the host stopping, then a non-zero
/// exit with fewer than three restarts in a row counts one more and restarts,
/// and any other exit resets the count and stops the host.
pub open spec fn tick_of(s: HostState, status: ChildStatus) -> (HostState, TickAction) {
    if s.stopping {
        (s, TickAction::Quit)
    } else {
        match status {
            ChildStatus::Running => (s, TickAction::Continue),
            ChildStatus::Unknown => (s, TickAction::Quit),
            ChildStatus::Missing => (s, TickAction::Quit),
            ChildStatus::Exited(code) => {
                let s1 = HostState { last_child_exit_code: code, stopping: true, ..s };
                if code != 0 && s.consecutive_failures < MAX_RESTART_ATTEMPTS {
                    (
                        HostState { consecutive_failures: (s.consecutive_failures + 1) as i32, ..s1 },
                        TickAction::Restart,
                    )
                } else {
                    (HostState { consecutive_failures: 0, ..s1 }, TickAction::StopHost)
                }
            },
        }
    }
}

/// One poll of the child process (the decisions of `ServiceHost::tick`).
pub fn tick_step(s: HostState, status: ChildStatus) -> (r: (HostState, TickAction))
    requires
        s.wf(),
    ensures
        r == tick_of(s, status),
        r.0.wf(),
{
    if s.stopping {
        return (s, TickAction::Quit);
    }
    match status {
        ChildStatus::Running => (s, TickAction::Continue),
        ChildStatus::Unknown => (s, TickAction::Quit),
        ChildStatus::Missing => (s, TickAction::Quit),
        ChildStatus::Exited(code) => {
            let s1 = HostState { last_child_exit_code: code, stopping: true, ..s };
            if code != 0 && s.consecutive_failures < MAX_RESTART_ATTEMPTS {
                (
                    HostState { consecutive_failures: s.consecutive_failures + 1, ..s1 },
                    TickAction::Restart,
                )
            } else {
                (HostState { consecutive_failures: 0, ..s1 }, TickAction::StopHost)
            }
        },
    }
}

/// After a restart attempt: success clears the stopping mark and keeps
/// serving; failure resets the count and stops the host.
pub open spec fn restart_outcome_of(s: HostState, started: bool) -> (HostState, TickAction) {
    if started {
        (HostState { stopping: false, ..s }, TickAction::Continue)
    } else {
        (HostState { consecutive_failures: 0, ..s }, TickAction::StopHost)
    }
}

/// Applies the outcome of a restart attempt.
pub fn restart_outcome(s: HostState, started: bool) -> (r: (HostState, TickAction))
    requires
        s.wf(),
    ensures
        r == restart_outcome_of(s, started),
        r.0.wf(),
{
    if started {
        (HostState { stopping: false, ..s }, TickAction::Continue)
    } else {
        (HostState { consecutive_failures: 0, ..s }, TickAction::StopHost)
    }
}

/// Records a started child.
pub fn child_started(s: HostState, pid: u32) -> (r: HostState)
    ensures
        r == (HostState { last_child_pid: pid, ..s }),
{
    HostState { last_child_pid: pid, ..s }
}

/// Marks the host as stopping (stop or shutdown from the service manager).
pub fn begin_stop(s: HostState) -> (r: HostState)
    ensures
        r == (HostState { stopping: true, ..s }),
{
    HostState { stopping: true, ..s }
}

// ==================== laws ====================

/// Number of restarts before the host stops, when the child exits with each
/// code of `codes` in turn and every restart succeeds.
pub open spec fn restarts_before_stop(s: HostState, codes: Seq<i32>) -> nat
    decreases codes.len(),
{
    if codes.len() == 0 {
        0
    } else {
        let (s1, a) = tick_of(s, ChildStatus::Exited(codes[0]));
        if a == TickAction::Restart {
            let (s2, _) = restart_outcome_of(s1, true);
            1 + restarts_before_stop(s2, codes.drop_first())
        } else {
            0
        }
    }
}

/// Every step keeps the restart counter between 0 and three.
pub proof fn lemma_steps_keep_wf(s: HostState, status: ChildStatus, started: bool)
    requires
        s.wf(),
    ensures
        tick_of(s, status).0.wf(),
        restart_outcome_of(tick_of(s, status).0, started).0.wf(),
{
}

/// A child that keeps exiting abnormally is restarted at most three times in
/// a row (fewer when restarts were already counted); then the host stops.
pub proof fn lemma_restarts_bounded(s: HostState, codes: Seq<i32>)
    requires
        s.wf(),
        !s.stopping,
    ensures
        restarts_before_stop(s, codes) <= MAX_RESTART_ATTEMPTS - s.consecutive_failures,
    decreases codes.len(),
{
    if codes.len() > 0 {
        let (s1, a) = tick_of(s, ChildStatus::Exited(codes[0]));
        if a == TickAction::Restart {
            let (s2, _) = restart_outcome_of(s1, true);
            lemma_restarts_bounded(s2, codes.drop_first());
        }
    }
}

/// A normal exit (code 0) is never answered by a restart.
pub proof fn lemma_clean_exit_stops(s: HostState)
    requires
        !s.stopping,
    ensures
        tick_of(s, ChildStatus::Exited(0)).1 == TickAction::StopHost,
        tick_of(s, ChildStatus::Exited(0)).0.consecutive_failures == 0,
{
}

/// Every abnormal exit (any non-zero code, negative ones such as crash codes
/// and -1 included) of a child of a running host that has restarted fewer
/// than three times in a row is answered by a restart, which counts one more
/// failure and remembers the exit code; once three restarts were counted,
/// the host stops instead.
pub proof fn lemma_abnormal_exit_restarts(s: HostState, code: i32)
    requires
        s.wf(),
        !s.stopping,
        code != 0,
    ensures
        s.consecutive_failures < 3 ==> tick_of(s, ChildStatus::Exited(code)).1 == TickAction::Restart
            && tick_of(s, ChildStatus::Exited(code)).0.consecutive_failures == s.consecutive_failures + 1
            && tick_of(s, ChildStatus::Exited(code)).0.last_child_exit_code == code,
        s.consecutive_failures >= 3 ==> tick_of(s, ChildStatus::Exited(code)).1 == TickAction::StopHost,
{
}

/// Only an exit changes the host's state: a child still running is left
/// alone, and a child that is missing or whose state cannot be read ends the
/// loop without a restart.
pub proof fn lemma_only_exits_change_state(s: HostState, status: ChildStatus)
    requires
        !(status is Exited),
    ensures
        tick_of(s, status).0 == s,
        tick_of(s, status).1 != TickAction::Restart,
        !s.stopping && status == ChildStatus::Running ==> tick_of(s, status).1 == TickAction::Continue,
{
}

/// Once stopping, a poll does nothing: an exit is never handled twice.
pub proof fn lemma_stopping_is_final(s: HostState, status: ChildStatus)
    requires
        s.stopping,
    ensures
        tick_of(s, status) == (s, TickAction::Quit),
{
}

// ==================== hooks ====================

/// The argument that runs a hook command through `cmd.exe /d /c`: the
/// command in double quotes; none when no command, or a blank one, is set.
pub open spec fn hook_argument_of(command: Option<Seq<char>>) -> Option<Seq<char>> {
    match command {
        None => None,
        Some(c) => if crate::text::trim(c).len() == 0 {
            None
        } else {
            Some(seq!['"'] + c + seq!['"'])
        },
    }
}

/// The quoted command argument for a hook, if the hook is to run.
pub fn hook_argument(command: Option<&str>) -> (r: Option<String>)
    ensures
        match r {
            Some(a) => hook_argument_of(
                match command {
                    Some(c) => Some(c@),
                    None => None,
                },
            ) == Some(a@),
            None => hook_argument_of(
                match command {
                    Some(c) => Some(c@),
                    None => None,
                },
            ) is None,
        },
{
    let c = match command {
        None => {
            return None;
        },
        Some(c) => c,
    };
    if crate::config::is_blank(c) {
        return None;
    }
    let mut v: Vec<char> = Vec::new();
    v.push('"');
    extend(&mut v, &chars_of(c));
    v.push('"');
    assert(v@ =~= seq!['"'] + c@ + seq!['"']);
    Some(string_from_chars(&v))
}

/// The line logged when a hook finished: timed out (`None`) with the timeout
/// in whole seconds, completed with code 0, or exited with another code.
pub open spec fn hook_result_message_of(phase: Seq<char>, exit: Option<i32>, timeout_ms: u64) -> Seq<
    char,
> {
    match exit {
        None => fill(
            "Hook [{0}] timed out after {1}s, killing"@,
            seq![phase, decimal((timeout_ms / 1000) as nat)],
            2,
        ),
        Some(code) => if code == 0 {
            fill("Hook [{0}] completed (code 0)"@, seq![phase], 1)
        } else {
            fill(
                "Hook [{0}] exited with code {1} (non-fatal)"@,
                seq![phase, signed_decimal(code as int)],
                2,
            )
        },
    }
}

/// What waiting for a hook does next.
#[derive(Clone, Copy, Debug, PartialEq, Eq, Structural)]
pub enum HookWait {
    /// The hook is over: its exit code (-1 when it has none or its state
    /// could not be read), or none when it ran out of time and is killed.
    Done(Option<i32>),
    /// Poll again after a short sleep.
    Wait,
}

/// One poll of a running hook: an exit ends the wait with its code, a state
/// that cannot be read with -1, and a hook still running once `elapsed_ms`
/// reached `timeout_ms` with a timeout.
pub open spec fn hook_wait_of(status: ChildStatus, elapsed_ms: u64, timeout_ms: u64) -> HookWait {
    match status {
        ChildStatus::Exited(code) => HookWait::Done(Some(code)),
        ChildStatus::Running => if elapsed_ms >= timeout_ms {
            HookWait::Done(None)
        } else {
            HookWait::Wait
        },
        _ => HookWait::Done(Some(-1i32)),
    }
}

/// Decides one poll of a running hook.
pub fn hook_wait_step(status: ChildStatus, elapsed_ms: u64, timeout_ms: u64) -> (r: HookWait)
    ensures
        r == hook_wait_of(status, elapsed_ms, timeout_ms),
{
    match status {
        ChildStatus::Exited(code) => HookWait::Done(Some(code)),
        ChildStatus::Running => if elapsed_ms >= timeout_ms {
            HookWait::Done(None)
        } else {
            HookWait::Wait
        },
        _ => HookWait::Done(Some(-1)),
    }
}

/// The log line for a finished hook.
pub fn hook_result_message(phase: &str, exit: Option<i32>, timeout_ms: u64) -> (r: String)
    ensures
        r@ == hook_result_message_of(phase@, exit, timeout_ms),
{
    match exit {
        None => {
            let secs = string_from_chars(&decimal_chars(timeout_ms / 1000));
            let args: [&str; 2] = [phase, secs.as_str()];
            assert(str_views(args@) =~= seq![phase@, decimal((timeout_ms / 1000) as nat)]);
            f("Hook [{0}] timed out after {1}s, killing", &args)
        },
        Some(code) => {
            if code == 0 {
                let args: [&str; 1] = [phase];
                assert(str_views(args@) =~= seq![phase@]);
                f("Hook [{0}] completed (code 0)", &args)
            } else {
                let c = string_from_chars(&signed_decimal_chars(code));
                let args: [&str; 2] = [phase, c.as_str()];
                assert(str_views(args@) =~= seq![phase@, signed_decimal(code as int)]);
                f("Hook [{0}] exited with code {1} (non-fatal)", &args)
            }
        },
    }
}

/// The environment given to the post-stop hook: the last child's process id
/// and exit code, once a child was started.
pub open spec fn poststop_env_of(s: HostState) -> Option<Seq<(Seq<char>, Seq<char>)>> {
    if s.last_child_pid > 0 {
        Some(
            seq![
                ("WINSGF_CHILD_PID"@, decimal(s.last_child_pid as nat)),
                ("WINSGF_CHILD_EXIT_CODE"@, signed_decimal(s.last_child_exit_code as int)),
            ],
        )
    } else {
        None
    }
}

/// The variables for the post-stop hook.
pub fn poststop_env(s: &HostState) -> (r: Option<Vec<(String, String)>>)
    ensures
        match r {
            Some(v) => poststop_env_of(*s) == Some(
                v@.map_values(|p: (String, String)| (p.0@, p.1@)),
            ),
            None => poststop_env_of(*s) is None,
        },
{
    if s.last_child_pid > 0 {
        let mut v: Vec<(String, String)> = Vec::new();
        v.push(
            (
                "WINSGF_CHILD_PID".to_owned(),
                string_from_chars(&decimal_chars(s.last_child_pid as u64)),
            ),
        );
        v.push(
            (
                "WINSGF_CHILD_EXIT_CODE".to_owned(),
                string_from_chars(&signed_decimal_chars(s.last_child_exit_code)),
            ),
        );
        assert(v@.map_values(|p: (String, String)| (p.0@, p.1@)) =~= seq![
            ("WINSGF_CHILD_PID"@, decimal(s.last_child_pid as nat)),
            ("WINSGF_CHILD_EXIT_CODE"@, signed_decimal(s.last_child_exit_code as int)),
        ]);
        Some(v)
    } else {
        None
    }
}

/// What follows the executable path in the "Target:" log line: a space and
/// the arguments, or nothing when the arguments are absent or empty.
pub open spec fn args_suffix_of(args: Option<Seq<char>>) -> Seq<char> {
    match args {
        Some(a) => if a.len() == 0 {
            Seq::empty()
        } else {
            seq![' '] + a
        },
        None => Seq::empty(),
    }
}

/// The argument suffix for the "Target:" log line.
pub fn args_suffix(args: Option<&str>) -> (r: String)
    ensures
        r@ == args_suffix_of(
            match args {
                Some(a) => Some(a@),
                None => None,
            },
        ),
{
    match args {
        None => String::new(),
        Some(a) => {
            let v = chars_of(a);
            if v.len() == 0 {
                String::new()
            } else {
                let mut w: Vec<char> = Vec::new();
                w.push(' ');
                extend(&mut w, &v);
                assert(w@ =~= seq![' '] + a@);
                string_from_chars(&w)
            }
        },
    }
}

/// The line logged when a hook starts.
pub fn hook_executing_message(phase: &str, command: &str) -> (r: String)
    ensures
        r@ == fill("Hook [{0}] executing: {1}"@, seq![phase@, command@], 2),
{
    crate::template::f2("Hook [{0}] executing: {1}", phase, command)
}

/// The line logged when a hook could not be started.
pub fn hook_spawn_failed_message(phase: &str, error: &str) -> (r: String)
    ensures
        r@ == fill("Hook [{0}] failed to run: {1}"@, seq![phase@, error@], 2),
{
    crate::template::f2("Hook [{0}] failed to run: {1}", phase, error)
}

/// Time a pre-start hook may take, in milliseconds.
pub const HOOK_PRESTART_TIMEOUT_MS: u64 = 60000;

/// Time a post-stop hook may take, in milliseconds.
pub const HOOK_POSTSTOP_TIMEOUT_MS: u64 = 30000;

/// Time a graceful stop may take, in seconds.
pub const GRACEFUL_TIMEOUT_SECS: u64 = 10;

// ==================== the service loop ====================

/// Wait hint reported while starting (hooks and downloads may take long), in ms.
pub const START_WAIT_HINT_MS: u32 = 3600000;

/// Wait hint reported while stopping (graceful stop and post-stop hook), in ms.
pub const STOP_WAIT_HINT_MS: u32 = 120000;

/// Where a service stands in what it has reported to the service manager.
#[derive(Clone, Copy, Debug, PartialEq, Eq, Structural)]
pub enum ScmPhase {
    /// Its control handler is registered; nothing reported yet.
    Registered,
    /// Reported start pending.
    StartPending,
    /// Reported running.
    Running,
    /// Reported stop pending.
    StopPending,
    /// Reported stopped.
    Stopped,
}

/// What happened to the service since its last report.
#[derive(Clone, Copy, Debug, PartialEq, Eq, Structural)]
pub enum ScmEvent {
    /// The service begins to start.
    Begin,
    /// Starting finished: whether it succeeded (the updater always does).
    StartDone(bool),
    /// A stop or shutdown was asked for; the stop begins.
    StopRequested,
    /// The service's work is over (the stop completed, the child is gone
    /// for good, or the updater's scan ended).
    Finished,
}

/// The report protocol: start pending (with a long wait hint, for hooks and
/// downloads), then running only once starting succeeded, or stopped when
/// it failed; a requested stop reports stop pending (with the stop's wait
/// hint) before stopped; stopped is final. Each step gives the next phase
/// and the report to send, if any, as (state, wait hint in ms).
pub open spec fn scm_step_of(phase: ScmPhase, event: ScmEvent) -> (ScmPhase, Option<(u32, u32)>) {
    match (phase, event) {
        (ScmPhase::Registered, ScmEvent::Begin) => (
            ScmPhase::StartPending,
            Some((SERVICE_START_PENDING, START_WAIT_HINT_MS)),
        ),
        (ScmPhase::StartPending, ScmEvent::StartDone(true)) => (ScmPhase::Running, Some((SERVICE_RUNNING, 0))),
        (ScmPhase::StartPending, ScmEvent::StartDone(false)) => (ScmPhase::Stopped, Some((SERVICE_STOPPED, 0))),
        (ScmPhase::Running, ScmEvent::StopRequested) => (
            ScmPhase::StopPending,
            Some((SERVICE_STOP_PENDING, STOP_WAIT_HINT_MS)),
        ),
        (ScmPhase::Running, ScmEvent::Finished) => (ScmPhase::Stopped, Some((SERVICE_STOPPED, 0))),
        (ScmPhase::StopPending, ScmEvent::Finished) => (ScmPhase::Stopped, Some((SERVICE_STOPPED, 0))),
        _ => (phase, None),
    }
}

/// One step of the report protocol.
pub fn scm_step(phase: ScmPhase, event: ScmEvent) -> (r: (ScmPhase, Option<(u32, u32)>))
    ensures
        r == scm_step_of(phase, event),
{
    match (phase, event) {
        (ScmPhase::Registered, ScmEvent::Begin) => (
            ScmPhase::StartPending,
            Some((SERVICE_START_PENDING, START_WAIT_HINT_MS)),
        ),
        (ScmPhase::StartPending, ScmEvent::StartDone(true)) => (ScmPhase::Running, Some((SERVICE_RUNNING, 0))),
        (ScmPhase::StartPending, ScmEvent::StartDone(false)) => (ScmPhase::Stopped, Some((SERVICE_STOPPED, 0))),
        (ScmPhase::Running, ScmEvent::StopRequested) => (
            ScmPhase::StopPending,
            Some((SERVICE_STOP_PENDING, STOP_WAIT_HINT_MS)),
        ),
        (ScmPhase::Running, ScmEvent::Finished) => (ScmPhase::Stopped, Some((SERVICE_STOPPED, 0))),
        (ScmPhase::StopPending, ScmEvent::Finished) => (ScmPhase::Stopped, Some((SERVICE_STOPPED, 0))),
        _ => (phase, None),
    }
}

/// Running is reported only right after a start that succeeded, and once
/// stopped was reported nothing more is.
pub proof fn lemma_running_only_after_start(phase: ScmPhase, event: ScmEvent)
    ensures
        scm_step_of(phase, event).1 == Some((SERVICE_RUNNING, 0u32)) ==> phase == ScmPhase::StartPending
            && event == ScmEvent::StartDone(true),
        phase == ScmPhase::Stopped ==> scm_step_of(phase, event) == (ScmPhase::Stopped, None::<(u32, u32)>),
{
}

/// What the service loop does after checking the control flags: stop (a
/// stop request wins over a shutdown), shut down, or poll the child.
#[derive(Clone, Copy, Debug, PartialEq, Eq)]
pub enum LoopStep {
    Stop,
    Shutdown,
    Poll,
}

/// The loop's step for the stop and shutdown flags.
pub fn loop_step(stop_requested: bool, shutdown_requested: bool) -> (r: LoopStep)
    ensures
        r == (if stop_requested {
            LoopStep::Stop
        } else if shutdown_requested {
            LoopStep::Shutdown
        } else {
            LoopStep::Poll
        }),
{
    if stop_requested {
        LoopStep::Stop
    } else if shutdown_requested {
        LoopStep::Shutdown
    } else {
        LoopStep::Poll
    }
}

/// The lines a stopping host logs: the signal, the stopping line, and for a
/// stop (not a shutdown) the final line.
pub open spec fn stop_lines_of(shutdown: bool) -> (Seq<char>, Seq<char>, Option<Seq<char>>) {
    if shutdown {
        ("SCM shutdown signal received"@, "System shutting down"@, None)
    } else {
        ("SCM stop signal received"@, "Service stopping"@, Some("Service stopped"@))
    }
}

/// The lines a stopping host logs.
pub fn stop_lines(shutdown: bool) -> (r: (String, String, Option<String>))
    ensures
        (r.0@, r.1@, crate::config::opt_view(r.2)) == stop_lines_of(shutdown),
{
    if shutdown {
        ("SCM shutdown signal received".to_owned(), "System shutting down".to_owned(), None)
    } else {
        (
            "SCM stop signal received".to_owned(),
            "Service stopping".to_owned(),
            Some("Service stopped".to_owned()),
        )
    }
}

// ==================== stopping the child ====================

/// How far stopping the child has come.
#[derive(Clone, Copy, Debug, PartialEq, Eq)]
pub enum StopStage {
    /// Looking at the child.
    Checking,
    /// Asked its main window to close.
    Closing,
    /// Sent it Ctrl+C.
    Interrupting,
    /// Done.
    Stopped,
}

/// One thing the host does to stop the child.
#[derive(Debug, PartialEq, Eq)]
pub enum StopAction {
    /// Log this line.
    Log(String),
    /// Post WM_CLOSE to the child's windows and wait (result: whether it exited).
    CloseMainWindow,
    /// Send Ctrl+C on the child's console and wait (result: whether it exited).
    SendCtrlC,
    /// Kill the child; with `with_descendants`, terminate every process
    /// descending from it first.
    ForceKill { with_descendants: bool },
}

/// The view of a stop action: its kind (0 log, 1 close, 2 Ctrl+C, 3 kill
/// the child alone, 4 kill its descendants and then it) and a log line's
/// text.
pub open spec fn stop_action_view(a: StopAction) -> (int, Seq<char>) {
    match a {
        StopAction::Log(m) => (0, m@),
        StopAction::CloseMainWindow => (1, Seq::empty()),
        StopAction::SendCtrlC => (2, Seq::empty()),
        StopAction::ForceKill { with_descendants } => (if with_descendants { 4 } else { 3 }, Seq::empty()),
    }
}

pub open spec fn stop_log(m: Seq<char>) -> (int, Seq<char>) {
    (0, m)
}

pub open spec fn stop_act(k: int) -> (int, Seq<char>) {
    (k, Seq::empty())
}

/// One step of stopping the child with process id `pid`: from `Checking`
/// with the child's status (a child that exited or is missing needs nothing,
/// one that cannot be queried is left alone), then closing its window, then
/// Ctrl+C, each given whether the child exited; when both fail it is killed,
/// its whole process tree first exactly when `kill_tree` (the configuration's
/// `kill_process_tree`) is set.
pub open spec fn stop_step_of(stage: StopStage, pid: u32, status: ChildStatus, exited: bool, kill_tree: bool) -> (
    StopStage,
    Seq<(int, Seq<char>)>,
) {
    match stage {
        StopStage::Checking => match status {
            ChildStatus::Running => (
                StopStage::Closing,
                seq![
                    stop_log(fill("Stopping child process (PID: {0})"@, seq![decimal(pid as nat)], 1)),
                    stop_act(1),
                ],
            ),
            ChildStatus::Unknown => (StopStage::Stopped, Seq::empty()),
            _ => (StopStage::Stopped, seq![stop_log("Child process already exited, nothing to stop"@)]),
        },
        StopStage::Closing => if exited {
            (StopStage::Stopped, seq![stop_log("Child exited via WM_CLOSE"@)])
        } else {
            (StopStage::Interrupting, seq![stop_act(2)])
        },
        StopStage::Interrupting => if exited {
            (StopStage::Stopped, seq![stop_log("Child exited via Ctrl+C"@)])
        } else {
            (
                StopStage::Stopped,
                seq![
                    stop_log("Graceful shutdown failed, force killing"@),
                    stop_act(if kill_tree { 4 } else { 3 }),
                    stop_log("Child force killed"@),
                ],
            )
        },
        StopStage::Stopped => (StopStage::Stopped, Seq::empty()),
    }
}

/// One step of stopping the child.
pub fn stop_step(stage: StopStage, pid: u32, status: ChildStatus, exited: bool, kill_tree: bool) -> (r: (
    StopStage,
    Vec<StopAction>,
))
    ensures
        (r.0, r.1@.map_values(|a: StopAction| stop_action_view(a))) == stop_step_of(
            stage,
            pid,
            status,
            exited,
            kill_tree,
        ),
{
    let mut v: Vec<StopAction> = Vec::new();
    let next = match stage {
        StopStage::Checking => match status {
            ChildStatus::Running => {
                let n = string_from_chars(&decimal_chars(pid as u64));
                v.push(StopAction::Log(crate::template::f1("Stopping child process (PID: {0})", n.as_str())));
                v.push(StopAction::CloseMainWindow);
                StopStage::Closing
            },
            ChildStatus::Unknown => StopStage::Stopped,
            _ => {
                v.push(StopAction::Log("Child process already exited, nothing to stop".to_owned()));
                StopStage::Stopped
            },
        },
        StopStage::Closing => if exited {
            v.push(StopAction::Log("Child exited via WM_CLOSE".to_owned()));
            StopStage::Stopped
        } else {
            v.push(StopAction::SendCtrlC);
            StopStage::Interrupting
        },
        StopStage::Interrupting => if exited {
            v.push(StopAction::Log("Child exited via Ctrl+C".to_owned()));
            StopStage::Stopped
        } else {
            v.push(StopAction::Log("Graceful shutdown failed, force killing".to_owned()));
            v.push(StopAction::ForceKill { with_descendants: kill_tree });
            v.push(StopAction::Log("Child force killed".to_owned()));
            StopStage::Stopped
        },
        StopStage::Stopped => StopStage::Stopped,
    };
    assert(v@.map_values(|a: StopAction| stop_action_view(a)) =~= stop_step_of(
        stage,
        pid,
        status,
        exited,
        kill_tree,
    ).1);
    (next, v)
}

/// The child is killed only after closing its window and Ctrl+C both failed
/// to make it exit; its descendants are killed with it exactly when
/// `kill_tree` is set.
pub proof fn lemma_kill_is_last_resort(
    stage: StopStage,
    pid: u32,
    status: ChildStatus,
    exited: bool,
    kill_tree: bool,
    kind: int,
)
    requires
        kind == 3 || kind == 4,
        stop_step_of(stage, pid, status, exited, kill_tree).1.contains(stop_act(kind)),
    ensures
        stage == StopStage::Interrupting,
        !exited,
        kind == 4 <==> kill_tree,
{
    let acts = stop_step_of(stage, pid, status, exited, kill_tree).1;
    let k = choose|k: int| 0 <= k < acts.len() && acts[k] == stop_act(kind);
    match stage {
        StopStage::Checking => {
            match status {
                ChildStatus::Running => {
                    assert(acts[0].0 == 0 && acts[1] == stop_act(1));
                },
                ChildStatus::Unknown => {},
                _ => {
                    assert(acts[0].0 == 0);
                },
            }
        },
        StopStage::Closing => {
            if exited {
                assert(acts[0].0 == 0);
            } else {
                assert(acts[0] == stop_act(2));
            }
        },
        StopStage::Interrupting => {
            if exited {
                assert(acts[0].0 == 0);
            } else {
                assert(acts[0].0 == 0 && acts[2].0 == 0);
            }
        },
        StopStage::Stopped => {},
    }
}

// ==================== output of the child ====================

/// A line of the child's output as it is logged: without trailing white
/// space; an empty result is not logged.
pub fn output_line(line: &str) -> (r: Option<String>)
    ensures
        match r {
            Some(t) => t@ == crate::text::trim_end(line@) && t@.len() > 0,
            None => crate::text::trim_end(line@).len() == 0,
        },
{
    let v = chars_of(line);
    let mut e = v.len();
    assert(v@.take(v@.len() as int) =~= v@);
    while e > 0 && crate::text::is_whitespace(v[e - 1])
        invariant
            e <= v.len(),
            crate::text::trim_end(v@) == crate::text::trim_end(v@.take(e as int)),
        decreases e,
    {
        assert(v@.take(e as int).drop_last() =~= v@.take(e - 1));
        e -= 1;
    }
    proof {
        if e > 0 {
            assert(v@.take(e as int).last() == v@[e - 1]);
        }
        assert(crate::text::trim_end(v@.take(e as int)) == v@.take(e as int));
    }
    if e == 0 {
        None
    } else {
        Some(string_from_chars(&sub_vec(&v, 0, e)))
    }
}

} // verus!
