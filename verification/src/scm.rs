//! Values handed to and read from the Windows service control manager.

use vstd::prelude::*;
use crate::encoding::{decimal, decimal_chars};
use crate::text::{
    chars_of, extend, join, join_exec, lowercased, split_any, split_exec, string_from_chars,
    sub_vec, to_lowercase, trim, trim_bounds, views_of, str_eq,
};

verus! {

// ==================== start types ====================

/// `SERVICE_AUTO_START`.
pub const SERVICE_AUTO_START: u32 = 2;

/// `SERVICE_DEMAND_START`.
pub const SERVICE_DEMAND_START: u32 = 3;

/// `SERVICE_DISABLED`.
pub const SERVICE_DISABLED: u32 = 4;

/// The start type and delayed-start flag that a lower-cased
/// `service_start_mode` value selects; an unknown value selects automatic
/// start.
pub open spec fn start_mode_lower_of(l: Seq<char>) -> (u32, bool) {
    if l == "delayed_auto"@ || l == "delayed-auto"@ || l == "delayedauto"@ {
        (SERVICE_AUTO_START, true)
    } else if l == "automatic"@ {
        (SERVICE_AUTO_START, false)
    } else if l == "manual"@ {
        (SERVICE_DEMAND_START, false)
    } else if l == "disabled"@ {
        (SERVICE_DISABLED, false)
    } else {
        (SERVICE_AUTO_START, false)
    }
}

/// The start type and delayed-start flag that a `service_start_mode` value
/// selects; the value is compared after `str::to_lowercase`, and a missing
/// value selects automatic start.
pub open spec fn start_mode_of(mode: Option<Seq<char>>) -> (u32, bool) {
    match mode {
        None => (SERVICE_AUTO_START, false),
        Some(m) => start_mode_lower_of(lowercased(m)),
    }
}

/// Returns (start type, whether automatic start is delayed) for a
/// `service_start_mode` value already lower-cased.
pub fn start_mode_lowered(l: &str) -> (r: (u32, bool))
    ensures
        r == start_mode_lower_of(l@),
{
    if str_eq(l, "delayed_auto") || str_eq(l, "delayed-auto") || str_eq(l, "delayedauto") {
        (SERVICE_AUTO_START, true)
    } else if str_eq(l, "automatic") {
        (SERVICE_AUTO_START, false)
    } else if str_eq(l, "manual") {
        (SERVICE_DEMAND_START, false)
    } else if str_eq(l, "disabled") {
        (SERVICE_DISABLED, false)
    } else {
        (SERVICE_AUTO_START, false)
    }
}

/// Returns (start type, whether automatic start is delayed).
pub fn parse_start_mode(mode: Option<&str>) -> (r: (u32, bool))
    ensures
        r == start_mode_of(
            match mode {
                Some(m) => Some(m@),
                None => None,
            },
        ),
{
    match mode {
        None => (SERVICE_AUTO_START, false),
        Some(m) => {
            let l = to_lowercase(m);
            start_mode_lowered(l.as_str())
        },
    }
}

// ==================== dependencies ====================

/// The trimmed pieces that are not empty.
pub open spec fn nonblank_trimmed(ps: Seq<Seq<char>>) -> Seq<Seq<char>>
    decreases ps.len(),
{
    if ps.len() == 0 {
        Seq::empty()
    } else {
        let r = nonblank_trimmed(ps.drop_last());
        if trim(ps.last()).len() > 0 {
            r.push(trim(ps.last()))
        } else {
            r
        }
    }
}

/// The dependency names in a list separated by `;`, `,` or `:`.
pub open spec fn dependency_names(d: Seq<char>) -> Seq<Seq<char>> {
    nonblank_trimmed(split_any(d, seq![';', ',', ':']))
}

/// The double-NUL-terminated list (`A\0B\0\0`) that `CreateServiceW` takes,
/// or none when no name is given.
pub open spec fn dependency_multi_sz(deps: Option<Seq<char>>) -> Option<Seq<char>> {
    match deps {
        None => None,
        Some(d) => if trim(d).len() == 0 || dependency_names(d).len() == 0 {
            None
        } else {
            Some(join(dependency_names(d), seq!['\0']) + seq!['\0', '\0'])
        },
    }
}

/// Converts a `;`/`,`/`:`-separated dependency list into the service
/// manager's multi-string form.
pub fn build_dependency_string(dependencies: Option<&str>) -> (r: Option<String>)
    ensures
        match r {
            Some(s) => dependency_multi_sz(
                match dependencies {
                    Some(d) => Some(d@),
                    None => None,
                },
            ) == Some(s@),
            None => dependency_multi_sz(
                match dependencies {
                    Some(d) => Some(d@),
                    None => None,
                },
            ) is None,
        },
{
    let deps = match dependencies {
        None => {
            return None;
        },
        Some(d) => d,
    };
    let v = chars_of(deps);
    let (a, b) = trim_bounds(&v, 0, v.len());
    assert(v@.subrange(0, v@.len() as int) =~= v@);
    if a == b {
        return None;
    }
    let delims = vec![';', ',', ':'];
    assert(delims@ =~= seq![';', ',', ':']);
    let pieces = split_exec(&v, &delims);
    let ghost ps = views_of(pieces@);
    let mut kept: Vec<Vec<char>> = Vec::new();
    let mut i: usize = 0;
    assert(ps.take(0) =~= Seq::<Seq<char>>::empty());
    assert(views_of(kept@) =~= Seq::<Seq<char>>::empty());
    while i < pieces.len()
        invariant
            i <= pieces.len(),
            ps == views_of(pieces@),
            ps.len() == pieces@.len(),
            views_of(kept@) == nonblank_trimmed(ps.take(i as int)),
        decreases pieces.len() - i,
    {
        let p = &pieces[i];
        assert(ps[i as int] == p@);
        assert(ps.take(i + 1).drop_last() =~= ps.take(i as int));
        let (s, e) = trim_bounds(p, 0, p.len());
        assert(p@.subrange(0, p@.len() as int) =~= p@);
        if s < e {
            let ghost before = views_of(kept@);
            kept.push(sub_vec(p, s, e));
            assert(views_of(kept@) =~= before.push(trim(p@)));
        }
        i += 1;
    }
    assert(ps.take(pieces.len() as int) =~= ps);
    if kept.len() == 0 {
        return None;
    }
    let nul = vec!['\0'];
    assert(nul@ =~= seq!['\0']);
    let mut out = join_exec(&kept, &nul);
    out.push('\0');
    out.push('\0');
    Some(string_from_chars(&out))
}

// ==================== status reports ====================

/// `SERVICE_STOPPED`.
pub const SERVICE_STOPPED: u32 = 1;

/// `SERVICE_START_PENDING`.
pub const SERVICE_START_PENDING: u32 = 2;

/// `SERVICE_STOP_PENDING`.
pub const SERVICE_STOP_PENDING: u32 = 3;

/// `SERVICE_RUNNING`.
pub const SERVICE_RUNNING: u32 = 4;

/// `SERVICE_CONTINUE_PENDING`.
pub const SERVICE_CONTINUE_PENDING: u32 = 5;

/// `SERVICE_PAUSE_PENDING`.
pub const SERVICE_PAUSE_PENDING: u32 = 6;

/// `SERVICE_PAUSED`.
pub const SERVICE_PAUSED: u32 = 7;

/// `SERVICE_ACCEPT_STOP`.
pub const SERVICE_ACCEPT_STOP: u32 = 1;

/// `SERVICE_ACCEPT_SHUTDOWN`.
pub const SERVICE_ACCEPT_SHUTDOWN: u32 = 4;

/// Controls accepted and checkpoint for a reported state: pending and stopped
/// states accept no stop or shutdown control, only other states do; pending
/// states report checkpoint 1, others 0.
pub open spec fn status_params_of(state: u32) -> (u32, u32) {
    let controls = if state == SERVICE_START_PENDING || state == SERVICE_STOP_PENDING || state
        == SERVICE_STOPPED {
        0u32
    } else {
        SERVICE_ACCEPT_STOP | SERVICE_ACCEPT_SHUTDOWN
    };
    let checkpoint = if state == SERVICE_START_PENDING || state == SERVICE_STOP_PENDING {
        1u32
    } else {
        0u32
    };
    (controls, checkpoint)
}

/// Returns (`dwControlsAccepted`, `dwCheckPoint`) for a state report.
pub fn scm_status_params(state: u32) -> (r: (u32, u32))
    ensures
        r == status_params_of(state),
{
    let controls = if state == SERVICE_START_PENDING || state == SERVICE_STOP_PENDING || state
        == SERVICE_STOPPED {
        0
    } else {
        SERVICE_ACCEPT_STOP | SERVICE_ACCEPT_SHUTDOWN
    };
    let checkpoint = if state == SERVICE_START_PENDING || state == SERVICE_STOP_PENDING {
        1
    } else {
        0
    };
    (controls, checkpoint)
}

/// The status word shown for a current state.
pub open spec fn status_text_of(state: u32) -> Seq<char> {
    if state == SERVICE_RUNNING {
        "Running"@
    } else if state == SERVICE_STOPPED {
        "Stopped"@
    } else if state == SERVICE_START_PENDING {
        "Start Pending"@
    } else if state == SERVICE_STOP_PENDING {
        "Stop Pending"@
    } else if state == SERVICE_PAUSED {
        "Paused"@
    } else if state == SERVICE_PAUSE_PENDING {
        "Pause Pending"@
    } else if state == SERVICE_CONTINUE_PENDING {
        "Continue Pending"@
    } else {
        "Unknown (SERVICE_STATUS_CURRENT_STATE("@ + decimal(state as nat) + "))"@
    }
}

/// The status word for a current state (`--status` output).
pub fn status_text(state: u32) -> (r: String)
    ensures
        r@ == status_text_of(state),
{
    if state == SERVICE_RUNNING {
        "Running".to_owned()
    } else if state == SERVICE_STOPPED {
        "Stopped".to_owned()
    } else if state == SERVICE_START_PENDING {
        "Start Pending".to_owned()
    } else if state == SERVICE_STOP_PENDING {
        "Stop Pending".to_owned()
    } else if state == SERVICE_PAUSED {
        "Paused".to_owned()
    } else if state == SERVICE_PAUSE_PENDING {
        "Pause Pending".to_owned()
    } else if state == SERVICE_CONTINUE_PENDING {
        "Continue Pending".to_owned()
    } else {
        let mut v = chars_of("Unknown (SERVICE_STATUS_CURRENT_STATE(");
        extend(&mut v, &decimal_chars(state as u64));
        extend(&mut v, &chars_of("))"));
        string_from_chars(&v)
    }
}

// ==================== registration settings ====================

/// Failure-counter reset period: the configured seconds when positive, else 86400.
pub open spec fn failure_reset_of(sec: i32) -> u32 {
    if sec > 0 {
        sec as u32
    } else {
        86400
    }
}

/// Restart delay after a crash: the configured milliseconds when positive, else 60000.
pub open spec fn restart_delay_of(ms: i32) -> u32 {
    if ms > 0 {
        ms as u32
    } else {
        60000
    }
}

/// The failure-recovery settings registered for a service: (reset period in
/// seconds, restart delay in milliseconds).
pub fn failure_settings(failure_reset_sec: i32, restart_delay_ms: i32) -> (r: (u32, u32))
    ensures
        r == (failure_reset_of(failure_reset_sec), restart_delay_of(restart_delay_ms)),
{
    let reset: u32 = if failure_reset_sec > 0 {
        failure_reset_sec as u32
    } else {
        86400
    };
    let delay: u32 = if restart_delay_ms > 0 {
        restart_delay_ms as u32
    } else {
        60000
    };
    (reset, delay)
}

/// Whether creating a service should be tried again: the error is "marked for
/// deletion" (1072, in the low 16 bits of the code) and fewer than five
/// retries were made.
pub fn should_retry_create(error_code: u32, attempt: u32) -> (r: bool)
    ensures
        r == (error_code & 0xFFFF == 1072 && attempt < 5),
{
    error_code & 0xFFFF == 1072 && attempt < 5
}

/// Whether an error opening a service says that it no longer exists (1060 in
/// the low 16 bits of the code).
pub fn is_service_missing_error(error_code: u32) -> (r: bool)
    ensures
        r == (error_code & 0xFFFF == 1060),
{
    error_code & 0xFFFF == 1060
}

/// One poll while waiting for a service to reach `target` (running when
/// starting, stopped when stopping): done once it is there; the timeout
/// error once the deadline has passed; otherwise keep waiting (`None`).
pub open spec fn wait_poll_of(target: u32, current: u32, past_deadline: bool) -> Option<
    Result<(), Seq<char>>,
> {
    if current == target {
        Some(Ok(()))
    } else if past_deadline {
        Some(
            Err(
                if target == SERVICE_RUNNING {
                    "Timeout waiting for service to start"@
                } else {
                    "Timeout waiting for service to stop"@
                },
            ),
        )
    } else {
        None
    }
}

/// Judges one poll of the service state while waiting for `target`.
pub fn wait_poll(target: u32, current: u32, past_deadline: bool) -> (r: Option<Result<(), String>>)
    ensures
        match r {
            None => wait_poll_of(target, current, past_deadline) is None,
            Some(Ok(())) => wait_poll_of(target, current, past_deadline) == Some(
                Ok::<(), Seq<char>>(()),
            ),
            Some(Err(m)) => wait_poll_of(target, current, past_deadline) == Some(
                Err::<(), Seq<char>>(m@),
            ),
        },
{
    if current == target {
        Some(Ok(()))
    } else if past_deadline {
        if target == SERVICE_RUNNING {
            Some(Err("Timeout waiting for service to start".to_owned()))
        } else {
            Some(Err("Timeout waiting for service to stop".to_owned()))
        }
    } else {
        None
    }
}

/// Time a start or stop from the command line may take, in seconds.
pub const SCM_OP_TIMEOUT_SECS: u64 = 30;

// ==================== configuration after creation ====================

/// A configuration call made on a newly created service.
#[derive(Clone, Copy, Debug, PartialEq, Eq, Structural)]
pub enum ConfigCall {
    /// Set the description.
    Description,
    /// Restart the service after a failure, `restarts` times, each after
    /// `delay_ms`; the failure counter resets after `reset_sec` seconds.
    RestartOnFailure { reset_sec: u32, delay_ms: u32, restarts: u32 },
    /// Delay the automatic start.
    DelayedAutoStart,
}

/// The configuration calls after a service is created, in order: the
/// description always; two restart actions at `restart_delay_ms` when the
/// reset period is positive; the delayed-start flag when asked for.
pub open spec fn registration_configs_of(
    failure_reset_sec: u32,
    restart_delay_ms: u32,
    delayed_auto: bool,
) -> Seq<ConfigCall> {
    seq![ConfigCall::Description] + (if failure_reset_sec > 0 {
        seq![ConfigCall::RestartOnFailure { reset_sec: failure_reset_sec, delay_ms: restart_delay_ms, restarts: 2 }]
    } else {
        Seq::empty()
    }) + (if delayed_auto {
        seq![ConfigCall::DelayedAutoStart]
    } else {
        Seq::empty()
    })
}

/// Lists the configuration calls a new service gets; they are made in order,
/// and the first that fails fails the registration.
pub fn registration_configs(failure_reset_sec: u32, restart_delay_ms: u32, delayed_auto: bool) -> (r: Vec<
    ConfigCall,
>)
    ensures
        r@ == registration_configs_of(failure_reset_sec, restart_delay_ms, delayed_auto),
{
    let mut v: Vec<ConfigCall> = Vec::new();
    v.push(ConfigCall::Description);
    if failure_reset_sec > 0 {
        v.push(ConfigCall::RestartOnFailure { reset_sec: failure_reset_sec, delay_ms: restart_delay_ms, restarts: 2 });
    }
    if delayed_auto {
        v.push(ConfigCall::DelayedAutoStart);
    }
    v
}

} // verus!
