//! The boot-time updater: which deployed services are stale and removed,
//! which hosts are outdated, and the replacement of an outdated host as a
//! state machine (stop, copy, check, back up, swap, restart, roll back).
//! The caller performs each action and reports its result.

use vstd::prelude::*;
use crate::config::{has_download, opt_view, present_nonblank, ServiceConfig};
use crate::encoding::{decimal, decimal_chars};
use crate::names::{is_reserved_service_name, updater_service_name};
use crate::template::{f, f1, f2, fill, str_views};
use crate::text::{eq_ignore_ascii_case, string_from_chars};
use crate::version::{compare_versions, version_order};

verus! {

// ==================== stale services ====================

/// What the updater does with a deployment directory before upgrading.
#[derive(Debug, PartialEq, Eq)]
pub enum CleanupAction {
    /// The service manager does not know it: delete the orphaned directory.
    RemoveOrphanDirectory,
    /// Not a platform deployment: leave it alone.
    LeaveForeign,
    /// Stop and unregister the stale service and delete its directory.
    RemoveStale,
    /// A valid service: nothing to do.
    Keep,
}

/// The warning for a directory with no service behind it.
pub open spec fn orphan_message_of(name: Seq<char>) -> Seq<char> {
    fill("[{0}] Service not in SCM, removing orphaned directory"@, seq![name], 1)
}

/// The warning for an invalid configuration, with its reason.
pub open spec fn invalid_config_message_of(name: Seq<char>, reason: Seq<char>) -> Seq<char> {
    fill("[{0}] Invalid config ({1}), removing stale service"@, seq![name, reason], 2)
}

/// The warning for a missing configuration file.
pub open spec fn config_missing_message_of(name: Seq<char>) -> Seq<char> {
    fill("[{0}] Config file missing, removing stale service"@, seq![name], 1)
}

/// The warning for an executable path that does not exist.
pub open spec fn bad_executable_message_of(name: Seq<char>, exe: Seq<char>) -> Seq<char> {
    fill("[{0}] Invalid executable path '{1}', removing stale service"@, seq![name, exe], 2)
}

/// The reason given for a service that is not a platform deployment.
pub open spec fn foreign_reason() -> Seq<char> {
    "not a Silanes-managed service"@
}

/// The view of a cleanup decision: the action and its warning.
pub open spec fn cleanup_view(r: (CleanupAction, Option<String>)) -> (CleanupAction, Option<
    Seq<char>,
>) {
    (r.0, opt_view(r.1))
}

/// The result of reading a deployed configuration: the configuration, or
/// why it could not be read.
pub open spec fn loaded_view(c: Result<&ServiceConfig, &str>) -> Result<ServiceConfig, Seq<char>> {
    match c {
        Ok(c) => Ok(*c),
        Err(e) => Err(e@),
    }
}

/// The cleanup of a deployment directory named `name`, in this order: no
/// service of that name: the directory is an orphan; a service that is not
/// a platform deployment: left alone; no configuration file: stale; a
/// configuration that could not be read: stale, with the reason; a
/// configuration without download whose executable does not exist: stale;
/// otherwise kept.
pub open spec fn cleanup_of(
    name: Seq<char>,
    in_scm: bool,
    deployed: bool,
    yaml_exists: bool,
    config: Result<ServiceConfig, Seq<char>>,
    executable_found: bool,
) -> (CleanupAction, Option<Seq<char>>) {
    if !in_scm {
        (CleanupAction::RemoveOrphanDirectory, Some(orphan_message_of(name)))
    } else if !deployed {
        (CleanupAction::LeaveForeign, Some(invalid_config_message_of(name, foreign_reason())))
    } else if !yaml_exists {
        (CleanupAction::RemoveStale, Some(config_missing_message_of(name)))
    } else {
        match config {
            Err(reason) => (
                CleanupAction::RemoveStale,
                Some(invalid_config_message_of(name, reason)),
            ),
            Ok(c) => if !present_nonblank(opt_view(c.download_url)) && !executable_found {
                (
                    CleanupAction::RemoveStale,
                    Some(bad_executable_message_of(name, c.service_executable_path@)),
                )
            } else {
                (CleanupAction::Keep, None)
            },
        }
    }
}

/// Decides what to do with the deployment directory of `name`, given whether
/// the service manager knows the service, whether it is a platform
/// deployment, whether its configuration file exists, the configuration read
/// from it, and whether the configured executable exists.
pub fn cleanup_decision(
    name: &str,
    in_scm: bool,
    deployed: bool,
    yaml_exists: bool,
    config: Result<&ServiceConfig, &str>,
    executable_found: bool,
) -> (r: (CleanupAction, Option<String>))
    ensures
        cleanup_view(r) == cleanup_of(
            name@,
            in_scm,
            deployed,
            yaml_exists,
            loaded_view(config),
            executable_found,
        ),
{
    if !in_scm {
        return (
            CleanupAction::RemoveOrphanDirectory,
            Some(f1("[{0}] Service not in SCM, removing orphaned directory", name)),
        );
    }
    if !deployed {
        return (
            CleanupAction::LeaveForeign,
            Some(
                f2(
                    "[{0}] Invalid config ({1}), removing stale service",
                    name,
                    "not a Silanes-managed service",
                ),
            ),
        );
    }
    if !yaml_exists {
        return (
            CleanupAction::RemoveStale,
            Some(f1("[{0}] Config file missing, removing stale service", name)),
        );
    }
    match config {
        Err(reason) => (
            CleanupAction::RemoveStale,
            Some(f2("[{0}] Invalid config ({1}), removing stale service", name, reason)),
        ),
        Ok(c) => if !has_download(c) && !executable_found {
            (
                CleanupAction::RemoveStale,
                Some(
                    f2(
                        "[{0}] Invalid executable path '{1}', removing stale service",
                        name,
                        c.service_executable_path.as_str(),
                    ),
                ),
            )
        } else {
            (CleanupAction::Keep, None)
        },
    }
}

/// The line logged once a stale service was removed.
pub fn stale_removed_message(name: &str) -> (r: String)
    ensures
        r@ == fill("[{0}] Stale service removed"@, seq![name@], 1),
{
    f1("[{0}] Stale service removed", name)
}

// ==================== outdated hosts ====================

/// Whether the updater considers a service for an upgrade.
#[derive(Debug, PartialEq, Eq)]
pub enum UpgradeCheck {
    /// Leave it; log this warning if there is one.
    Skip(Option<String>),
    /// Replace its host; log this line on the `upgrade` channel.
    Upgrade(String),
}

/// The view of an upgrade check: `None` for an upgrade with its line, else
/// the skip with its warning.
pub open spec fn check_view(c: UpgradeCheck) -> Result<Seq<char>, Option<Seq<char>>> {
    match c {
        UpgradeCheck::Upgrade(m) => Ok(m@),
        UpgradeCheck::Skip(w) => Err(opt_view(w)),
    }
}

/// The line logged before a host is replaced.
pub open spec fn upgrade_line_of(name: Seq<char>, from: Seq<char>, to: Seq<char>) -> Seq<char> {
    fill("[{0}] v{1} \u{2192} v{2}"@, seq![name, from, to], 3)
}

/// The upgrade check of the service `name`, in this order: the updater's own
/// name (ASCII case ignored) is skipped; a service that is not a platform
/// deployment is skipped with a warning; so is one whose host is missing or
/// has no readable version; a host that is not older than the running
/// version is skipped; any other is upgraded.
pub open spec fn upgrade_check_of(
    name: Seq<char>,
    deployed: bool,
    host_exists: bool,
    host_version: Option<Seq<char>>,
    own_version: Seq<char>,
) -> Result<Seq<char>, Option<Seq<char>>> {
    if eq_ignore_ascii_case(name, updater_service_name()) {
        Err(None)
    } else if !deployed {
        Err(Some(invalid_config_message_of(name, foreign_reason())))
    } else if !host_exists {
        Err(Some(fill("[{0}] Host binary not found, skipping"@, seq![name], 1)))
    } else {
        match host_version {
            None => Err(Some(fill("[{0}] Unable to read host version, skipping"@, seq![name], 1))),
            Some(v) => if version_order(v, own_version) >= 0 {
                Err(None)
            } else {
                Ok(upgrade_line_of(name, v, own_version))
            },
        }
    }
}

/// Decides whether the service `name` gets the running host, given whether it
/// is a platform deployment, whether its host exists, the host's version and
/// the running version.
pub fn upgrade_check(
    name: &str,
    deployed: bool,
    host_exists: bool,
    host_version: Option<&str>,
    own_version: &str,
) -> (r: UpgradeCheck)
    ensures
        check_view(r) == upgrade_check_of(
            name@,
            deployed,
            host_exists,
            crate::config::opt_str_view(host_version),
            own_version@,
        ),
{
    if is_reserved_service_name(name) {
        return UpgradeCheck::Skip(None);
    }
    if !deployed {
        return UpgradeCheck::Skip(
            Some(
                f2(
                    "[{0}] Invalid config ({1}), removing stale service",
                    name,
                    "not a Silanes-managed service",
                ),
            ),
        );
    }
    if !host_exists {
        return UpgradeCheck::Skip(Some(f1("[{0}] Host binary not found, skipping", name)));
    }
    match host_version {
        None => UpgradeCheck::Skip(
            Some(f1("[{0}] Unable to read host version, skipping", name)),
        ),
        Some(v) => if compare_versions(v, own_version) >= 0 {
            UpgradeCheck::Skip(None)
        } else {
            let args: [&str; 3] = [name, v, own_version];
            assert(str_views(args@) =~= seq![name@, v@, own_version@]);
            UpgradeCheck::Upgrade(f("[{0}] v{1} \u{2192} v{2}", &args))
        },
    }
}

/// A host is replaced only when it is older than the running host: an
/// upgrade is decided only for a platform deployment other than the updater
/// whose host exists and reads as an older version; a host that is as new
/// or newer is always left alone.
pub proof fn lemma_upgrade_only_older(
    name: Seq<char>,
    deployed: bool,
    host_exists: bool,
    host_version: Option<Seq<char>>,
    own_version: Seq<char>,
)
    ensures
        upgrade_check_of(name, deployed, host_exists, host_version, own_version) is Ok ==> {
            &&& deployed
            &&& host_exists
            &&& !eq_ignore_ascii_case(name, updater_service_name())
            &&& host_version is Some
            &&& version_order(host_version.unwrap(), own_version) < 0
        },
        host_version is Some && version_order(host_version.unwrap(), own_version) >= 0
            ==> upgrade_check_of(name, deployed, host_exists, host_version, own_version) is Err,
{
}

// ==================== replacing a host ====================

/// Where the replacement of one host stands.
#[derive(Debug, PartialEq, Eq, Clone, Copy)]
pub enum UpgradeState {
    /// Asking whether the service runs.
    Querying,
    /// Stopping the running service.
    Stopping,
    /// Copying the running host next to the old one (`<name>.exe.new.tmp`).
    Copying { was_running: bool },
    /// Reading the copy's version.
    Verifying { was_running: bool },
    /// Looking whether the old host is still there.
    Locating { was_running: bool },
    /// Moving the old host to the backup (`<name>.exe.bak`).
    BackingUp { was_running: bool },
    /// Moving the copy in place of the old host.
    Swapping { was_running: bool, backed_up: bool },
    /// Starting the service again.
    Restarting,
    /// Finished: whether the host was upgraded.
    Done { upgraded: bool },
}

/// One thing the caller does for the replacement.
#[derive(Debug, PartialEq, Eq)]
pub enum UpgradeAction {
    /// Ask whether the service runs (result: running; an error counts as not running).
    QueryStatus,
    /// Stop the service.
    StopService,
    /// Start the service.
    StartService,
    /// Delete the copy, if any.
    RemoveTemp,
    /// Delete the backup, if any.
    RemoveBackup,
    /// Copy the running host to the copy's path.
    CopyToTemp,
    /// Read the copy's version (result: whether it has one).
    ReadTempVersion,
    /// Look whether the old host exists (result: whether it does).
    CheckHostExists,
    /// Rename the old host to the backup.
    MoveHostToBackup,
    /// Rename the copy to the host.
    MoveTempToHost,
    /// Rename the backup back to the host.
    RestoreBackup,
    /// Rename the backup back to the host when the backup exists.
    RestoreBackupIfPresent,
    /// Write this line to the updater log on this channel.
    Log(String, String),
}

/// The view of an action: its kind (0 to 12, in the order declared) and,
/// for a log line, its channel and text.
pub open spec fn action_view(a: UpgradeAction) -> (int, Seq<char>, Seq<char>) {
    match a {
        UpgradeAction::QueryStatus => (0, Seq::empty(), Seq::empty()),
        UpgradeAction::StopService => (1, Seq::empty(), Seq::empty()),
        UpgradeAction::StartService => (2, Seq::empty(), Seq::empty()),
        UpgradeAction::RemoveTemp => (3, Seq::empty(), Seq::empty()),
        UpgradeAction::RemoveBackup => (4, Seq::empty(), Seq::empty()),
        UpgradeAction::CopyToTemp => (5, Seq::empty(), Seq::empty()),
        UpgradeAction::ReadTempVersion => (6, Seq::empty(), Seq::empty()),
        UpgradeAction::CheckHostExists => (7, Seq::empty(), Seq::empty()),
        UpgradeAction::MoveHostToBackup => (8, Seq::empty(), Seq::empty()),
        UpgradeAction::MoveTempToHost => (9, Seq::empty(), Seq::empty()),
        UpgradeAction::RestoreBackup => (10, Seq::empty(), Seq::empty()),
        UpgradeAction::RestoreBackupIfPresent => (11, Seq::empty(), Seq::empty()),
        UpgradeAction::Log(c, m) => (12, c@, m@),
    }
}

/// The views of a list of actions.
pub open spec fn actions_view(v: Seq<UpgradeAction>) -> Seq<(int, Seq<char>, Seq<char>)> {
    v.map_values(|a: UpgradeAction| action_view(a))
}

pub open spec fn act(k: int) -> (int, Seq<char>, Seq<char>) {
    (k, Seq::empty(), Seq::empty())
}

pub open spec fn log_act(channel: Seq<char>, line: Seq<char>) -> (int, Seq<char>, Seq<char>) {
    (12, channel, line)
}

/// The line logged when the replacement failed with `detail`.
pub open spec fn upgrade_failed_line_of(name: Seq<char>, detail: Seq<char>) -> Seq<char> {
    fill("[{0}] Upgrade failed: {1}"@, seq![name, detail], 2)
}

/// A failed replacement: delete the copy and the backup, log the failure,
/// and start the service again if it was running.
pub open spec fn replace_failed(name: Seq<char>, was_running: bool, detail: Seq<char>) -> (
    UpgradeState,
    Seq<(int, Seq<char>, Seq<char>)>,
) {
    (
        UpgradeState::Done { upgraded: false },
        seq![act(3), act(4), log_act("error"@, upgrade_failed_line_of(name, detail))] + (
        if was_running {
            seq![act(2)]
        } else {
            Seq::empty()
        }),
    )
}

/// The error detail of an action's result that carries none.
pub open spec fn version_missing_detail() -> Seq<char> {
    "invalid temp host version"@
}

/// One step of the replacement of the host of `name`: from a state and the
/// result of the last action (`Ok(flag)` or `Err(detail)`), the next state
/// and the actions to perform, the last of which gives the next result.
/// Stopping a running service that fails: log, start it again, fail. Copying,
/// backing up and swapping that fail, and a copy without a version: the
/// failed replacement (a failed swap after a backup first restores the
/// backup). After the swap: log, then restart a service that was running (a
/// failed restart restores the backup and fails) and delete the backup.
pub open spec fn upgrade_step_of(name: Seq<char>, s: UpgradeState, result: Result<bool, Seq<char>>) -> (
    UpgradeState,
    Seq<(int, Seq<char>, Seq<char>)>,
) {
    let replaced = log_act("upgrade"@, fill("[{0}] Host binary replaced"@, seq![name], 1));
    match s {
        UpgradeState::Querying => match result {
            Ok(true) => (UpgradeState::Stopping, seq![act(1)]),
            _ => (UpgradeState::Copying { was_running: false }, seq![act(3), act(4), act(5)]),
        },
        UpgradeState::Stopping => match result {
            Ok(_) => (UpgradeState::Copying { was_running: true }, seq![act(3), act(4), act(5)]),
            Err(_) => (
                UpgradeState::Done { upgraded: false },
                seq![
                    log_act(
                        "error"@,
                        fill("[{0}] Failed to stop service, skipping upgrade"@, seq![name], 1),
                    ),
                    act(2),
                ],
            ),
        },
        UpgradeState::Copying { was_running } => match result {
            Ok(_) => (UpgradeState::Verifying { was_running }, seq![act(6)]),
            Err(e) => replace_failed(name, was_running, e),
        },
        UpgradeState::Verifying { was_running } => match result {
            Ok(true) => (UpgradeState::Locating { was_running }, seq![act(7)]),
            _ => replace_failed(name, was_running, version_missing_detail()),
        },
        UpgradeState::Locating { was_running } => match result {
            Ok(true) => (UpgradeState::BackingUp { was_running }, seq![act(8)]),
            _ => (UpgradeState::Swapping { was_running, backed_up: false }, seq![act(9)]),
        },
        UpgradeState::BackingUp { was_running } => match result {
            Ok(_) => (UpgradeState::Swapping { was_running, backed_up: true }, seq![act(9)]),
            Err(e) => replace_failed(name, was_running, e),
        },
        UpgradeState::Swapping { was_running, backed_up } => match result {
            Ok(_) => if was_running {
                (UpgradeState::Restarting, seq![replaced, act(2)])
            } else {
                (UpgradeState::Done { upgraded: true }, seq![replaced, act(4)])
            },
            Err(e) => {
                let (st, acts) = replace_failed(name, was_running, e);
                (st, if backed_up {
                    seq![act(10)] + acts
                } else {
                    acts
                })
            },
        },
        UpgradeState::Restarting => match result {
            Ok(_) => (
                UpgradeState::Done { upgraded: true },
                seq![log_act("upgrade"@, fill("[{0}] Service restarted"@, seq![name], 1)), act(4)],
            ),
            Err(e) => (
                UpgradeState::Done { upgraded: false },
                seq![act(11), log_act("error"@, upgrade_failed_line_of(name, e))],
            ),
        },
        UpgradeState::Done { upgraded } => (UpgradeState::Done { upgraded }, Seq::empty()),
    }
}

/// The first step of a replacement: ask whether the service runs.
pub fn upgrade_begin() -> (r: (UpgradeState, Vec<UpgradeAction>))
    ensures
        r.0 == UpgradeState::Querying,
        actions_view(r.1@) == seq![act(0)],
{
    let mut v: Vec<UpgradeAction> = Vec::new();
    v.push(UpgradeAction::QueryStatus);
    assert(actions_view(v@) =~= seq![act(0)]);
    (UpgradeState::Querying, v)
}

fn log_line(channel: &str, line: String) -> (r: UpgradeAction)
    ensures
        action_view(r) == log_act(channel@, line@),
{
    UpgradeAction::Log(channel.to_owned(), line)
}

fn failed_actions(name: &str, was_running: bool, detail: &str, restore_first: bool) -> (r: Vec<
    UpgradeAction,
>)
    ensures
        actions_view(r@) == (if restore_first {
            seq![act(10)]
        } else {
            Seq::empty()
        }) + replace_failed(name@, was_running, detail@).1,
{
    let mut v: Vec<UpgradeAction> = Vec::new();
    if restore_first {
        v.push(UpgradeAction::RestoreBackup);
    }
    let ghost pre = actions_view(v@);
    v.push(UpgradeAction::RemoveTemp);
    v.push(UpgradeAction::RemoveBackup);
    v.push(log_line("error", f2("[{0}] Upgrade failed: {1}", name, detail)));
    if was_running {
        v.push(UpgradeAction::StartService);
    }
    assert(actions_view(v@) =~= pre + replace_failed(name@, was_running, detail@).1);
    v
}

/// One step of the replacement of the host of `name`.
pub fn upgrade_step(name: &str, s: UpgradeState, result: Result<bool, String>) -> (r: (
    UpgradeState,
    Vec<UpgradeAction>,
))
    ensures
        (r.0, actions_view(r.1@)) == upgrade_step_of(
            name@,
            s,
            match result {
                Ok(b) => Ok(b),
                Err(e) => Err(e@),
            },
        ),
{
    let mut v: Vec<UpgradeAction> = Vec::new();
    match s {
        UpgradeState::Querying => {
            if let Ok(true) = result {
                v.push(UpgradeAction::StopService);
                assert(actions_view(v@) =~= seq![act(1)]);
                (UpgradeState::Stopping, v)
            } else {
                v.push(UpgradeAction::RemoveTemp);
                v.push(UpgradeAction::RemoveBackup);
                v.push(UpgradeAction::CopyToTemp);
                assert(actions_view(v@) =~= seq![act(3), act(4), act(5)]);
                (UpgradeState::Copying { was_running: false }, v)
            }
        },
        UpgradeState::Stopping => {
            match result {
                Ok(_) => {
                    v.push(UpgradeAction::RemoveTemp);
                    v.push(UpgradeAction::RemoveBackup);
                    v.push(UpgradeAction::CopyToTemp);
                    assert(actions_view(v@) =~= seq![act(3), act(4), act(5)]);
                    (UpgradeState::Copying { was_running: true }, v)
                },
                Err(_) => {
                    v.push(
                        log_line(
                            "error",
                            f1("[{0}] Failed to stop service, skipping upgrade", name),
                        ),
                    );
                    v.push(UpgradeAction::StartService);
                    let ghost line = fill(
                        "[{0}] Failed to stop service, skipping upgrade"@,
                        seq![name@],
                        1,
                    );
                    assert(actions_view(v@) =~= seq![log_act("error"@, line), act(2)]);
                    (UpgradeState::Done { upgraded: false }, v)
                },
            }
        },
        UpgradeState::Copying { was_running } => {
            match result {
                Ok(_) => {
                    v.push(UpgradeAction::ReadTempVersion);
                    assert(actions_view(v@) =~= seq![act(6)]);
                    (UpgradeState::Verifying { was_running }, v)
                },
                Err(e) => {
                    let w = failed_actions(name, was_running, e.as_str(), false);
                    assert(actions_view(w@) =~= replace_failed(name@, was_running, e@).1);
                    (UpgradeState::Done { upgraded: false }, w)
                },
            }
        },
        UpgradeState::Verifying { was_running } => {
            if let Ok(true) = result {
                v.push(UpgradeAction::CheckHostExists);
                assert(actions_view(v@) =~= seq![act(7)]);
                (UpgradeState::Locating { was_running }, v)
            } else {
                let w = failed_actions(name, was_running, "invalid temp host version", false);
                assert(actions_view(w@) =~= replace_failed(
                    name@,
                    was_running,
                    version_missing_detail(),
                ).1);
                (UpgradeState::Done { upgraded: false }, w)
            }
        },
        UpgradeState::Locating { was_running } => {
            if let Ok(true) = result {
                v.push(UpgradeAction::MoveHostToBackup);
                assert(actions_view(v@) =~= seq![act(8)]);
                (UpgradeState::BackingUp { was_running }, v)
            } else {
                v.push(UpgradeAction::MoveTempToHost);
                assert(actions_view(v@) =~= seq![act(9)]);
                (UpgradeState::Swapping { was_running, backed_up: false }, v)
            }
        },
        UpgradeState::BackingUp { was_running } => {
            match result {
                Ok(_) => {
                    v.push(UpgradeAction::MoveTempToHost);
                    assert(actions_view(v@) =~= seq![act(9)]);
                    (UpgradeState::Swapping { was_running, backed_up: true }, v)
                },
                Err(e) => {
                    let w = failed_actions(name, was_running, e.as_str(), false);
                    assert(actions_view(w@) =~= replace_failed(name@, was_running, e@).1);
                    (UpgradeState::Done { upgraded: false }, w)
                },
            }
        },
        UpgradeState::Swapping { was_running, backed_up } => {
            match result {
                Ok(_) => {
                    v.push(log_line("upgrade", f1("[{0}] Host binary replaced", name)));
                    let ghost replaced = log_act(
                        "upgrade"@,
                        fill("[{0}] Host binary replaced"@, seq![name@], 1),
                    );
                    if was_running {
                        v.push(UpgradeAction::StartService);
                        assert(actions_view(v@) =~= seq![replaced, act(2)]);
                        (UpgradeState::Restarting, v)
                    } else {
                        v.push(UpgradeAction::RemoveBackup);
                        assert(actions_view(v@) =~= seq![replaced, act(4)]);
                        (UpgradeState::Done { upgraded: true }, v)
                    }
                },
                Err(e) => {
                    let w = failed_actions(name, was_running, e.as_str(), backed_up);
                    if !backed_up {
                        assert(actions_view(w@) =~= replace_failed(name@, was_running, e@).1);
                    }
                    (UpgradeState::Done { upgraded: false }, w)
                },
            }
        },
        UpgradeState::Restarting => {
            match result {
                Ok(_) => {
                    v.push(log_line("upgrade", f1("[{0}] Service restarted", name)));
                    v.push(UpgradeAction::RemoveBackup);
                    let ghost line = fill("[{0}] Service restarted"@, seq![name@], 1);
                    assert(actions_view(v@) =~= seq![log_act("upgrade"@, line), act(4)]);
                    (UpgradeState::Done { upgraded: true }, v)
                },
                Err(e) => {
                    v.push(UpgradeAction::RestoreBackupIfPresent);
                    v.push(log_line("error", f2("[{0}] Upgrade failed: {1}", name, e.as_str())));
                    assert(actions_view(v@) =~= seq![
                        act(11),
                        log_act("error"@, upgrade_failed_line_of(name@, e@)),
                    ]);
                    (UpgradeState::Done { upgraded: false }, v)
                },
            }
        },
        UpgradeState::Done { upgraded } => {
            assert(actions_view(v@) =~= Seq::<(int, Seq<char>, Seq<char>)>::empty());
            (UpgradeState::Done { upgraded }, v)
        },
    }
}

// ==================== laws of the replacement ====================

/// How many steps at most remain from a state.
pub open spec fn steps_left(s: UpgradeState) -> int {
    match s {
        UpgradeState::Querying => 8,
        UpgradeState::Stopping => 7,
        UpgradeState::Copying { .. } => 6,
        UpgradeState::Verifying { .. } => 5,
        UpgradeState::Locating { .. } => 4,
        UpgradeState::BackingUp { .. } => 3,
        UpgradeState::Swapping { .. } => 2,
        UpgradeState::Restarting => 1,
        UpgradeState::Done { .. } => 0,
    }
}

/// Every step from an unfinished state moves closer to the end, so a
/// replacement finishes within eight steps; a finished one stays finished
/// and asks for nothing more.
pub proof fn lemma_upgrade_progress(name: Seq<char>, s: UpgradeState, result: Result<bool, Seq<char>>)
    ensures
        s is Done ==> upgrade_step_of(name, s, result) == (s, Seq::<(int, Seq<char>, Seq<char>)>::empty()),
        !(s is Done) ==> steps_left(upgrade_step_of(name, s, result).0) < steps_left(s),
        steps_left(s) >= 0,
{
}

/// A host counts as upgraded only after the copy was swapped in: the
/// transitions into an upgraded end leave a swap or a restart that succeeded.
pub proof fn lemma_upgraded_only_after_swap(
    name: Seq<char>,
    s: UpgradeState,
    result: Result<bool, Seq<char>>,
)
    requires
        !(s is Done),
        upgrade_step_of(name, s, result).0 == (UpgradeState::Done { upgraded: true }),
    ensures
        s is Swapping || s is Restarting,
        result is Ok,
{
}

/// A service that was running is started again whenever the replacement
/// fails after it was stopped (and also when stopping it failed).
pub proof fn lemma_running_service_restarted(
    name: Seq<char>,
    s: UpgradeState,
    result: Result<bool, Seq<char>>,
)
    requires
        match s {
            UpgradeState::Stopping => true,
            UpgradeState::Copying { was_running } => was_running,
            UpgradeState::Verifying { was_running } => was_running,
            UpgradeState::BackingUp { was_running } => was_running,
            UpgradeState::Swapping { was_running, .. } => was_running,
            _ => false,
        },
        upgrade_step_of(name, s, result).0 == (UpgradeState::Done { upgraded: false }),
    ensures
        upgrade_step_of(name, s, result).1.contains(act(2)),
{
    let acts = upgrade_step_of(name, s, result).1;
    match s {
        UpgradeState::Stopping => {
            assert(acts[1] == act(2));
        },
        UpgradeState::Swapping { backed_up, .. } => {
            if backed_up {
                assert(acts[4] == act(2));
            } else {
                assert(acts[3] == act(2));
            }
        },
        _ => {
            assert(acts[3] == act(2));
        },
    }
}

/// Once the old host was moved to the backup, a failed swap puts it back
/// before anything else happens.
pub proof fn lemma_failed_swap_restores_backup(
    name: Seq<char>,
    was_running: bool,
    detail: Seq<char>,
)
    ensures
        upgrade_step_of(
            name,
            UpgradeState::Swapping { was_running, backed_up: true },
            Err(detail),
        ).1[0] == act(10),
        upgrade_step_of(
            name,
            UpgradeState::Swapping { was_running, backed_up: true },
            Err(detail),
        ).0 == (UpgradeState::Done { upgraded: false }),
{
}

// ==================== the scan ====================

/// How a scan opens: `Err` with the line to log and whether expired logs are
/// still cleaned up, or `Ok` with the line announcing the scan.
pub open spec fn scan_opening_of(registered: nat, remaining: nat, own_version: Option<Seq<char>>) -> Result<
    Seq<char>,
    (Seq<char>, bool),
> {
    if registered == 0 {
        Err(("No registered services found, skipping upgrade"@, true))
    } else if remaining == 0 {
        Err(("All services were stale, nothing to upgrade"@, true))
    } else {
        match own_version {
            None => Err(("Unable to determine current version, aborting"@, false)),
            Some(v) => Ok(
                fill(
                    "Scanning {0} registered service(s) | Current version: v{1}"@,
                    seq![decimal(remaining), v],
                    2,
                ),
            ),
        }
    }
}

/// Decides how a scan opens, from the number of deployment directories, the
/// number left after removing stale ones, and the running host's version.
pub fn scan_opening(registered: u64, remaining: u64, own_version: Option<&str>) -> (r: Result<
    String,
    (String, bool),
>)
    ensures
        match r {
            Ok(m) => scan_opening_of(
                registered as nat,
                remaining as nat,
                crate::config::opt_str_view(own_version),
            ) == Ok::<Seq<char>, (Seq<char>, bool)>(m@),
            Err((m, c)) => scan_opening_of(
                registered as nat,
                remaining as nat,
                crate::config::opt_str_view(own_version),
            ) == Err::<Seq<char>, (Seq<char>, bool)>((m@, c)),
        },
{
    if registered == 0 {
        return Err(("No registered services found, skipping upgrade".to_owned(), true));
    }
    if remaining == 0 {
        return Err(("All services were stale, nothing to upgrade".to_owned(), true));
    }
    match own_version {
        None => Err(("Unable to determine current version, aborting".to_owned(), false)),
        Some(v) => {
            let n = string_from_chars(&decimal_chars(remaining));
            Ok(f2("Scanning {0} registered service(s) | Current version: v{1}", n.as_str(), v))
        },
    }
}

/// What a scan has done so far.
#[derive(Debug, PartialEq, Eq, Clone, Copy)]
pub struct Tally {
    pub upgraded: u64,
    pub skipped: u64,
    pub failed: u64,
}

impl Tally {
    /// Services counted.
    pub open spec fn total(&self) -> int {
        self.upgraded + self.skipped + self.failed
    }

    /// Nothing counted yet.
    pub fn new() -> (r: Self)
        ensures
            r.upgraded == 0 && r.skipped == 0 && r.failed == 0,
    {
        Tally { upgraded: 0, skipped: 0, failed: 0 }
    }

    /// Counts a skipped service.
    pub fn skip(&mut self)
        requires
            old(self).skipped < u64::MAX,
        ensures
            *final(self) == (Tally { skipped: (old(self).skipped + 1) as u64, ..*old(self) }),
    {
        self.skipped = self.skipped + 1;
    }

    /// Counts a finished replacement.
    pub fn finish(&mut self, upgraded: bool)
        requires
            upgraded ==> old(self).upgraded < u64::MAX,
            !upgraded ==> old(self).failed < u64::MAX,
        ensures
            upgraded ==> *final(self) == (Tally {
                upgraded: (old(self).upgraded + 1) as u64,
                ..*old(self)
            }),
            !upgraded ==> *final(self) == (Tally { failed: (old(self).failed + 1) as u64, ..*old(self) }),
            final(self).total() == old(self).total() + 1,
    {
        if upgraded {
            self.upgraded = self.upgraded + 1;
        } else {
            self.failed = self.failed + 1;
        }
    }

    /// The line that closes a scan.
    pub open spec fn summary_of(&self) -> Seq<char> {
        fill(
            "Scan complete: {0} upgraded | {1} skipped | {2} failed"@,
            seq![decimal(self.upgraded as nat), decimal(self.skipped as nat), decimal(self.failed as nat)],
            3,
        )
    }

    /// The line that closes a scan.
    pub fn summary(&self) -> (r: String)
        ensures
            r@ == self.summary_of(),
    {
        let u = string_from_chars(&decimal_chars(self.upgraded));
        let s = string_from_chars(&decimal_chars(self.skipped));
        let fl = string_from_chars(&decimal_chars(self.failed));
        let args: [&str; 3] = [u.as_str(), s.as_str(), fl.as_str()];
        assert(str_views(args@) =~= seq![u@, s@, fl@]);
        f("Scan complete: {0} upgraded | {1} skipped | {2} failed", &args)
    }
}

} // verus!
