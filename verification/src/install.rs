//! Installing a service (`--install <config path>`): the checks that refuse a
//! configuration, what an existing registration allows, and the registration
//! that follows. The caller gathers the facts, deploys the files, talks to the
//! service manager and prints.

use vstd::prelude::*;
use crate::cli::{invalid_name_message_of, usage_line_of, CliExit};
use crate::config::{has_download, opt_view, present_nonblank, ServiceConfig};
use crate::names::{is_reserved_service_name, is_valid_service_name, updater_service_name, valid_service_name};
use crate::paths::{
    file_name_exec, file_name_of, file_stem_exec, file_stem_of, is_rooted, is_rooted_of, join_of,
    path_join, strip_quotes, strip_quotes_of, strip_verbatim_prefix, strip_verbatim_prefix_of,
};
use crate::scm::{failure_reset_of, failure_settings, parse_start_mode, restart_delay_of, start_mode_of};
use crate::tail::{with_extension, with_extension_of};
use crate::template::{f, fill, str_views};
use crate::text::{
    ascii_lower, ascii_lower_seq, chars_of, eq_ignore_ascii_case, extend, lowercased, str_eq, str_eq_ignore_ascii_case,
    string_from_chars, to_lowercase,
};

verus! {

/// The error a check gives, if any.
pub open spec fn err_view(r: Result<(), String>) -> Option<Seq<char>> {
    match r {
        Ok(()) => None,
        Err(m) => Some(m@),
    }
}

/// `--install <config path>`: the configuration path, or the usage line when it is missing.
pub fn install_argument(args: &[&str]) -> (r: Result<String, CliExit>)
    ensures
        match r {
            Ok(p) => args@.len() > 0 && p@ == args@[0]@,
            Err(CliExit::Usage(u)) => args@.len() == 0 && u@ == usage_line_of(
                "install <config path>"@,
            ),
            Err(CliExit::Error(_)) => false,
        },
{
    if args.len() == 0 {
        let a: [&str; 1] = ["install <config path>"];
        assert(str_views(a@) =~= seq!["install <config path>"@]);
        return Err(CliExit::Usage(f("Usage: -m --{0}", &a)));
    }
    Ok(args[0].to_owned())
}

/// The error for a configuration file that does not exist.
pub fn config_missing_message() -> (r: String)
    ensures
        r@ == "Config file not found"@,
{
    "Config file not found".to_owned()
}

/// The message for a name that the updater reserves.
pub open spec fn reserved_name_message_of(name: Seq<char>) -> Seq<char> {
    fill(
        "Service name '{0}' is reserved for the internal Silanes service updater. Use a different service_name."@,
        seq![name],
        1,
    )
}

/// What a service name to install is refused for: an invalid name, or the
/// updater's name in any ASCII case.
pub open spec fn name_error_of(name: Seq<char>) -> Option<Seq<char>> {
    if !valid_service_name(name) {
        Some(invalid_name_message_of(name))
    } else if eq_ignore_ascii_case(name, updater_service_name()) {
        Some(reserved_name_message_of(name))
    } else {
        None
    }
}

/// Checks the name of a service to install.
pub fn check_install_name(name: &str) -> (r: Result<(), String>)
    ensures
        err_view(r) == name_error_of(name@),
{
    let a: [&str; 1] = [name];
    assert(str_views(a@) =~= seq![name@]);
    if !is_valid_service_name(name) {
        return Err(
            f(
                "Invalid service name: '{0}'. Service names must be 1-256 chars, must not be '.' or '..', and must not contain '\\', '/' or control characters.",
                &a,
            ),
        );
    }
    if is_reserved_service_name(name) {
        return Err(
            f(
                "Service name '{0}' is reserved for the internal Silanes service updater. Use a different service_name.",
                &a,
            ),
        );
    }
    Ok(())
}

/// Whether the configured executable must exist at install time and does
/// not: no download is configured and its path is rooted. (A download target
/// is fetched at start, and a relative path is resolved in the deployment
/// directory.)
pub open spec fn executable_missing_of(config: ServiceConfig, executable_found: bool) -> bool {
    !present_nonblank(opt_view(config.download_url)) && is_rooted_of(
        config.service_executable_path@,
    ) && !executable_found
}

/// The configuration file an in-place host reads: its own path with the
/// extension `yaml`.
pub open spec fn own_config_path_of(own_exe: Seq<char>) -> Seq<char> {
    with_extension_of(own_exe, "yaml"@)
}

/// The error for an in-place configuration file in the wrong place, naming
/// the file that is expected.
pub open spec fn inplace_config_message_of(expected: Seq<char>) -> Seq<char> {
    fill(
        "deploy_inplace: config file must be named '{0}' next to the executable (host reads its own .yaml by name)."@,
        seq![
            match file_name_of(expected) {
                Some(n) => n,
                None => "config.yaml"@,
            },
        ],
        1,
    )
}

/// The in-place configuration file must be the host's own `.yaml` (compared
/// after `str::to_lowercase`, the `\\?\` of canonicalizing removed).
pub open spec fn inplace_config_error_of(own_exe: Seq<char>, config_path: Seq<char>) -> Option<
    Seq<char>,
> {
    let expected = own_config_path_of(own_exe);
    if lowercased(expected) != lowercased(strip_verbatim_prefix_of(config_path)) {
        Some(inplace_config_message_of(expected))
    } else {
        None
    }
}

/// The error for an in-place host whose directory, executable or
/// configuration unprivileged users can write.
pub open spec fn inplace_writable_message() -> Seq<char> {
    fill(
        "Application error: {0}"@,
        seq![
            "deploy_inplace: directory (or its exe/yaml) is writable by unprivileged users. Move the executable to a SYSTEM/Administrators-only location (e.g. Program Files)."@,
        ],
        1,
    )
}

/// The file stem of the host executable (empty when it has none).
pub open spec fn exe_stem_of(own_exe: Seq<char>) -> Seq<char> {
    match file_stem_of(own_exe) {
        Some(s) => s,
        None => Seq::empty(),
    }
}

/// The error for an in-place service whose name is not the host's file stem
/// (the service manager dispatches by that name).
pub open spec fn inplace_name_error_of(own_exe: Seq<char>, name: Seq<char>) -> Option<Seq<char>> {
    if !eq_ignore_ascii_case(name, exe_stem_of(own_exe)) {
        Some(
            fill(
                "Application error: {0}"@,
                seq![
                    "deploy_inplace: service_name must equal the executable file name '"@
                        + exe_stem_of(own_exe)
                        + "', otherwise SCM cannot dispatch the service."@,
                ],
                1,
            ),
        )
    } else {
        None
    }
}

/// The message for a name that another service holds.
pub open spec fn already_registered_message_of(name: Seq<char>) -> Seq<char> {
    fill(
        "Service name '{0}' is already registered by a different service. Use a different service_name or uninstall it first."@,
        seq![name],
        1,
    )
}

/// Whether an existing registration of the name belongs to someone else: in
/// place, when its image path (quotes removed) is not this host (ASCII case
/// ignored; an unreadable image path is no conflict); deployed, when the
/// deployed configuration does not allow the overwrite.
pub open spec fn conflict_of(
    inplace: bool,
    exists: bool,
    image: Option<Seq<char>>,
    own_exe: Seq<char>,
    overwrite_allowed: bool,
) -> bool {
    exists && if inplace {
        match image {
            Some(i) => !eq_ignore_ascii_case(strip_quotes_of(i), own_exe),
            None => false,
        }
    } else {
        !overwrite_allowed
    }
}

/// What the install command learned of the system before it decides.
pub struct InstallFacts {
    /// The configuration file's path, canonical where that succeeded.
    pub config_path: String,
    /// The running host executable.
    pub own_exe: String,
    /// The services directory.
    pub registry_dir: String,
    /// Whether the configured executable exists.
    pub executable_found: bool,
    /// In place: whether the host's directory, the host or the configuration
    /// file is writable by unprivileged users.
    pub inplace_writable: bool,
    /// Whether the service manager knows a service of that name.
    pub service_exists: bool,
    /// In place: the registered image path of that service, when readable.
    pub image_path: Option<String>,
    /// Deployed: whether the existing registration may be overwritten
    /// (`can_overwrite_source`).
    pub overwrite_allowed: bool,
}

/// The registration an install performs.
pub struct InstallPlan {
    /// Whether a registration of the name is replaced.
    pub is_update: bool,
    /// The service's deployment directory.
    pub base_dir: String,
    /// Where the host copy goes (deployed installs).
    pub exe_dest: String,
    /// Where the configuration copy goes (deployed installs).
    pub yaml_dest: String,
    /// The quoted image path registered with the service manager.
    pub bin_path: String,
    /// Start type.
    pub start_type: u32,
    /// Whether automatic start is delayed.
    pub delayed_auto: bool,
    /// Failure-counter reset period in seconds.
    pub failure_reset_sec: u32,
    /// Restart delay in milliseconds.
    pub restart_delay_ms: u32,
}

/// Why an install is refused, checked in this order: the name, a missing
/// executable, the in-place configuration file, the in-place permissions,
/// the in-place service name, a registration that belongs to someone else.
pub open spec fn install_error_of(c: ServiceConfig, f: InstallFacts) -> Option<Seq<char>> {
    let name = c.service_name@;
    if name_error_of(name) is Some {
        name_error_of(name)
    } else if executable_missing_of(c, f.executable_found) {
        Some("Invalid file path in service config"@)
    } else if c.deploy_inplace && inplace_config_error_of(f.own_exe@, f.config_path@) is Some {
        inplace_config_error_of(f.own_exe@, f.config_path@)
    } else if c.deploy_inplace && f.inplace_writable {
        Some(inplace_writable_message())
    } else if c.deploy_inplace && inplace_name_error_of(f.own_exe@, name) is Some {
        inplace_name_error_of(f.own_exe@, name)
    } else if conflict_of(
        c.deploy_inplace,
        f.service_exists,
        opt_view(f.image_path),
        f.own_exe@,
        f.overwrite_allowed,
    ) {
        Some(already_registered_message_of(name))
    } else {
        None
    }
}

/// A path in double quotes.
pub open spec fn quoted(p: Seq<char>) -> Seq<char> {
    seq!['"'] + p + seq!['"']
}

fn quote(p: &str) -> (r: String)
    ensures
        r@ == quoted(p@),
{
    let mut v: Vec<char> = Vec::new();
    v.push('"');
    extend(&mut v, &chars_of(p));
    v.push('"');
    assert(v@ =~= quoted(p@));
    string_from_chars(&v)
}

fn named_file(base: &str, name: &str, ext: &str) -> (r: String)
    ensures
        r@ == join_of(base@, name@ + ext@),
{
    let mut v = chars_of(name);
    extend(&mut v, &chars_of(ext));
    path_join(base, string_from_chars(&v).as_str())
}

/// Decides an install: the refusal, or the registration to perform. The
/// deployment directory is the name under the services directory; a deployed
/// install copies the host to `<name>.exe` and the configuration to
/// `<name>.yaml` there and registers that copy, an in-place install registers
/// the running host; both quoted. Start type, delay and recovery settings
/// come from the configuration.
pub fn install_command(config: &ServiceConfig, facts: &InstallFacts) -> (r: Result<InstallPlan, String>)
    ensures
        match r {
            Err(m) => install_error_of(*config, *facts) == Some(m@),
            Ok(p) => {
                &&& install_error_of(*config, *facts) is None
                &&& p.is_update == facts.service_exists
                &&& p.base_dir@ == join_of(facts.registry_dir@, config.service_name@)
                &&& p.exe_dest@ == join_of(p.base_dir@, config.service_name@ + ".exe"@)
                &&& p.yaml_dest@ == join_of(p.base_dir@, config.service_name@ + ".yaml"@)
                &&& p.bin_path@ == quoted(
                    if config.deploy_inplace {
                        facts.own_exe@
                    } else {
                        p.exe_dest@
                    },
                )
                &&& (p.start_type, p.delayed_auto) == start_mode_of(
                    opt_view(config.service_start_mode),
                )
                &&& p.failure_reset_sec == failure_reset_of(config.failure_reset_sec)
                &&& p.restart_delay_ms == restart_delay_of(config.restart_delay_ms)
            },
        },
{
    let name = config.service_name.as_str();
    match check_install_name(name) {
        Err(m) => {
            return Err(m);
        },
        Ok(()) => {},
    }
    let rooted = is_rooted(&chars_of(config.service_executable_path.as_str()));
    if !has_download(config) && rooted && !facts.executable_found {
        return Err("Invalid file path in service config".to_owned());
    }
    let inplace = config.deploy_inplace;
    let own_exe = facts.own_exe.as_str();
    if inplace {
        let expected = with_extension(own_exe, "yaml");
        let given = strip_verbatim_prefix(facts.config_path.as_str());
        if !str_eq(to_lowercase(expected.as_str()).as_str(), to_lowercase(given.as_str()).as_str()) {
            let file = match file_name_exec(&chars_of(expected.as_str())) {
                Some(n) => string_from_chars(&n),
                None => "config.yaml".to_owned(),
            };
            let a: [&str; 1] = [file.as_str()];
            assert(str_views(a@) =~= seq![file@]);
            return Err(
                f(
                    "deploy_inplace: config file must be named '{0}' next to the executable (host reads its own .yaml by name).",
                    &a,
                ),
            );
        }
        if facts.inplace_writable {
            let a: [&str; 1] = [
                "deploy_inplace: directory (or its exe/yaml) is writable by unprivileged users. Move the executable to a SYSTEM/Administrators-only location (e.g. Program Files).",
            ];
            assert(str_views(a@) =~= seq![a@[0]@]);
            return Err(f("Application error: {0}", &a));
        }
        let stem = match file_stem_exec(&chars_of(own_exe)) {
            Some(s) => string_from_chars(&s),
            None => String::new(),
        };
        assert(stem@ == exe_stem_of(own_exe@));
        if !str_eq_ignore_ascii_case(name, stem.as_str()) {
            let mut v = chars_of("deploy_inplace: service_name must equal the executable file name '");
            extend(&mut v, &chars_of(stem.as_str()));
            extend(&mut v, &chars_of("', otherwise SCM cannot dispatch the service."));
            let detail = string_from_chars(&v);
            let a: [&str; 1] = [detail.as_str()];
            assert(str_views(a@) =~= seq![detail@]);
            return Err(f("Application error: {0}", &a));
        }
    }
    let conflict = if !facts.service_exists {
        false
    } else if inplace {
        match &facts.image_path {
            Some(i) => !str_eq_ignore_ascii_case(strip_quotes(i.as_str()).as_str(), own_exe),
            None => false,
        }
    } else {
        !facts.overwrite_allowed
    };
    if conflict {
        let a: [&str; 1] = [name];
        assert(str_views(a@) =~= seq![name@]);
        return Err(
            f(
                "Service name '{0}' is already registered by a different service. Use a different service_name or uninstall it first.",
                &a,
            ),
        );
    }
    let base_dir = path_join(facts.registry_dir.as_str(), name);
    let exe_dest = named_file(base_dir.as_str(), name, ".exe");
    let yaml_dest = named_file(base_dir.as_str(), name, ".yaml");
    let bin_path = if inplace {
        quote(own_exe)
    } else {
        quote(exe_dest.as_str())
    };
    let mode: Option<&str> = match &config.service_start_mode {
        Some(m) => Some(m.as_str()),
        None => None,
    };
    assert(crate::config::opt_str_view(mode) == opt_view(config.service_start_mode));
    let (start_type, delayed_auto) = parse_start_mode(mode);
    let (failure_reset_sec, restart_delay_ms) = failure_settings(
        config.failure_reset_sec,
        config.restart_delay_ms,
    );
    Ok(
        InstallPlan {
            is_update: facts.service_exists,
            base_dir,
            exe_dest,
            yaml_dest,
            bin_path,
            start_type,
            delayed_auto,
            failure_reset_sec,
            restart_delay_ms,
        },
    )
}

/// The line printed once the service manager accepted the registration.
pub open spec fn install_done_message_of(is_update: bool) -> Seq<char> {
    if is_update {
        "Service updated successfully"@
    } else {
        "Service registered successfully"@
    }
}

/// The message for a successful install.
pub fn install_done_message(is_update: bool) -> (r: String)
    ensures
        r@ == install_done_message_of(is_update),
{
    if is_update {
        "Service updated successfully".to_owned()
    } else {
        "Service registered successfully".to_owned()
    }
}

/// The error for a registration that failed with `detail`.
pub open spec fn registration_failed_message_of(detail: Seq<char>) -> Seq<char> {
    fill("Service registration failed: {0}"@, seq![detail], 1)
}

/// The error for a registration that failed.
pub fn registration_failed_message(detail: &str) -> (r: String)
    ensures
        r@ == registration_failed_message_of(detail@),
{
    let a: [&str; 1] = [detail];
    assert(str_views(a@) =~= seq![detail@]);
    f("Service registration failed: {0}", &a)
}

/// The arguments of a service executable as compared between two
/// configurations: an absent one counts as empty.
pub open spec fn args_or_empty(a: Option<Seq<char>>) -> Seq<char> {
    match a {
        Some(s) => s,
        None => Seq::empty(),
    }
}

/// Whether a deployed registration may be overwritten: when both the deployed
/// and the new configuration could be read, if they name the same executable
/// and arguments (ASCII case ignored); otherwise, if the registration is a
/// platform deployment.
pub open spec fn can_overwrite_source_of(
    existing: Option<ServiceConfig>,
    current: Option<ServiceConfig>,
    silanes_deployed: bool,
) -> bool {
    match (existing, current) {
        (Some(e), Some(c)) => eq_ignore_ascii_case(
            e.service_executable_path@,
            c.service_executable_path@,
        ) && eq_ignore_ascii_case(
            args_or_empty(opt_view(e.service_executable_args)),
            args_or_empty(opt_view(c.service_executable_args)),
        ),
        _ => silanes_deployed,
    }
}

proof fn lemma_ignore_case_is_lowered_equality(a: Seq<char>, b: Seq<char>)
    ensures
        eq_ignore_ascii_case(a, b) <==> ascii_lower_seq(a) == ascii_lower_seq(b),
{
    if eq_ignore_ascii_case(a, b) {
        assert(ascii_lower_seq(a) =~= ascii_lower_seq(b));
    }
    if ascii_lower_seq(a) == ascii_lower_seq(b) {
        assert(a.len() == ascii_lower_seq(a).len());
        assert(b.len() == ascii_lower_seq(b).len());
        assert forall|i: int| 0 <= i < a.len() implies ascii_lower(#[trigger] a[i]) == ascii_lower(b[i]) by {
            assert(ascii_lower_seq(a)[i] == ascii_lower_seq(b)[i]);
        }
    }
}

/// Reinstalling over a registration whose deployed configuration and the new
/// one could both be read is allowed exactly when both name the same
/// executable and the same arguments (a missing argument string counting as
/// empty), after lower-casing ASCII letters; other arguments, such as another
/// script run by the same interpreter, refuse it whether or not the
/// registration is a platform deployment.
pub proof fn lemma_overwrite_needs_same_source(e: ServiceConfig, c: ServiceConfig, silanes_deployed: bool)
    ensures
        can_overwrite_source_of(Some(e), Some(c), silanes_deployed) <==> (ascii_lower_seq(
            e.service_executable_path@,
        ) == ascii_lower_seq(c.service_executable_path@) && ascii_lower_seq(
            match e.service_executable_args {
                Some(a) => a@,
                None => Seq::empty(),
            },
        ) == ascii_lower_seq(
            match c.service_executable_args {
                Some(a) => a@,
                None => Seq::empty(),
            },
        )),
{
    lemma_ignore_case_is_lowered_equality(e.service_executable_path@, c.service_executable_path@);
    lemma_ignore_case_is_lowered_equality(
        args_or_empty(opt_view(e.service_executable_args)),
        args_or_empty(opt_view(c.service_executable_args)),
    );
}

/// The configuration an optional reference points to.
pub open spec fn opt_deref(o: Option<&ServiceConfig>) -> Option<ServiceConfig> {
    match o {
        Some(c) => Some(*c),
        None => None,
    }
}

/// Decides whether a deployed registration may be overwritten, given the
/// deployed configuration and the new one (`None` for one that is missing or
/// does not parse) and whether the registration is a platform deployment.
pub fn can_overwrite_source(
    existing: Option<&ServiceConfig>,
    current: Option<&ServiceConfig>,
    silanes_deployed: bool,
) -> (r: bool)
    ensures
        r == can_overwrite_source_of(opt_deref(existing), opt_deref(current), silanes_deployed),
{
    match (existing, current) {
        (Some(e), Some(c)) => {
            proof {
                reveal_strlit("");
            }
            let ea = match &e.service_executable_args {
                Some(a) => a.as_str(),
                None => "",
            };
            let ca = match &c.service_executable_args {
                Some(a) => a.as_str(),
                None => "",
            };
            assert(ea@ == args_or_empty(opt_view(e.service_executable_args)));
            assert(ca@ == args_or_empty(opt_view(c.service_executable_args)));
            str_eq_ignore_ascii_case(
                e.service_executable_path.as_str(),
                c.service_executable_path.as_str(),
            ) && str_eq_ignore_ascii_case(ea, ca)
        },
        _ => silanes_deployed,
    }
}

// ==================== the boot-time updater ====================

/// Where the host is installed: `Silanes\silanes64.exe` under the program
/// files directory (`C:\Program Files` when the environment names none).
pub open spec fn install_path_of(program_files: Option<Seq<char>>) -> Seq<char> {
    join_of(
        join_of(
            match program_files {
                Some(p) => p,
                None => "C:\\Program Files"@,
            },
            "Silanes"@,
        ),
        "silanes64.exe"@,
    )
}

/// The installed host's path.
pub fn install_path(program_files: Option<&str>) -> (r: String)
    ensures
        r@ == install_path_of(crate::config::opt_str_view(program_files)),
{
    let pf = match program_files {
        Some(p) => p.to_owned(),
        None => "C:\\Program Files".to_owned(),
    };
    let dir = path_join(pf.as_str(), "Silanes");
    path_join(dir.as_str(), "silanes64.exe")
}

/// The lines printed when an updater command runs from anywhere but the
/// installed host (ASCII case ignored); none when it runs from there.
pub open spec fn wrong_location_lines_of(own_exe: Seq<char>, installed: Seq<char>) -> Option<
    Seq<Seq<char>>,
> {
    if eq_ignore_ascii_case(own_exe, installed) {
        None
    } else {
        Some(
            seq![
                "Error: This command must be run from the installed location:"@,
                fill("  {0}"@, seq![installed], 1),
                fill("Current: {0}"@, seq![own_exe], 1),
            ],
        )
    }
}

/// Checks that an updater command runs from the installed host.
pub fn check_install_location(own_exe: &str, installed: &str) -> (r: Option<Vec<String>>)
    ensures
        match r {
            None => wrong_location_lines_of(own_exe@, installed@) is None,
            Some(v) => wrong_location_lines_of(own_exe@, installed@) == Some(
                v@.map_values(|l: String| l@),
            ),
        },
{
    if str_eq_ignore_ascii_case(own_exe, installed) {
        return None;
    }
    let mut v: Vec<String> = Vec::new();
    v.push("Error: This command must be run from the installed location:".to_owned());
    v.push(crate::template::f1("  {0}", installed));
    v.push(crate::template::f1("Current: {0}", own_exe));
    assert(v@.map_values(|l: String| l@) =~= seq![
        "Error: This command must be run from the installed location:"@,
        fill("  {0}"@, seq![installed@], 1),
        fill("Current: {0}"@, seq![own_exe@], 1),
    ]);
    Some(v)
}

/// The description the updater service is registered with.
pub open spec fn updater_description() -> Seq<char> {
    "Boot-time maintenance service: upgrades outdated Silanes service hosts to the installed silanes64.exe, removes stale services and orphaned directories, cleans up expired logs, and stops after running once."@
}

/// How the updater is registered.
pub struct UpdaterRegistration {
    /// Service and display name.
    pub name: String,
    /// Description.
    pub description: String,
    /// The quoted host with the arguments that run the updater.
    pub bin_path: String,
    /// Start type (automatic).
    pub start_type: u32,
    /// Failure reset period (none: it runs once).
    pub failure_reset_sec: u32,
    /// Restart delay (none).
    pub restart_delay_ms: u32,
    /// Whether the automatic start is delayed (it is).
    pub delayed_auto: bool,
}

/// The updater's registration for the host at `own_exe`: the reserved name,
/// the host quoted followed by `-internal --updater`, automatic delayed
/// start, no failure recovery.
pub fn updater_registration(own_exe: &str) -> (r: UpdaterRegistration)
    ensures
        r.name@ == updater_service_name(),
        r.description@ == updater_description(),
        r.bin_path@ == quoted(own_exe@) + " -internal --updater"@,
        r.start_type == crate::scm::SERVICE_AUTO_START,
        r.failure_reset_sec == 0,
        r.restart_delay_ms == 0,
        r.delayed_auto,
{
    let mut v: Vec<char> = Vec::new();
    v.push('"');
    extend(&mut v, &chars_of(own_exe));
    v.push('"');
    extend(&mut v, &chars_of(" -internal --updater"));
    assert(v@ =~= quoted(own_exe@) + " -internal --updater"@);
    UpdaterRegistration {
        name: crate::names::updater_name().to_owned(),
        description: "Boot-time maintenance service: upgrades outdated Silanes service hosts to the installed silanes64.exe, removes stale services and orphaned directories, cleans up expired logs, and stops after running once.".to_owned(),
        bin_path: string_from_chars(&v),
        start_type: crate::scm::SERVICE_AUTO_START,
        failure_reset_sec: 0,
        restart_delay_ms: 0,
        delayed_auto: true,
    }
}

// ==================== laws ====================

/// Reinstalling a deployed service from another source is refused: when the
/// name is registered, the deployed and the new configuration could both be
/// read and name different executables (ASCII case ignored), and the checks
/// before the conflict pass, the install fails with the conflict message.
pub proof fn lemma_other_source_refused(
    config: ServiceConfig,
    facts: InstallFacts,
    existing: ServiceConfig,
    silanes_deployed: bool,
)
    requires
        !config.deploy_inplace,
        facts.service_exists,
        facts.overwrite_allowed == can_overwrite_source_of(
            Some(existing),
            Some(config),
            silanes_deployed,
        ),
        !eq_ignore_ascii_case(
            existing.service_executable_path@,
            config.service_executable_path@,
        ),
        name_error_of(config.service_name@) is None,
        !executable_missing_of(config, facts.executable_found),
    ensures
        install_error_of(config, facts) == Some(already_registered_message_of(config.service_name@)),
{
}

/// An install never registers an unquoted image path, and a deployed
/// install registers the copy in the service's own directory.
pub proof fn lemma_image_path_quoted(config: ServiceConfig, facts: InstallFacts, p: InstallPlan)
    requires
        !config.deploy_inplace,
        p.exe_dest@ == join_of(p.base_dir@, config.service_name@ + ".exe"@),
        p.bin_path@ == quoted(p.exe_dest@),
    ensures
        p.bin_path@.len() >= 2,
        p.bin_path@[0] == '"',
        p.bin_path@.last() == '"',
        p.bin_path@.subrange(1, p.bin_path@.len() - 1) == p.exe_dest@,
{
    assert(p.bin_path@.subrange(1, p.bin_path@.len() - 1) =~= p.exe_dest@);
}

} // verus!
