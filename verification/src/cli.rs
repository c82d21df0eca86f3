//! Command-line decisions: routing the arguments, naming the command, and
//! checking the service-name argument of the management commands.

use vstd::prelude::*;
use crate::names::{cli_command, is_cli_command, is_cli_word, is_valid_service_name, valid_service_name};
use crate::template::{f, f1, fill, str_views};
use crate::text::{ascii_lower_seq, chars_of, extend, is_ascii_text, lowercased, str_eq, string_from_chars, sub_vec, to_lowercase};

verus! {

/// Heading of every line the management interface prints.
pub open spec fn interface_name() -> Seq<char> {
    "Silanes Service Management Interface"@
}

/// The line printed for a failed command: `<interface> Error: <message>`.
pub open spec fn error_line_of(message: Seq<char>) -> Seq<char> {
    interface_name() + " Error: "@ + message
}

/// The text of an error line.
pub fn error_line(message: &str) -> (r: String)
    ensures
        r@ == error_line_of(message@),
{
    let mut v = chars_of("Silanes Service Management Interface");
    extend(&mut v, &chars_of(" Error: "));
    extend(&mut v, &chars_of(message));
    string_from_chars(&v)
}

/// The line printed for a success: `<interface>: <message>`.
pub open spec fn status_line_of(message: Seq<char>) -> Seq<char> {
    interface_name() + ": "@ + message
}

/// The text of a status line.
pub fn status_line(message: &str) -> (r: String)
    ensures
        r@ == status_line_of(message@),
{
    let mut v = chars_of("Silanes Service Management Interface");
    extend(&mut v, &chars_of(": "));
    extend(&mut v, &chars_of(message));
    string_from_chars(&v)
}

/// Why a command stops before doing anything; either way the process exits with code 1.
#[derive(Debug, PartialEq, Eq)]
pub enum CliExit {
    /// The usage line to print.
    Usage(String),
    /// The error message to print (in an error line).
    Error(String),
}

/// The usage line for a command syntax.
pub open spec fn usage_line_of(syntax: Seq<char>) -> Seq<char> {
    fill("Usage: -m --{0}"@, seq![syntax], 1)
}

/// The message for a rejected service name.
pub open spec fn invalid_name_message_of(name: Seq<char>) -> Seq<char> {
    fill(
        "Invalid service name: '{0}'. Service names must be 1-256 chars, must not be '.' or '..', and must not contain '\\', '/' or control characters."@,
        seq![name],
        1,
    )
}

/// The outcome of checking a management command's service-name argument,
/// given whether the named service is registered (`is_registered`): the
/// usage line when it is missing, the invalid-name error when the name is
/// not valid, the not-found error when it is not registered, else the name.
pub open spec fn service_argument_of(args: Seq<Seq<char>>, syntax: Seq<char>, registered: bool) -> Result<
    Seq<char>,
    (bool, Seq<char>),
> {
    if args.len() == 0 {
        Err((true, usage_line_of(syntax)))
    } else if !valid_service_name(args[0]) {
        Err((false, invalid_name_message_of(args[0])))
    } else if !registered {
        Err((false, "Service not found in registry"@))
    } else {
        Ok(args[0])
    }
}

/// The view of a `CliExit`: (whether it is a usage line, its text).
pub open spec fn exit_view(e: CliExit) -> (bool, Seq<char>) {
    match e {
        CliExit::Usage(s) => (true, s@),
        CliExit::Error(s) => (false, s@),
    }
}

/// The view of a checked service argument.
pub open spec fn argument_view(r: Result<String, CliExit>) -> Result<Seq<char>, (bool, Seq<char>)> {
    match r {
        Ok(s) => Ok(s@),
        Err(e) => Err(exit_view(e)),
    }
}

/// Checks the service-name argument of a management command with the given
/// syntax; `registered` tells whether the service that the first argument
/// names is registered, and is read only when that name is valid.
pub fn service_argument(args: &[&str], syntax: &str, registered: bool) -> (r: Result<String, CliExit>)
    ensures
        argument_view(r) == service_argument_of(str_views(args@), syntax@, registered),
{
    if args.len() == 0 {
        let a: [&str; 1] = [syntax];
        assert(str_views(a@) =~= seq![syntax@]);
        return Err(CliExit::Usage(f("Usage: -m --{0}", &a)));
    }
    let name = args[0];
    assert(str_views(args@)[0] == name@);
    if !is_valid_service_name(name) {
        let a: [&str; 1] = [name];
        assert(str_views(a@) =~= seq![name@]);
        return Err(
            CliExit::Error(
                f(
                    "Invalid service name: '{0}'. Service names must be 1-256 chars, must not be '.' or '..', and must not contain '\\', '/' or control characters.",
                    &a,
                ),
            ),
        );
    }
    if !registered {
        return Err(CliExit::Error(not_registered_message()));
    }
    Ok(name.to_owned())
}

/// `--uninstall <service name>`: the service to uninstall, once its argument checks out and it is registered.
pub fn uninstall_command(args: &[&str], registered: bool) -> (r: Result<String, CliExit>)
    ensures
        argument_view(r) == service_argument_of(str_views(args@), "uninstall <service name>"@, registered),
{
    service_argument(args, "uninstall <service name>", registered)
}

/// `--start <service name>`: the service to start, once its argument checks out and it is registered.
pub fn start_command(args: &[&str], registered: bool) -> (r: Result<String, CliExit>)
    ensures
        argument_view(r) == service_argument_of(str_views(args@), "start <service name>"@, registered),
{
    service_argument(args, "start <service name>", registered)
}

/// `--stop <service name>`: the service to stop, once its argument checks out and it is registered.
pub fn stop_command(args: &[&str], registered: bool) -> (r: Result<String, CliExit>)
    ensures
        argument_view(r) == service_argument_of(str_views(args@), "stop <service name>"@, registered),
{
    service_argument(args, "stop <service name>", registered)
}

/// `--restart <service name>`: the service to restart, once its argument checks out and it is registered.
pub fn restart_command(args: &[&str], registered: bool) -> (r: Result<String, CliExit>)
    ensures
        argument_view(r) == service_argument_of(str_views(args@), "restart <service name>"@, registered),
{
    service_argument(args, "restart <service name>", registered)
}

/// `--status <service name>`: the service to query, once its argument checks out and it is registered.
pub fn status_command(args: &[&str], registered: bool) -> (r: Result<String, CliExit>)
    ensures
        argument_view(r) == service_argument_of(str_views(args@), "status <service name>"@, registered),
{
    service_argument(args, "status <service name>", registered)
}

/// `--delete <service name>`: the service to force-delete, once its argument checks out and it is registered.
pub fn force_delete_command(args: &[&str], registered: bool) -> (r: Result<String, CliExit>)
    ensures
        argument_view(r) == service_argument_of(str_views(args@), "delete <service name>"@, registered),
{
    service_argument(args, "delete <service name>", registered)
}

// ==================== routing ====================

/// Where the arguments (program name first) send the program.
#[derive(Debug, PartialEq, Eq)]
pub enum Route {
    /// No argument: print help when run interactively, else act as a service host.
    NoArguments,
    /// Print the help text.
    Help,
    /// Run a management command with these arguments (command word first).
    Cli(Vec<String>),
    /// Run an internal maintenance command with these arguments.
    Internal(Vec<String>),
    /// Unknown first argument (lower-cased): report it, print help, exit 1.
    Unknown(String),
}

/// The views of a vector of strings.
pub open spec fn string_views(v: Seq<String>) -> Seq<Seq<char>> {
    v.map_values(|s: String| s@)
}

/// The route as views: (kind, arguments or word), with kinds 0 no arguments,
/// 1 help, 2 management, 3 internal, 4 unknown.
pub open spec fn route_view(r: Route) -> (int, Seq<Seq<char>>) {
    match r {
        Route::NoArguments => (0, Seq::empty()),
        Route::Help => (1, Seq::empty()),
        Route::Cli(v) => (2, string_views(v@)),
        Route::Internal(v) => (3, string_views(v@)),
        Route::Unknown(s) => (4, seq![s@]),
    }
}

/// Routing: with no argument after the program name, no arguments; else the
/// first argument, lower-cased by `str::to_lowercase`, decides: a management
/// command word keeps itself in front of the rest, `-m` passes the rest on,
/// `-internal` the same to the internal commands, `help`/`-h`/`--help` asks
/// for help, anything else is unknown.
pub open spec fn route_of(args: Seq<Seq<char>>) -> (int, Seq<Seq<char>>) {
    if args.len() <= 1 {
        (0, Seq::empty())
    } else {
        let tag = lowercased(args[1]);
        let rest = args.skip(2);
        if is_cli_word(tag) {
            (2, seq![tag] + rest)
        } else if tag == "-m"@ {
            (2, rest)
        } else if tag == "-internal"@ {
            (3, rest)
        } else if tag == "help"@ || tag == "-h"@ || tag == "--help"@ {
            (1, Seq::empty())
        } else {
            (4, seq![tag])
        }
    }
}

fn rest_of(args: &Vec<String>, from: usize) -> (r: Vec<String>)
    requires
        from <= args.len(),
    ensures
        string_views(r@) == string_views(args@).skip(from as int),
{
    let mut r: Vec<String> = Vec::new();
    let mut i = from;
    while i < args.len()
        invariant
            from <= i <= args.len(),
            string_views(r@) == string_views(args@).subrange(from as int, i as int),
        decreases args.len() - i,
    {
        let ghost before = string_views(r@);
        r.push(string_from_chars(&chars_of(args[i].as_str())));
        assert(string_views(r@) =~= before.push(args@[i as int]@));
        assert(string_views(args@).subrange(from as int, i + 1) =~= string_views(args@).subrange(
            from as int,
            i as int,
        ).push(args@[i as int]@));
        i += 1;
    }
    assert(string_views(args@).subrange(from as int, args.len() as int) =~= string_views(
        args@,
    ).skip(from as int));
    r
}

/// Decides where the program's arguments (program name first) send it.
pub fn route_args(args: &Vec<String>) -> (r: Route)
    ensures
        route_view(r) == route_of(string_views(args@)),
{
    if args.len() <= 1 {
        return Route::NoArguments;
    }
    let tag = to_lowercase(args[1].as_str());
    assert(string_views(args@)[1] == args@[1]@);
    let rest = rest_of(args, 2);
    if is_cli_command(tag.as_str()) {
        let mut v: Vec<String> = Vec::new();
        v.push(tag);
        let mut i: usize = 0;
        while i < rest.len()
            invariant
                i <= rest.len(),
                v@.len() == i + 1,
                string_views(v@) == seq![lowercased(args@[1]@)] + string_views(rest@).take(
                    i as int,
                ),
            decreases rest.len() - i,
        {
            let ghost before = string_views(v@);
            v.push(string_from_chars(&chars_of(rest[i].as_str())));
            assert(string_views(v@) =~= before.push(rest@[i as int]@));
            assert(string_views(rest@).take(i + 1) =~= string_views(rest@).take(i as int).push(
                rest@[i as int]@,
            ));
            i += 1;
        }
        assert(string_views(rest@).take(rest.len() as int) =~= string_views(rest@));
        return Route::Cli(v);
    }
    if str_eq(tag.as_str(), "-m") {
        return Route::Cli(rest);
    }
    if str_eq(tag.as_str(), "-internal") {
        return Route::Internal(rest);
    }
    if str_eq(tag.as_str(), "help") || str_eq(tag.as_str(), "-h") || str_eq(tag.as_str(), "--help") {
        return Route::Help;
    }
    Route::Unknown(tag)
}

/// The management command words are lower-case ASCII: lower-casing leaves them.
proof fn lemma_cli_word_lowered(w: Seq<char>)
    requires
        is_cli_word(w),
    ensures
        lowercased(w) == w,
{
    reveal_strlit("--install");
    reveal_strlit("--uninstall");
    reveal_strlit("--start");
    reveal_strlit("--stop");
    reveal_strlit("--restart");
    reveal_strlit("--status");
    reveal_strlit("--delete");
    reveal_strlit("--list");
    let j = choose|j: int| 0 <= j < 8 && w == #[trigger] cli_command(j);
    assert(is_ascii_text(w));
    assert(ascii_lower_seq(w) =~= w);
}

/// The `-m` prefix is optional: when the first argument lower-cases to a
/// management command word, the program routes to the management commands
/// with the same arguments after that word as when `-m` precedes it, and
/// the command word that is run is the same.
pub proof fn lemma_m_prefix_optional(p: Seq<char>, t: Seq<char>, rest: Seq<Seq<char>>)
    requires
        is_cli_word(lowercased(t)),
    ensures
        route_of(seq![p, t] + rest) == (2int, seq![lowercased(t)] + rest),
        route_of(seq![p, "-m"@, t] + rest) == (2int, seq![t] + rest),
        command_word_of(lowercased(t)) == command_word_of(t),
{
    reveal_strlit("-m");
    reveal_strlit("--install");
    reveal_strlit("--uninstall");
    reveal_strlit("--start");
    reveal_strlit("--stop");
    reveal_strlit("--restart");
    reveal_strlit("--status");
    reveal_strlit("--delete");
    reveal_strlit("--list");
    let direct = seq![p, t] + rest;
    let prefixed = seq![p, "-m"@, t] + rest;
    assert(direct[1] == t);
    assert(direct.skip(2) =~= rest);
    assert(prefixed[1] == "-m"@);
    assert(prefixed.skip(2) =~= seq![t] + rest);
    assert(is_ascii_text("-m"@));
    assert(ascii_lower_seq("-m"@) =~= "-m"@);
    assert forall|j: int| 0 <= j < 8 implies "-m"@ != #[trigger] cli_command(j) by {
        assert("-m"@.len() != cli_command(j).len());
    }
    lemma_cli_word_lowered(lowercased(t));
}

/// A command word as `run_cli` reads it: lower-cased by `str::to_lowercase`,
/// leading `-` removed.
pub open spec fn command_word_of(arg: Seq<char>) -> Seq<char> {
    strip_dashes(lowercased(arg))
}

/// Drops every leading `-`.
pub open spec fn strip_dashes(s: Seq<char>) -> Seq<char>
    decreases s.len(),
{
    if s.len() > 0 && s[0] == '-' {
        strip_dashes(s.drop_first())
    } else {
        s
    }
}

/// The command word of a command argument.
pub fn command_word(arg: &str) -> (r: String)
    ensures
        r@ == command_word_of(arg@),
{
    let l = to_lowercase(arg);
    let v = chars_of(l.as_str());
    let mut i: usize = 0;
    assert(v@.skip(0) =~= v@);
    while i < v.len() && v[i] == '-'
        invariant
            i <= v.len(),
            strip_dashes(v@) == strip_dashes(v@.skip(i as int)),
        decreases v.len() - i,
    {
        assert(v@.skip(i as int).drop_first() =~= v@.skip(i + 1));
        i += 1;
    }
    assert(v@.subrange(i as int, v@.len() as int) =~= v@.skip(i as int));
    string_from_chars(&sub_vec(&v, i, v.len()))
}

/// The message for an unknown first argument.
pub open spec fn unknown_argument_message_of(tag: Seq<char>) -> Seq<char> {
    fill("Unknown argument: {0}"@, seq![tag], 1)
}

/// The message for an unknown first argument.
pub fn unknown_argument_message(tag: &str) -> (r: String)
    ensures
        r@ == unknown_argument_message_of(tag@),
{
    let a: [&str; 1] = [tag];
    assert(str_views(a@) =~= seq![tag@]);
    f("Unknown argument: {0}", &a)
}

/// The message for an unknown command word.
pub open spec fn unknown_command_message_of(word: Seq<char>) -> Seq<char> {
    fill("Unknown command: -m {0}"@, seq![word], 1)
}

/// The message for an unknown command word.
pub fn unknown_command_message(word: &str) -> (r: String)
    ensures
        r@ == unknown_command_message_of(word@),
{
    let a: [&str; 1] = [word];
    assert(str_views(a@) =~= seq![word@]);
    f("Unknown command: -m {0}", &a)
}

// ==================== results of the management commands ====================

/// The error for a name that is not a Silanes service.
pub fn not_registered_message() -> (r: String)
    ensures
        r@ == "Service not found in registry"@,
{
    "Service not found in registry".to_owned()
}

/// A management command that acts on a registered service.
#[derive(Debug, PartialEq, Eq, Clone, Copy)]
pub enum ServiceCommand {
    Uninstall,
    ForceDelete,
    Start,
    Stop,
    Restart,
    Status,
}

/// What a command reports once the service manager answered: `Ok` with the
/// status message to print, `Err` with the error (after which the process
/// exits with code 1). A query's success carries the status text.
pub open spec fn command_result_of(cmd: ServiceCommand, result: Result<Seq<char>, Seq<char>>) -> Result<
    Seq<char>,
    Seq<char>,
> {
    match (cmd, result) {
        (ServiceCommand::Uninstall, Ok(_)) => Ok("Service unregistered successfully"@),
        (ServiceCommand::Uninstall, Err(e)) => Err(
            fill("Service unregistration failed: {0}"@, seq![e], 1),
        ),
        (ServiceCommand::ForceDelete, Ok(_)) => Ok("Service force-deleted"@),
        (ServiceCommand::ForceDelete, Err(e)) => Err(fill("Force delete failed: {0}"@, seq![e], 1)),
        (ServiceCommand::Start, Ok(_)) => Ok("Service started successfully"@),
        (ServiceCommand::Start, Err(e)) => Err(fill("Service start failed: {0}"@, seq![e], 1)),
        (ServiceCommand::Stop, Ok(_)) => Ok("Service stopped successfully"@),
        (ServiceCommand::Stop, Err(_)) => Err("Failed to stop service"@),
        (ServiceCommand::Restart, Ok(_)) => Ok("Service restarted successfully"@),
        (ServiceCommand::Restart, Err(e)) => Err(fill("Service restart failed: {0}"@, seq![e], 1)),
        (ServiceCommand::Status, Ok(t)) => Ok(fill("Status: {0}"@, seq![t], 1)),
        (ServiceCommand::Status, Err(e)) => Err(fill("Query failed: {0}"@, seq![e], 1)),
    }
}

/// The message a command reports for the service manager's answer.
pub fn command_result(cmd: ServiceCommand, result: Result<&str, &str>) -> (r: Result<String, String>)
    ensures
        match r {
            Ok(m) => command_result_of(
                cmd,
                match result {
                    Ok(t) => Ok(t@),
                    Err(e) => Err(e@),
                },
            ) == Ok::<Seq<char>, Seq<char>>(m@),
            Err(m) => command_result_of(
                cmd,
                match result {
                    Ok(t) => Ok(t@),
                    Err(e) => Err(e@),
                },
            ) == Err::<Seq<char>, Seq<char>>(m@),
        },
{
    match (cmd, result) {
        (ServiceCommand::Uninstall, Ok(_)) => Ok("Service unregistered successfully".to_owned()),
        (ServiceCommand::Uninstall, Err(e)) => Err(f1("Service unregistration failed: {0}", e)),
        (ServiceCommand::ForceDelete, Ok(_)) => Ok("Service force-deleted".to_owned()),
        (ServiceCommand::ForceDelete, Err(e)) => Err(f1("Force delete failed: {0}", e)),
        (ServiceCommand::Start, Ok(_)) => Ok("Service started successfully".to_owned()),
        (ServiceCommand::Start, Err(e)) => Err(f1("Service start failed: {0}", e)),
        (ServiceCommand::Stop, Ok(_)) => Ok("Service stopped successfully".to_owned()),
        (ServiceCommand::Stop, Err(_)) => Err("Failed to stop service".to_owned()),
        (ServiceCommand::Restart, Ok(_)) => Ok("Service restarted successfully".to_owned()),
        (ServiceCommand::Restart, Err(e)) => Err(f1("Service restart failed: {0}", e)),
        (ServiceCommand::Status, Ok(t)) => Ok(f1("Status: {0}", t)),
        (ServiceCommand::Status, Err(e)) => Err(f1("Query failed: {0}", e)),
    }
}

/// The error printed when an uninstall cannot stop the service first.
pub fn uninstall_blocked_message() -> (r: String)
    ensures
        r@ == "Cannot uninstall \u{2014} failed to stop service"@,
{
    "Cannot uninstall \u{2014} failed to stop service".to_owned()
}

/// What `--list` prints: the deployment directories whose service is a
/// platform deployment, in order; the no-services line when there is none.
pub open spec fn list_output_of(names: Seq<Seq<char>>, deployed: Seq<bool>) -> Seq<Seq<char>> {
    let listed = listed_names(names, deployed);
    if listed.len() == 0 {
        seq![status_line_of("No registered services in registry"@)]
    } else {
        listed
    }
}

/// The names whose flag is set, in order.
pub open spec fn listed_names(names: Seq<Seq<char>>, deployed: Seq<bool>) -> Seq<Seq<char>>
    decreases names.len(),
{
    if names.len() == 0 {
        Seq::empty()
    } else {
        let r = listed_names(names.drop_last(), deployed);
        if names.len() - 1 < deployed.len() && deployed[names.len() - 1] {
            r.push(names.last())
        } else {
            r
        }
    }
}

/// The lines `--list` prints for the deployment directories `names`, given
/// whether each is a platform deployment.
pub fn list_output(names: &Vec<String>, deployed: &Vec<bool>) -> (r: Vec<String>)
    requires
        names.len() == deployed.len(),
    ensures
        string_views(r@) == list_output_of(string_views(names@), deployed@),
{
    let ghost ns = string_views(names@);
    let mut out: Vec<String> = Vec::new();
    let mut i: usize = 0;
    while i < names.len()
        invariant
            i <= names.len(),
            names.len() == deployed.len(),
            ns == string_views(names@),
            string_views(out@) == listed_names(ns.take(i as int), deployed@),
        decreases names.len() - i,
    {
        assert(ns.take(i + 1).drop_last() =~= ns.take(i as int));
        assert(ns.take(i + 1).last() == names@[i as int]@);
        if deployed[i] {
            let ghost before = string_views(out@);
            out.push(string_from_chars(&chars_of(names[i].as_str())));
            assert(string_views(out@) =~= before.push(names@[i as int]@));
        }
        i += 1;
    }
    assert(ns.take(names.len() as int) =~= ns);
    if out.len() == 0 {
        let mut v: Vec<String> = Vec::new();
        v.push(status_line("No registered services in registry"));
        assert(string_views(v@) =~= seq![status_line_of("No registered services in registry"@)]);
        return v;
    }
    out
}

/// Whether a management command may act on a service: the service manager
/// knows it, and it is a platform deployment or an in-place host.
pub fn is_registered(service_exists: bool, silanes_deployed: bool, inplace: bool) -> (r: bool)
    ensures
        r == (service_exists && (silanes_deployed || inplace)),
{
    service_exists && (silanes_deployed || inplace)
}

/// The message of a panic: its text when the payload is a string (`&str`
/// or `String`, handed over as `payload_text`), the fallback otherwise.
pub fn panic_msg(payload_text: Option<&str>, fallback: &str) -> (r: String)
    ensures
        r@ == match payload_text {
            Some(t) => t@,
            None => fallback@,
        },
{
    match payload_text {
        Some(t) => t.to_owned(),
        None => fallback.to_owned(),
    }
}

} // verus!
