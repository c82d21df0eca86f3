//! Starting the hosted executable: where the host finds its configuration and
//! writes its logs, the checks before the child is spawned, the pre-start
//! download (cache, failure policy, messages) and how a download is split
//! into ranged chunks.

use vstd::prelude::*;
use crate::config::{opt_view, present_nonblank, ServiceConfig};
use crate::download::{
    download_verdict_of, redact_url, redacted_of, url_scheme_and_base, warn_if_insecure_download,
};
use crate::encoding::{decimal, decimal_chars};
use crate::host::{args_suffix, args_suffix_of};
use crate::install::own_config_path_of;
use crate::paths::{download_target_of, log_dir_of, resolve_download_target, resolve_log_dir};
use crate::tail::{parent, parent_of, with_extension};
use crate::template::{f1, f2, fill};
use crate::text::{chars_of, eq_ignore_ascii_case, extend, str_eq_ignore_ascii_case, string_from_chars};

verus! {

// ==================== the host's configuration ====================

/// The configuration file of a host: its own path with the extension `yaml`.
pub fn host_config_path(own_exe: &str) -> (r: String)
    ensures
        r@ == own_config_path_of(own_exe@),
{
    with_extension(own_exe, "yaml")
}

/// The line logged when the host has no configuration file.
pub fn config_not_found_message(config_path: &str) -> (r: String)
    ensures
        r@ == fill("Service config file not found: {0}"@, seq![config_path@], 1),
{
    f1("Service config file not found: {0}", config_path)
}

/// The line logged when the host starts.
pub fn starting_message(config_path: &str) -> (r: String)
    ensures
        r@ == fill("Service starting, config: {0}"@, seq![config_path@], 1),
{
    f1("Service starting, config: {0}", config_path)
}

/// The deployment directory of a host: the directory of its executable, `.`
/// when the path has none.
pub open spec fn deploy_dir_of(own_exe: Seq<char>) -> Seq<char> {
    match parent_of(own_exe) {
        Some(p) => p,
        None => "."@,
    }
}

/// What the host takes from its configuration when it starts.
pub struct HostSettings {
    /// Base of relative log and download paths.
    pub deploy_dir: String,
    /// Where the host's logs go.
    pub log_dir: String,
    /// Whether the host writes logs.
    pub log_enabled: bool,
    /// Whether child stderr goes to its own file.
    pub split_out_err: bool,
    /// Size limit in MiB before a log rolls over.
    pub max_size_mb: i64,
    /// Rolled logs kept.
    pub backup_count: i32,
    /// Whether stopping kills the child's process tree.
    pub kill_process_tree: bool,
    /// The post-stop hook command.
    pub poststop_command: Option<String>,
}

/// The settings of a host running from `own_exe` with `config`: the
/// deployment directory, the log directory resolved against it, and the
/// logging and stopping options as configured.
pub fn host_settings(own_exe: &str, config: &ServiceConfig) -> (r: HostSettings)
    ensures
        r.deploy_dir@ == deploy_dir_of(own_exe@),
        r.log_dir@ == log_dir_of(opt_view(config.log_dir), r.deploy_dir@),
        r.log_enabled == config.log_enabled,
        r.split_out_err == config.log_split_out_err,
        r.max_size_mb == config.log_max_size_mb,
        r.backup_count == config.log_max_backup_count,
        r.kill_process_tree == config.kill_process_tree,
        opt_view(r.poststop_command) == opt_view(config.poststop_command),
{
    let deploy_dir = match parent(own_exe) {
        Some(p) => p,
        None => ".".to_owned(),
    };
    let dir: Option<&str> = match &config.log_dir {
        Some(d) => Some(d.as_str()),
        None => None,
    };
    let log_dir = resolve_log_dir(dir, deploy_dir.as_str());
    let poststop_command = match &config.poststop_command {
        Some(c) => Some(string_from_chars(&chars_of(c.as_str()))),
        None => None,
    };
    HostSettings {
        deploy_dir,
        log_dir,
        log_enabled: config.log_enabled,
        split_out_err: config.log_split_out_err,
        max_size_mb: config.log_max_size_mb,
        backup_count: config.log_max_backup_count,
        kill_process_tree: config.kill_process_tree,
        poststop_command,
    }
}

/// The log directory handed to hooks, downloads and output readers: the
/// host's own when logging is on, empty (which silences them) when it is off.
pub fn quiet_log_dir(log_enabled: bool, log_dir: &str) -> (r: String)
    ensures
        r@ == (if log_enabled {
            log_dir@
        } else {
            Seq::<char>::empty()
        }),
{
    if log_enabled {
        log_dir.to_owned()
    } else {
        String::new()
    }
}

// ==================== spawning the child ====================

/// The working directory of the child: the directory of its executable, the
/// deployment directory when the path has none.
pub open spec fn working_dir_of(exe_path: Seq<char>, deploy_dir: Seq<char>) -> Seq<char> {
    match parent_of(exe_path) {
        Some(p) => p,
        None => deploy_dir,
    }
}

/// The working directory for the child.
pub fn working_dir(exe_path: &str, deploy_dir: &str) -> (r: String)
    ensures
        r@ == working_dir_of(exe_path@, deploy_dir@),
{
    match parent(exe_path) {
        Some(p) => p,
        None => deploy_dir.to_owned(),
    }
}

/// Why the child cannot be spawned: its executable is missing, or its
/// working directory is.
pub open spec fn launch_error_of(
    exe_path: Seq<char>,
    exe_exists: bool,
    working_dir: Seq<char>,
    working_dir_exists: bool,
) -> Option<Seq<char>> {
    if !exe_exists {
        Some(
            fill(
                "Executable not found: '{0}'. Check service_executable_path or download settings."@,
                seq![exe_path],
                1,
            ),
        )
    } else if !working_dir_exists {
        Some(
            fill(
                "Working directory does not exist: '{0}'. Check service_executable_path / download_to."@,
                seq![working_dir],
                1,
            ),
        )
    } else {
        None
    }
}

/// Checks that the child can be spawned.
pub fn launch_check(exe_path: &str, exe_exists: bool, working_dir: &str, working_dir_exists: bool) -> (r:
    Result<(), String>)
    ensures
        crate::install::err_view(r) == launch_error_of(
            exe_path@,
            exe_exists,
            working_dir@,
            working_dir_exists,
        ),
{
    if !exe_exists {
        return Err(
            f1(
                "Executable not found: '{0}'. Check service_executable_path or download settings.",
                exe_path,
            ),
        );
    }
    if !working_dir_exists {
        return Err(
            f1(
                "Working directory does not exist: '{0}'. Check service_executable_path / download_to.",
                working_dir,
            ),
        );
    }
    Ok(())
}

/// The line logged before the child is spawned.
pub fn target_message(exe_path: &str, args: Option<&str>) -> (r: String)
    ensures
        r@ == fill(
            "Target: {0}{1}"@,
            seq![exe_path@, args_suffix_of(crate::config::opt_str_view(args))],
            2,
        ),
{
    let suffix = args_suffix(args);
    assert(suffix@ == args_suffix_of(crate::config::opt_str_view(args)));
    f2("Target: {0}{1}", exe_path, suffix.as_str())
}

/// The command line handed to the child verbatim: the configured arguments
/// when they are not blank.
pub fn raw_arguments(args: Option<&str>) -> (r: Option<String>)
    ensures
        opt_view(r) == (if present_nonblank(crate::config::opt_str_view(args)) {
            crate::config::opt_str_view(args)
        } else {
            None
        }),
{
    match args {
        Some(a) => if crate::config::is_blank(a) {
            None
        } else {
            Some(a.to_owned())
        },
        None => None,
    }
}

/// The line logged after the configured environment was injected.
pub fn env_message(count: u64) -> (r: String)
    ensures
        r@ == fill("Injected {0} environment variable(s)"@, seq![decimal(count as nat)], 1),
{
    let n = string_from_chars(&decimal_chars(count));
    f1("Injected {0} environment variable(s)", n.as_str())
}

/// The line logged once the child runs.
pub fn started_message(pid: u32) -> (r: String)
    ensures
        r@ == fill("Child process started, PID: {0}"@, seq![decimal(pid as nat)], 1),
{
    let n = string_from_chars(&decimal_chars(pid as u64));
    f1("Child process started, PID: {0}", n.as_str())
}

// ==================== the pre-start download ====================

/// What to do with an existing download target.
#[derive(Debug, PartialEq, Eq)]
pub enum CacheVerdict {
    /// It exists and matches the expected digest (or none is set): use it.
    UpToDate,
    /// It exists but does not match: delete it and download.
    Mismatch,
    /// It does not exist: download.
    Missing,
}

/// The verdict on a download target, given whether it exists and whether
/// its contents match the expected digest.
pub open spec fn cache_verdict_of(target_exists: bool, digest_ok: bool) -> CacheVerdict {
    if target_exists && digest_ok {
        CacheVerdict::UpToDate
    } else if target_exists {
        CacheVerdict::Mismatch
    } else {
        CacheVerdict::Missing
    }
}

/// The first steps of a pre-start download, before any file is touched:
/// none without a download; else the insecure-download refusal
/// (`warn_if_insecure_download`), if any; else the local target
/// (`resolve_download_target`), which is then checked against the cache
/// and fetched.
pub fn download_plan(config: &ServiceConfig, deploy_dir: &str) -> (r: Result<Option<String>, String>)
    ensures
        match r {
            Ok(None) => !present_nonblank(opt_view(config.download_url)),
            Ok(Some(t)) => {
                &&& present_nonblank(opt_view(config.download_url))
                &&& download_verdict_of(
                    url_scheme_and_base(config.download_url.unwrap()@),
                    opt_view(config.download_sha256),
                ) == Ok::<(), Seq<char>>(())
                &&& t@ == download_target_of(
                    opt_view(config.download_to),
                    config.service_executable_path@,
                    deploy_dir@,
                )
            },
            Err(e) => {
                &&& present_nonblank(opt_view(config.download_url))
                &&& download_verdict_of(
                    url_scheme_and_base(config.download_url.unwrap()@),
                    opt_view(config.download_sha256),
                ) == Err::<(), Seq<char>>(e@)
            },
        },
{
    if !crate::config::has_download(config) {
        return Ok(None);
    }
    match warn_if_insecure_download(config) {
        Err(e) => Err(e),
        Ok(()) => Ok(Some(resolve_download_target(config, deploy_dir))),
    }
}

/// Judges an existing download target.
pub fn cache_verdict(target_exists: bool, digest_ok: bool) -> (r: CacheVerdict)
    ensures
        r == cache_verdict_of(target_exists, digest_ok),
{
    if target_exists && digest_ok {
        CacheVerdict::UpToDate
    } else if target_exists {
        CacheVerdict::Mismatch
    } else {
        CacheVerdict::Missing
    }
}

/// The line logged when the cached target is used.
pub fn up_to_date_message(target: &str) -> (r: String)
    ensures
        r@ == fill("Download target already up to date: {0}"@, seq![target@], 1),
{
    f1("Download target already up to date: {0}", target)
}

/// The error of a download that failed for good.
pub open spec fn download_failed_message_of(url: Seq<char>) -> Seq<char> {
    fill("Download failed: {0}"@, seq![url], 1)
}

/// The line logged when a failed download does not fail the start.
pub open spec fn continuing_message() -> Seq<char> {
    "Download failed but fail_on_error=false \u{2014} continuing (target may be missing)"@
}

/// After a failed download: with `download_fail_on_error` the start fails;
/// otherwise the host logs that it continues, and still fails when a target
/// exists whose contents do not match the expected digest (a missing target
/// is reported later, when it cannot be started). The error shows the URL
/// redacted. The result: the line to log, if any, and the outcome.
pub open spec fn failed_download_of(
    url: Seq<char>,
    fail_on_error: bool,
    target_exists: bool,
    digest_ok: bool,
) -> (Option<Seq<char>>, Result<(), Seq<char>>) {
    if fail_on_error {
        (None, Err(download_failed_message_of(redacted_of(url))))
    } else if target_exists && !digest_ok {
        (Some(continuing_message()), Err(download_failed_message_of(redacted_of(url))))
    } else {
        (Some(continuing_message()), Ok(()))
    }
}

/// Decides what a failed download means for the start.
pub fn failed_download(url: &str, fail_on_error: bool, target_exists: bool, digest_ok: bool) -> (r: (
    Option<String>,
    Result<(), String>,
))
    ensures
        (opt_view(r.0), match r.1 {
            Ok(()) => Ok(()),
            Err(m) => Err(m@),
        }) == failed_download_of(url@, fail_on_error, target_exists, digest_ok),
{
    let shown = redact_url(url);
    if fail_on_error {
        return (None, Err(f1("Download failed: {0}", shown.as_str())));
    }
    let line = "Download failed but fail_on_error=false \u{2014} continuing (target may be missing)".to_owned();
    if target_exists && !digest_ok {
        (Some(line), Err(f1("Download failed: {0}", shown.as_str())))
    } else {
        (Some(line), Ok(()))
    }
}

/// The file a download is written to before it replaces the target.
pub fn download_tmp_path(target: &str) -> (r: String)
    ensures
        r@ == target@ + ".download.tmp"@,
{
    let mut v = chars_of(target);
    extend(&mut v, &chars_of(".download.tmp"));
    string_from_chars(&v)
}

/// The line logged when a download begins (with the redacted URL).
pub fn downloading_message(redacted_url: &str, target: &str) -> (r: String)
    ensures
        r@ == fill("Downloading {0} -> {1}"@, seq![redacted_url@, target@], 2),
{
    f2("Downloading {0} -> {1}", redacted_url, target)
}

/// How long a whole download may take, in seconds.
pub const DOWNLOAD_TIMEOUT_SECS: u64 = 300;

/// Why a download failed.
#[derive(Debug, PartialEq, Eq)]
pub enum DownloadFail {
    /// The download took longer than its timeout.
    Timeout,
    /// The downloaded file does not match the expected digest (already logged).
    DigestMismatch,
    /// Anything else, with its description.
    Other(String),
}

/// The line logged for a failed download: the timeout, or the error; none
/// for a digest mismatch, which was logged when found.
pub open spec fn download_failure_message_of(fail: DownloadFail) -> Option<Seq<char>> {
    match fail {
        DownloadFail::Timeout => Some(
            fill(
                "Download timed out after {0}s"@,
                seq![decimal(DOWNLOAD_TIMEOUT_SECS as nat)],
                1,
            ),
        ),
        DownloadFail::DigestMismatch => None,
        DownloadFail::Other(e) => Some(fill("Download error: {0}"@, seq![e@], 1)),
    }
}

/// The log line for a failed download.
pub fn download_failure_message(fail: &DownloadFail) -> (r: Option<String>)
    ensures
        opt_view(r) == download_failure_message_of(*fail),
{
    match fail {
        DownloadFail::Timeout => {
            let n = string_from_chars(&decimal_chars(DOWNLOAD_TIMEOUT_SECS));
            Some(f1("Download timed out after {0}s", n.as_str()))
        },
        DownloadFail::DigestMismatch => None,
        DownloadFail::Other(e) => Some(f1("Download error: {0}", e.as_str())),
    }
}

/// The line logged when the download replaced the target.
pub fn download_complete_message(target: &str) -> (r: String)
    ensures
        r@ == fill("Download complete: {0}"@, seq![target@], 1),
{
    f1("Download complete: {0}", target)
}

// ==================== ranged chunks ====================

/// Size of one chunk of a ranged download.
pub const CHUNK_SIZE: u64 = 1048576;

/// Most chunk workers of one download.
pub const MAX_CHUNK_WORKERS: u64 = 16;

/// Retries of a failed chunk (three tries in all).
pub const CHUNK_MAX_RETRIES: u32 = 2;

/// Whether the server's `Accept-Ranges` value offers byte ranges.
pub fn accepts_byte_ranges(accept_ranges: Option<&str>) -> (r: bool)
    ensures
        r == match accept_ranges {
            Some(v) => eq_ignore_ascii_case(v@, "bytes"@),
            None => false,
        },
{
    match accept_ranges {
        Some(v) => str_eq_ignore_ascii_case(v, "bytes"),
        None => false,
    }
}

/// Whether to download in chunks: the server offers byte ranges and
/// announced a size larger than one chunk.
pub fn use_chunks(ranges_ok: bool, size: Option<u64>) -> (r: bool)
    ensures
        r == (ranges_ok && match size {
            Some(n) => n > CHUNK_SIZE,
            None => false,
        }),
{
    ranges_ok && match size {
        Some(n) => n > CHUNK_SIZE,
        None => false,
    }
}

/// The number of chunks of a file of `size` bytes.
pub open spec fn chunk_count_of(size: nat) -> nat {
    ((size + CHUNK_SIZE - 1) / (CHUNK_SIZE as int)) as nat
}

/// The chunks of a download: how many, and how many workers fetch them
/// (at most `MAX_CHUNK_WORKERS`).
pub fn chunk_plan(size: u64) -> (r: (u64, u64))
    ensures
        r.0 == chunk_count_of(size as nat),
        r.1 == (if r.0 < MAX_CHUNK_WORKERS {
            r.0
        } else {
            MAX_CHUNK_WORKERS
        }),
{
    let count = size / CHUNK_SIZE + if size % CHUNK_SIZE == 0 {
        0
    } else {
        1
    };
    assert(count == chunk_count_of(size as nat)) by (nonlinear_arith)
        requires
            count == size / CHUNK_SIZE + if size % CHUNK_SIZE == 0 {
                0int
            } else {
                1int
            },
            CHUNK_SIZE == 1048576,
    {
    }
    let workers = if count < MAX_CHUNK_WORKERS {
        count
    } else {
        MAX_CHUNK_WORKERS
    };
    (count, workers)
}

/// The byte range of chunk `i` of a file of `size` bytes: from `i` chunks in,
/// one chunk long, cut at the file's last byte.
pub open spec fn chunk_range_of(size: nat, i: nat) -> (nat, nat) {
    let start: int = i * CHUNK_SIZE;
    let end: int = if start + CHUNK_SIZE - 1 < size - 1 {
        start + CHUNK_SIZE - 1
    } else {
        size - 1
    };
    (start as nat, end as nat)
}

/// The byte range of chunk `i`.
pub fn chunk_range(size: u64, i: u64) -> (r: (u64, u64))
    requires
        i < chunk_count_of(size as nat),
    ensures
        (r.0 as nat, r.1 as nat) == chunk_range_of(size as nat, i as nat),
        r.0 <= r.1 < size,
{
    assert(i * CHUNK_SIZE < size) by (nonlinear_arith)
        requires
            i < (size + CHUNK_SIZE - 1) / (CHUNK_SIZE as int),
            CHUNK_SIZE == 1048576,
    {
    }
    let start = i * CHUNK_SIZE;
    let end = if size - 1 - start > CHUNK_SIZE - 1 {
        start + CHUNK_SIZE - 1
    } else {
        size - 1
    };
    (start, end)
}

/// The chunks tile the file: the first starts at byte 0, each next one
/// starts right after the one before, and the last ends at the last byte.
pub proof fn lemma_chunks_tile(size: nat, i: nat)
    requires
        size > 0,
        i < chunk_count_of(size),
    ensures
        i == 0 ==> chunk_range_of(size, i).0 == 0,
        i + 1 < chunk_count_of(size) ==> chunk_range_of(size, i + 1).0 == chunk_range_of(size, i).1
            + 1,
        i + 1 == chunk_count_of(size) ==> chunk_range_of(size, i).1 == size - 1,
        chunk_range_of(size, i).0 <= chunk_range_of(size, i).1 < size,
{
    let c = CHUNK_SIZE as int;
    assert(c == 1048576);
    let n = chunk_count_of(size);
    assert(i * c < size) by (nonlinear_arith)
        requires
            i < (size + c - 1) / c,
            c == 1048576,
    {
    }
    if i + 1 < n {
        assert((i + 1) * c < size) by (nonlinear_arith)
            requires
                i + 1 < (size + c - 1) / c,
                c == 1048576,
        {
        }
        assert((i + 1) * c == i * c + c) by (nonlinear_arith);
    }
    if i + 1 == n {
        assert((i + 1) * c >= size) by (nonlinear_arith)
            requires
                i + 1 == (size + c - 1) / c,
                c == 1048576,
        {
        }
        assert((i + 1) * c == i * c + c) by (nonlinear_arith);
    }
}

/// Whether a failed chunk is tried again after `failures` failures.
pub fn retry_chunk(failures: u32) -> (r: bool)
    ensures
        r == (failures <= CHUNK_MAX_RETRIES),
{
    failures <= CHUNK_MAX_RETRIES
}

/// The `Range` header value for a chunk.
pub fn range_header(start: u64, end: u64) -> (r: String)
    ensures
        r@ == "bytes="@ + decimal(start as nat) + "-"@ + decimal(end as nat),
{
    let mut v = chars_of("bytes=");
    extend(&mut v, &decimal_chars(start));
    extend(&mut v, &chars_of("-"));
    extend(&mut v, &decimal_chars(end));
    string_from_chars(&v)
}

/// The error for a chunk that failed after its retries.
pub fn chunk_failed_message(start: u64, end: u64) -> (r: String)
    ensures
        r@ == "chunk "@ + decimal(start as nat) + "-"@ + decimal(end as nat)
            + " failed after retries"@,
{
    let mut v = chars_of("chunk ");
    extend(&mut v, &decimal_chars(start));
    extend(&mut v, &chars_of("-"));
    extend(&mut v, &decimal_chars(end));
    extend(&mut v, &chars_of(" failed after retries"));
    string_from_chars(&v)
}

/// A ranged request must be answered with 206 Partial Content; a server
/// that ignores the range and sends 200 would scatter the data.
pub open spec fn ranged_status_of(status: u16) -> Result<(), Seq<char>> {
    if status == 206 {
        Ok(())
    } else {
        Err("server returned HTTP "@ + decimal(status as nat) + " for ranged request"@)
    }
}

/// Checks the status of the answer to a ranged request.
pub fn ranged_status(status: u16) -> (r: Result<(), String>)
    ensures
        crate::install::err_view(r) == match ranged_status_of(status) {
            Ok(()) => None,
            Err(m) => Some(m),
        },
{
    if status == 206 {
        return Ok(());
    }
    let mut v = chars_of("server returned HTTP ");
    extend(&mut v, &decimal_chars(status as u64));
    extend(&mut v, &chars_of(" for ranged request"));
    Err(string_from_chars(&v))
}

} // verus!
