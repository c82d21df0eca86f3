//! The YAML service configuration model and the rules read from it.

use vstd::prelude::*;
use std::collections::HashMap;
use crate::text::{chars_of, trim, trim_bounds};

verus! {

/// Default of the flags that are on unless the file says otherwise
/// (`kill_process_tree`, `download_fail_on_error`, `log_enabled`).
pub fn default_true() -> (r: bool)
    ensures
        r,
{
    true
}

/// Default number of rolled log backups kept.
pub fn default_five() -> (r: i32)
    ensures
        r == 5,
{
    5
}

/// Everything needed to register an executable as a Windows service and to
/// host it. A field missing from the file takes the value that
/// `default_true`/`default_five` give where the field names one, and the
/// type's default otherwise; `ServiceConfig::default()` is all type defaults.
#[derive(Clone, Debug)]
pub struct ServiceConfig {
    /// Service name: the SCM's internal identifier.
    pub service_name: String,
    /// Name shown in services.msc.
    pub service_display_name: String,
    /// Description shown in the service properties.
    pub service_description: String,
    /// Full path of the executable to host.
    pub service_executable_path: String,
    /// Command line for the executable, passed through verbatim.
    pub service_executable_args: Option<String>,
    /// `automatic`, `delayed_auto`, `manual` or `disabled`.
    pub service_start_mode: Option<String>,
    /// Services to start first, separated by `;`.
    pub service_dependencies: Option<String>,
    /// Account that runs the service.
    pub service_account: Option<String>,
    /// Password of `service_account`.
    pub service_password: Option<String>,
    /// Environment variables given to the executable.
    pub env: Option<HashMap<String, String>>,
    /// Failure-counter reset period in seconds (0: 86400).
    pub failure_reset_sec: i32,
    /// Restart delay after a crash in milliseconds (0: 60000).
    pub restart_delay_ms: i32,
    /// Whether stopping kills the executable's whole process tree.
    pub kill_process_tree: bool,
    /// Register the running host in place instead of deploying a copy.
    pub deploy_inplace: bool,
    /// Command run before the executable starts.
    pub prestart_command: Option<String>,
    /// Command run after the executable stopped.
    pub poststop_command: Option<String>,
    /// URL to fetch the executable from before starting.
    pub download_url: Option<String>,
    /// Where the download goes (relative to the deployment directory).
    pub download_to: Option<String>,
    /// Expected SHA-256 of the download, in hex.
    pub download_sha256: Option<String>,
    /// Whether a failed download fails the start.
    pub download_fail_on_error: bool,
    /// Whether the host writes logs.
    pub log_enabled: bool,
    /// Log directory (relative to the deployment directory).
    pub log_dir: Option<String>,
    /// Daily log size limit in MiB before rollover (0: none).
    pub log_max_size_mb: i64,
    /// Rolled backups kept.
    pub log_max_backup_count: i32,
    /// Whether child stderr goes to its own `.err.log`.
    pub log_split_out_err: bool,
}

/// The view of an optional string.
pub open spec fn opt_view(o: Option<String>) -> Option<Seq<char>> {
    match o {
        Some(s) => Some(s@),
        None => None,
    }
}

/// The view of an optional string slice.
pub open spec fn opt_str_view(o: Option<&str>) -> Option<Seq<char>> {
    match o {
        Some(s) => Some(s@),
        None => None,
    }
}

impl ServiceConfig {
    /// All type defaults: empty strings, no optional values, zero numbers, flags off.
    pub open spec fn is_all_default(&self) -> bool {
        &&& self.service_name@.len() == 0
        &&& self.service_display_name@.len() == 0
        &&& self.service_description@.len() == 0
        &&& self.service_executable_path@.len() == 0
        &&& self.service_executable_args is None
        &&& self.service_start_mode is None
        &&& self.service_dependencies is None
        &&& self.service_account is None
        &&& self.service_password is None
        &&& self.env is None
        &&& self.failure_reset_sec == 0
        &&& self.restart_delay_ms == 0
        &&& !self.kill_process_tree
        &&& !self.deploy_inplace
        &&& self.prestart_command is None
        &&& self.poststop_command is None
        &&& self.download_url is None
        &&& self.download_to is None
        &&& self.download_sha256 is None
        &&& !self.download_fail_on_error
        &&& !self.log_enabled
        &&& self.log_dir is None
        &&& self.log_max_size_mb == 0
        &&& self.log_max_backup_count == 0
        &&& !self.log_split_out_err
    }
}

impl Default for ServiceConfig {
    fn default() -> (r: Self)
        ensures
            r.is_all_default(),
    {
        ServiceConfig {
            service_name: String::new(),
            service_display_name: String::new(),
            service_description: String::new(),
            service_executable_path: String::new(),
            service_executable_args: None,
            service_start_mode: None,
            service_dependencies: None,
            service_account: None,
            service_password: None,
            env: None,
            failure_reset_sec: 0,
            restart_delay_ms: 0,
            kill_process_tree: false,
            deploy_inplace: false,
            prestart_command: None,
            poststop_command: None,
            download_url: None,
            download_to: None,
            download_sha256: None,
            download_fail_on_error: false,
            log_enabled: false,
            log_dir: None,
            log_max_size_mb: 0,
            log_max_backup_count: 0,
            log_split_out_err: false,
        }
    }
}

/// Whether an optional text is present and not blank.
pub open spec fn present_nonblank(o: Option<Seq<char>>) -> bool {
    match o {
        Some(s) => trim(s).len() > 0,
        None => false,
    }
}

/// Whether a text is blank (empty after trimming white space).
pub fn is_blank(s: &str) -> (r: bool)
    ensures
        r == (trim(s@).len() == 0),
{
    let v = chars_of(s);
    let (a, b) = trim_bounds(&v, 0, v.len());
    assert(v@.subrange(0, v@.len() as int) =~= v@);
    a == b
}

/// Whether the configuration asks for a download before start (`download_url`
/// present and not blank).
pub fn has_download(config: &ServiceConfig) -> (r: bool)
    ensures
        r == present_nonblank(opt_view(config.download_url)),
{
    match &config.download_url {
        Some(u) => !is_blank(u.as_str()),
        None => false,
    }
}

} // verus!
