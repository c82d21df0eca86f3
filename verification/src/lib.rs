//! Verified core of a Windows service host: configuration model, name and
//! ACL validation, version ordering, path resolution and host decisions.

pub mod acl;
pub mod cli;
pub mod config;
pub mod deploy;
pub mod download;
pub mod encoding;
pub mod host;
pub mod install;
pub mod launch;
pub mod logs;
pub mod names;
pub mod paths;
pub mod process_tree;
pub mod scm;
pub mod sddl;
pub mod tail;
pub mod template;
pub mod text;
pub mod upgrade;
pub mod version;
pub mod wide;
