//! Verified core of the Ansible `stat` module: the rules that turn file
//! metadata and the output of `lsattr` and `file` into the module's result.
pub mod args;
pub mod attributes;
pub mod checksum;
pub mod clock;
pub mod defaults;
pub mod mode;
pub mod render;
pub mod result;
pub mod text;

pub use defaults::{d_false, d_sha1, d_shell, d_syslog_facility, d_true, d_v, d_version};
