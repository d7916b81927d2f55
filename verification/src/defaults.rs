//! The values that options take when the arguments file leaves them out.
use vstd::prelude::*;

verus! {

/// Default of the options that are on unless turned off.
pub fn d_true() -> (b: bool)
    ensures
        b,
{
    true
}

/// Default of the options that are off unless turned on.
pub fn d_false() -> (b: bool)
    ensures
        !b,
{
    false
}

/// Default checksum algorithm.
pub fn d_sha1() -> (s: String)
    ensures
        s@ == "sha1"@,
{
    String::from_str("sha1")
}

/// Default shell executable.
pub fn d_shell() -> (s: String)
    ensures
        s@ == "/bin/sh"@,
{
    String::from_str("/bin/sh")
}

/// Default syslog facility.
pub fn d_syslog_facility() -> (s: String)
    ensures
        s@ == "INFO"@,
{
    String::from_str("INFO")
}

/// Default verbosity.
pub fn d_v() -> (v: u32)
    ensures
        v == 0,
{
    0
}

/// Default Ansible version.
pub fn d_version() -> (s: String)
    ensures
        s@ == "0.0"@,
{
    String::from_str("0.0")
}

} // verus!
