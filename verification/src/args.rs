//! The module's arguments, and the decisions that they drive.
use vstd::prelude::*;
use crate::checksum::{
    algorithm_for, algorithm_named, algorithm_parse_result, all_ascii, normalized, position,
    unknown_algorithm_text, HashAlgorithm,
};
use crate::clock::{local_time_text, stamp_shape, DATE_FORMAT_STR};
use crate::render::{debug_quoted, debug_quoted_text};
use crate::text::{chars_of, decimal, digits_of, string_from_chars, append_chars};

verus! {

/// The arguments that Ansible hands the module: the common ones, then the
/// module's own.
pub struct ModuleArgs {
    pub check_mode: bool,
    pub debug: bool,
    pub diff: bool,
    pub keep_remote_files: bool,
    pub ignore_unknown_opts: bool,
    pub module_name: String,
    pub no_log: bool,
    pub remote_tmp: Option<String>,
    pub target_log_info: Option<String>,
    pub shell_executable: String,
    pub socket: Option<String>,
    pub syslog_facility: String,
    pub tmpdir: Option<String>,
    pub verbosity: u32,
    pub version: String,
    pub path: String,
    pub follow: bool,
    pub checksum_algorithim: String,
    pub get_attributes: bool,
    pub get_checksum: bool,
    pub get_mime: bool,
}

/// What to do about file attributes.
#[derive(PartialEq, Eq, Structural, Clone, Copy, Debug)]
pub enum AttributeAction {
    /// Attributes were not asked for.
    Skip,
    /// Read them with `lsattr`.
    Read,
    /// Warn that they are not read on a symlink that is not followed.
    WarnSymlink,
}

/// A debug line: ` [DEBUG] <module> (pid:<pid>) [<time stamp>]: <message>`,
/// the message given in its `Debug` rendering.
pub open spec fn debug_line_text(
    module_name: Seq<char>,
    pid: nat,
    stamp: Seq<char>,
    quoted_msg: Seq<char>,
) -> Seq<char> {
    " [DEBUG] "@ + module_name + " (pid:"@ + decimal(pid as int) + ") ["@ + stamp + "]: "@
        + quoted_msg
}

/// The debug line for a module, process, time stamp and rendered message.
pub fn debug_line(module_name: &str, pid: u32, stamp: &str, quoted_msg: &str) -> (line: String)
    ensures
        line@ == debug_line_text(module_name@, pid as nat, stamp@, quoted_msg@),
{
    let mut v = chars_of(" [DEBUG] ");
    append_chars(&mut v, &chars_of(module_name));
    append_chars(&mut v, &chars_of(" (pid:"));
    append_chars(&mut v, &digits_of(pid as u64, 10));
    append_chars(&mut v, &chars_of(") ["));
    append_chars(&mut v, &chars_of(stamp));
    append_chars(&mut v, &chars_of("]: "));
    append_chars(&mut v, &chars_of(quoted_msg));
    string_from_chars(&v)
}

impl ModuleArgs {
    /// The debug line for `msg` when debugging is on, stamped with the
    /// local time now (a stamp of the `DATE_FORMAT_STR` shape); `None` when
    /// it is off.
    pub fn debug_message(&self, pid: u32, msg: &str) -> (line: Option<String>)
        ensures
            line is None <==> !self.debug,
            line matches Some(l) ==> exists|stamp: Seq<char>|
                stamp_shape(stamp) && l@ == debug_line_text(
                    self.module_name@,
                    pid as nat,
                    stamp,
                    debug_quoted_text(msg@),
                ),
    {
        if self.debug {
            let stamp = local_time_text(DATE_FORMAT_STR);
            let quoted = debug_quoted(msg);
            let l = debug_line(self.module_name.as_str(), pid, stamp.as_str(), quoted.as_str());
            assert(l@ == debug_line_text(self.module_name@, pid as nat, stamp@, debug_quoted_text(msg@)));
            Some(l)
        } else {
            None
        }
    }

    /// Whether to compute a checksum: asked for, and the path is a regular
    /// file.
    pub fn wants_checksum(&self, is_regular_file: bool) -> (b: bool)
        ensures
            b == (self.get_checksum && is_regular_file),
    {
        self.get_checksum && is_regular_file
    }

    /// What to do about file attributes: nothing unless asked for; read
    /// them unless the path is a symlink that is not followed, in which case
    /// warn.
    pub fn attribute_action(&self, is_symlink: bool) -> (a: AttributeAction)
        ensures
            !self.get_attributes ==> a == AttributeAction::Skip,
            self.get_attributes && (self.follow || !is_symlink) ==> a == AttributeAction::Read,
            self.get_attributes && !self.follow && is_symlink ==> a == AttributeAction::WarnSymlink,
    {
        if self.get_attributes {
            if self.follow || !is_symlink {
                AttributeAction::Read
            } else {
                AttributeAction::WarnSymlink
            }
        } else {
            AttributeAction::Skip
        }
    }

    /// The hashing algorithm that the arguments name, or the error text of
    /// the checksums crate for a name that it does not know.
    pub fn checksum_algorithm(&self) -> (r: Result<HashAlgorithm, String>)
        ensures
            match r {
                Ok(a) => algorithm_parse_result(self.checksum_algorithim@) == Some(position(a)),
                Err(e) => algorithm_parse_result(self.checksum_algorithim@) is None && e@
                    == unknown_algorithm_text(self.checksum_algorithim@),
            },
            all_ascii(self.checksum_algorithim@) ==> match r {
                Ok(a) => algorithm_for(normalized(self.checksum_algorithim@)) == Some(a),
                Err(_) => algorithm_for(normalized(self.checksum_algorithim@)) is None,
            },
    {
        algorithm_named(self.checksum_algorithim.as_str())
    }
}

} // verus!
