//! The module's result and the rules that fill it in.
use vstd::prelude::*;
use crate::attributes::{all_flags_known, attribute_names, flags_known, names_of_flags};
use crate::mode::{
    exec_digit, is_exec_digit, is_read_digit, is_write_digit, mode_bit, octal_text, octal_text_of,
    read_digit, write_digit,
};
use crate::mode::{lemma_digit_classes, lemma_octal_digit_at, lemma_octal_len, pow8};
use vstd::arithmetic::div_mod::lemma_div_denominator;
use crate::render::{debug_list, debug_list_text, joined};
use crate::text::{
    chars_of, copy_range, split_by, split_chars, split_words, string_from_chars, string_views,
    strings_from, strip_prefix, strip_prefix_chars, trim, trim_chars, views, words, without_char,
    remove_char, CharClass,
};

verus! {

/// What the module reports about a path.
///
/// `warnings` and `deprecations` hold each message once.
pub struct StatResult {
    pub warnings: Vec<String>,
    pub deprecations: Vec<String>,
    pub changed: bool,
    pub failed: bool,
    pub msg: Option<String>,
    pub traceback: Option<String>,
    pub atime: Option<String>,
    pub attr_flags: Option<String>,
    pub attributes: Vec<String>,
    pub block_size: Option<i64>,
    pub blocks: Option<i64>,
    pub charset: Option<String>,
    pub checksum: Option<String>,
    pub ctime: Option<String>,
    pub dev: Option<u32>,
    pub device_type: Option<u32>,
    pub executable: Option<bool>,
    pub exists: bool,
    pub gid: Option<u32>,
    pub gr_name: Option<String>,
    pub inode: Option<u64>,
    pub isblk: Option<bool>,
    pub ischr: Option<bool>,
    pub isdir: Option<bool>,
    pub isfifo: Option<bool>,
    pub isgid: Option<bool>,
    pub islnk: Option<bool>,
    pub isreg: Option<bool>,
    pub issock: Option<bool>,
    pub isuid: Option<bool>,
    pub lnk_source: Option<String>,
    pub lnk_target: Option<String>,
    pub mimetype: Option<String>,
    pub mode: Option<String>,
    pub mtime: Option<String>,
    pub nlink: Option<u64>,
    pub path: String,
    pub pw_name: Option<String>,
    pub readable: Option<bool>,
    pub rgrp: Option<bool>,
    pub roth: Option<bool>,
    pub rusr: Option<bool>,
    pub size: Option<u64>,
    pub uid: Option<u32>,
    pub version: Option<String>,
    pub wgrp: Option<bool>,
    pub woth: Option<bool>,
    pub writable: Option<bool>,
    pub wusr: Option<bool>,
    pub xgrp: Option<bool>,
    pub xoth: Option<bool>,
    pub xusr: Option<bool>,
}

/// No message occurs twice in `ws`.
pub open spec fn distinct(ws: Seq<Seq<char>>) -> bool {
    forall|i: int, j: int| 0 <= i < j < ws.len() ==> ws[i] != ws[j]
}

/// The set of messages `ws` after recording `w`: unchanged if `w` is
/// already there, else `w` added at the end.
pub open spec fn with_warning(ws: Seq<Seq<char>>, w: Seq<char>) -> Seq<Seq<char>> {
    if ws.contains(w) {
        ws
    } else {
        ws.push(w)
    }
}

/// The whitespace-separated fields of `lsattr -vd` output.
pub open spec fn lsattr_fields(out: Seq<char>) -> Seq<Seq<char>> {
    words(out)
}

/// The attribute flags in `lsattr -vd` output: its second field without
/// the `-` that mark unset flags, so that only the set flags remain.
pub open spec fn lsattr_flags(out: Seq<char>) -> Seq<char> {
    without_char(lsattr_fields(out)[1], '-')
}

/// `lsattr` output that the module can read without failing: when it has
/// three fields, every flag in it is a known attribute flag.
pub open spec fn lsattr_supported(out: Seq<char>) -> bool {
    lsattr_fields(out).len() == 3 ==> all_flags_known(lsattr_flags(out))
}

/// The fields of `file --mime-type --mime-encoding` output: the text after
/// its last `:`, split at `;`, each piece trimmed of whitespace.
pub open spec fn mime_fields(out: Seq<char>) -> Seq<Seq<char>> {
    split_by(split_by(out, CharClass::Exactly(':')).last(), CharClass::Exactly(';')).map_values(
        |p: Seq<char>| trim(p, CharClass::Whitespace),
    )
}

pub open spec fn charset_prefix() -> Seq<char> {
    "charset="@
}

/// `file` output that the module can read without failing: when it has two
/// fields, the second starts with `charset=`.
pub open spec fn mime_supported(out: Seq<char>) -> bool {
    mime_fields(out).len() == 2 ==> strip_prefix(mime_fields(out)[1], charset_prefix()) is Some
}

/// The warning for `lsattr` output without three fields, given the
/// `Debug` rendering of its fields.
pub open spec fn lsattr_warning(rendered: Seq<char>) -> Seq<char> {
    "Skipping attr info, unexpected lsattr output: "@ + rendered
}

/// The warning for `file` output without two fields, given the `Debug`
/// rendering of its fields.
pub open spec fn mime_warning(rendered: Seq<char>) -> Seq<char> {
    "Skipping mime info, invalid mime information: "@ + rendered
}

/// The warning given when attributes are not read because the path is a
/// symlink that is not followed.
pub open spec fn symlink_attributes_warning() -> Seq<char> {
    "Skipping getting attributes as this is not supported on symlinks"@
}

/// The warning given when attributes are not read because the path is a
/// symlink that is not followed, as a string.
pub fn symlink_warning() -> (w: String)
    ensures
        w@ == symlink_attributes_warning(),
{
    String::from_str("Skipping getting attributes as this is not supported on symlinks")
}

/// The `mode` text: the last four characters of the `{:#o}` text, which
/// for a mode with file-type bits are its four permission digits (special
/// bits, user, group, others), the file-type digits dropped.
pub open spec fn mode_text(mode: nat) -> Seq<char> {
    octal_text(mode).subrange(octal_text(mode).len() - 4, octal_text(mode).len() as int)
}

/// An optional string whose text is `t`.
pub open spec fn opt_text(o: Option<String>, t: Seq<char>) -> bool {
    o matches Some(s) && s@ == t
}

impl StatResult {
    /// The warnings hold each message once, and so do the deprecations.
    pub open spec fn wf(&self) -> bool {
        &&& distinct(string_views(self.warnings@))
        &&& distinct(string_views(self.deprecations@))
    }

    /// The result before anything is known: nothing exists, nothing failed,
    /// no field set, no warnings.
    pub fn new() -> (r: StatResult)
        ensures
            r.wf(),
            r.path@ == Seq::<char>::empty(),
            !r.changed,
            !r.failed,
            !r.exists,
            r.warnings@.len() == 0,
            r.deprecations@.len() == 0,
            r.attributes@.len() == 0,
            r.msg is None,
            r.traceback is None,
            r.atime is None,
            r.attr_flags is None,
            r.block_size is None,
            r.blocks is None,
            r.charset is None,
            r.checksum is None,
            r.ctime is None,
            r.dev is None,
            r.device_type is None,
            r.executable is None,
            r.gid is None,
            r.gr_name is None,
            r.inode is None,
            r.isblk is None,
            r.ischr is None,
            r.isdir is None,
            r.isfifo is None,
            r.isgid is None,
            r.islnk is None,
            r.isreg is None,
            r.issock is None,
            r.isuid is None,
            r.lnk_source is None,
            r.lnk_target is None,
            r.mimetype is None,
            r.mode is None,
            r.mtime is None,
            r.nlink is None,
            r.pw_name is None,
            r.readable is None,
            r.rgrp is None,
            r.roth is None,
            r.rusr is None,
            r.size is None,
            r.uid is None,
            r.version is None,
            r.wgrp is None,
            r.woth is None,
            r.writable is None,
            r.wusr is None,
            r.xgrp is None,
            r.xoth is None,
            r.xusr is None,
    {
        let r = StatResult {
            warnings: Vec::new(),
            deprecations: Vec::new(),
            changed: false,
            failed: false,
            msg: None,
            traceback: None,
            atime: None,
            attr_flags: None,
            attributes: Vec::new(),
            block_size: None,
            blocks: None,
            charset: None,
            checksum: None,
            ctime: None,
            dev: None,
            device_type: None,
            executable: None,
            exists: false,
            gid: None,
            gr_name: None,
            inode: None,
            isblk: None,
            ischr: None,
            isdir: None,
            isfifo: None,
            isgid: None,
            islnk: None,
            isreg: None,
            issock: None,
            isuid: None,
            lnk_source: None,
            lnk_target: None,
            mimetype: None,
            mode: None,
            mtime: None,
            nlink: None,
            path: String::new(),
            pw_name: None,
            readable: None,
            rgrp: None,
            roth: None,
            rusr: None,
            size: None,
            uid: None,
            version: None,
            wgrp: None,
            woth: None,
            writable: None,
            wusr: None,
            xgrp: None,
            xoth: None,
            xusr: None,
        };
        assert(string_views(r.warnings@) =~= Seq::<Seq<char>>::empty());
        assert(string_views(r.deprecations@) =~= Seq::<Seq<char>>::empty());
        r
    }

    /// Records a warning; one already recorded is not recorded again.
    pub fn warn(&mut self, warning: String)
        requires
            old(self).wf(),
        ensures
            final(self).wf(),
            string_views(final(self).warnings@) == with_warning(
                string_views(old(self).warnings@),
                warning@,
            ),
            *final(self) == (StatResult { warnings: final(self).warnings, ..*old(self) }),
    {
        let ghost ws = string_views(self.warnings@);
        let mut i: usize = 0;
        while i < self.warnings.len()
            invariant
                ws == string_views(self.warnings@),
                *self == *old(self),
                self.wf(),
                0 <= i <= self.warnings.len(),
                forall|k: int| 0 <= k < i ==> ws[k] != warning@,
            decreases self.warnings.len() - i,
        {
            if self.warnings[i] == warning {
                assert(ws[i as int] == warning@);
                assert(ws.contains(warning@));
                return;
            }
            i = i + 1;
        }
        assert(!ws.contains(warning@));
        let ghost w = warning@;
        self.warnings.push(warning);
        assert(string_views(self.warnings@) =~= ws.push(w));
    }

    /// Records how the run ends: its message, if any.
    pub fn conclude(&mut self, msg: Option<String>)
        ensures
            *final(self) == (StatResult { msg: msg, ..*old(self) }),
    {
        self.msg = msg;
    }

    /// Records that the run failed, with its message.
    pub fn fail(&mut self, msg: String)
        ensures
            final(self).failed,
            final(self).msg == Some(msg),
            *final(self) == (StatResult { failed: true, msg: Some(msg), ..*old(self) }),
    {
        if !self.failed {
            self.failed = true;
        }
        self.conclude(Some(msg));
    }

    /// Sets the attribute names from the attribute flags: one name per
    /// flag, in the order of the flags.
    pub fn format_attributes(&mut self)
        requires
            old(self).attr_flags is Some,
            all_flags_known(old(self).attr_flags->0@),
        ensures
            string_views(final(self).attributes@) == attribute_names(old(self).attr_flags->0@),
            *final(self) == (StatResult { attributes: final(self).attributes, ..*old(self) }),
    {
        let flags = match &self.attr_flags {
            Some(f) => chars_of(f.as_str()),
            None => Vec::new(),
        };
        self.attributes = names_of_flags(&flags);
    }

    /// Reads the output of `lsattr -vd`: with three fields, the version is
    /// the first, the attribute flags the set flags of the second (every
    /// `-` removed), and the attribute names follow from the flags;
    /// otherwise a warning that shows the fields is recorded, and returned
    /// so that it can be shown.
    pub fn set_file_attr(&mut self, lsattr_output: &str) -> (warning: Option<String>)
        requires
            old(self).wf(),
            lsattr_supported(lsattr_output@),
        ensures
            final(self).wf(),
            warning is Some <==> lsattr_fields(lsattr_output@).len() != 3,
            warning matches Some(w) ==> w@ == lsattr_warning(
                debug_list_text(lsattr_fields(lsattr_output@)),
            ),
            lsattr_fields(lsattr_output@).len() == 3 ==> {
                &&& opt_text(final(self).version, lsattr_fields(lsattr_output@)[0])
                &&& opt_text(final(self).attr_flags, lsattr_flags(lsattr_output@))
                &&& string_views(final(self).attributes@) == attribute_names(
                    lsattr_flags(lsattr_output@),
                )
                &&& *final(self) == (StatResult {
                    version: final(self).version,
                    attr_flags: final(self).attr_flags,
                    attributes: final(self).attributes,
                    ..*old(self)
                })
            },
            lsattr_fields(lsattr_output@).len() != 3 ==> {
                &&& string_views(final(self).warnings@) == with_warning(
                    string_views(old(self).warnings@),
                    lsattr_warning(debug_list_text(lsattr_fields(lsattr_output@))),
                )
                &&& *final(self) == (StatResult { warnings: final(self).warnings, ..*old(self) })
            },
    {
        let chars = chars_of(lsattr_output);
        let fields = split_words(&chars);
        if fields.len() == 3 {
            assert(fields[1]@ == lsattr_fields(lsattr_output@)[1]);
            self.version = Some(string_from_chars(&fields[0]));
            let flags = remove_char(&fields[1], '-');
            self.attr_flags = Some(string_from_chars(&flags));
            self.format_attributes();
            None
        } else {
            let texts = strings_from(&fields);
            let rendered = debug_list(&texts);
            let warning = joined("Skipping attr info, unexpected lsattr output: ", rendered.as_str());
            self.warn(warning.clone());
            Some(warning)
        }
    }

    /// Reads the output of `file --mime-type --mime-encoding`: with two
    /// fields, the MIME type is the first and the charset the second
    /// after its `charset=`; otherwise a warning that shows the fields is
    /// recorded, and returned so that it can be shown.
    pub fn set_mime_info(&mut self, file_output: &str) -> (warning: Option<String>)
        requires
            old(self).wf(),
            mime_supported(file_output@),
        ensures
            final(self).wf(),
            warning is Some <==> mime_fields(file_output@).len() != 2,
            warning matches Some(w) ==> w@ == mime_warning(
                debug_list_text(mime_fields(file_output@)),
            ),
            mime_fields(file_output@).len() == 2 ==> {
                &&& opt_text(final(self).mimetype, mime_fields(file_output@)[0])
                &&& opt_text(
                    final(self).charset,
                    strip_prefix(mime_fields(file_output@)[1], charset_prefix())->0,
                )
                &&& *final(self) == (StatResult {
                    mimetype: final(self).mimetype,
                    charset: final(self).charset,
                    ..*old(self)
                })
            },
            mime_fields(file_output@).len() != 2 ==> {
                &&& string_views(final(self).warnings@) == with_warning(
                    string_views(old(self).warnings@),
                    mime_warning(debug_list_text(mime_fields(file_output@))),
                )
                &&& *final(self) == (StatResult { warnings: final(self).warnings, ..*old(self) })
            },
    {
        let fields = mime_fields_of(file_output);
        if fields.len() == 2 {
            self.mimetype = Some(string_from_chars(&fields[0]));
            let prefix = chars_of("charset=");
            match strip_prefix_chars(&fields[1], &prefix) {
                Some(rest) => {
                    self.charset = Some(string_from_chars(&rest));
                },
                None => {},
            }
            None
        } else {
            let texts = strings_from(&fields);
            let rendered = debug_list(&texts);
            let warning = joined(
                "Skipping mime info, invalid mime information: ",
                rendered.as_str(),
            );
            self.warn(warning.clone());
            Some(warning)
        }
    }

    /// Sets the permission flags and the `mode` text from a file mode (with
    /// its file-type bits): each flag is its bit of the mode; the
    /// set-user-ID and set-group-ID flags are left as they are for
    /// character devices.
    pub fn set_permissions(&mut self, mode: u32, is_char_device: bool)
        requires
            mode >= 64,
        ensures
            !is_char_device ==> final(self).isuid == Some(mode_bit(mode as nat, 2048)),
            !is_char_device ==> final(self).isgid == Some(mode_bit(mode as nat, 1024)),
            is_char_device ==> final(self).isuid == old(self).isuid,
            is_char_device ==> final(self).isgid == old(self).isgid,
            final(self).rusr == Some(mode_bit(mode as nat, 256)),
            final(self).wusr == Some(mode_bit(mode as nat, 128)),
            final(self).xusr == Some(mode_bit(mode as nat, 64)),
            final(self).rgrp == Some(mode_bit(mode as nat, 32)),
            final(self).wgrp == Some(mode_bit(mode as nat, 16)),
            final(self).xgrp == Some(mode_bit(mode as nat, 8)),
            final(self).roth == Some(mode_bit(mode as nat, 4)),
            final(self).woth == Some(mode_bit(mode as nat, 2)),
            final(self).xoth == Some(mode_bit(mode as nat, 1)),
            opt_text(final(self).mode, mode_text(mode as nat)),
            *final(self) == (StatResult {
                isuid: final(self).isuid,
                isgid: final(self).isgid,
                rusr: final(self).rusr,
                wusr: final(self).wusr,
                xusr: final(self).xusr,
                rgrp: final(self).rgrp,
                wgrp: final(self).wgrp,
                xgrp: final(self).xgrp,
                roth: final(self).roth,
                woth: final(self).woth,
                xoth: final(self).xoth,
                mode: final(self).mode,
                ..*old(self)
            }),
    {
        let full = octal_text_of(mode);
        proof {
            lemma_permission_digits(mode as nat);
        }
        let bound = full.len() - 1;
        if !is_char_device {
            let sid = full[bound - 3];
            self.isuid = Some(is_read_digit(sid));
            self.isgid = Some(is_write_digit(sid));
        }
        let usr = full[bound - 2];
        self.rusr = Some(is_read_digit(usr));
        self.wusr = Some(is_write_digit(usr));
        self.xusr = Some(is_exec_digit(usr));
        let grp = full[bound - 1];
        self.rgrp = Some(is_read_digit(grp));
        self.wgrp = Some(is_write_digit(grp));
        self.xgrp = Some(is_exec_digit(grp));
        let oth = full[bound];
        self.roth = Some(is_read_digit(oth));
        self.woth = Some(is_write_digit(oth));
        self.xoth = Some(is_exec_digit(oth));
        let tail = copy_range(&full, bound - 3, full.len());
        self.mode = Some(string_from_chars(&tail));
    }
}

/// The fields of `file` output, as `mime_fields` describes them.
pub fn mime_fields_of(file_output: &str) -> (fields: Vec<Vec<char>>)
    ensures
        views(fields@) == mime_fields(file_output@),
{
    let chars = chars_of(file_output);
    let by_colon = split_chars(&chars, CharClass::Exactly(':'));
    proof {
        crate::text::lemma_split_by_nonempty(chars@, CharClass::Exactly(':'));
    }
    let last = &by_colon[by_colon.len() - 1];
    let pieces = split_chars(last, CharClass::Exactly(';'));
    let ghost target = split_by(last@, CharClass::Exactly(';'));
    let mut fields: Vec<Vec<char>> = Vec::new();
    let mut i: usize = 0;
    while i < pieces.len()
        invariant
            views(pieces@) == target,
            0 <= i <= pieces.len(),
            views(fields@) == target.take(i as int).map_values(
                |p: Seq<char>| trim(p, CharClass::Whitespace),
            ),
        decreases pieces.len() - i,
    {
        let t = trim_chars(&pieces[i], CharClass::Whitespace);
        let ghost prev = fields@;
        fields.push(t);
        assert(views(fields@) =~= views(prev).push(trim(target[i as int], CharClass::Whitespace)));
        assert(target.take(i + 1).map_values(|p: Seq<char>| trim(p, CharClass::Whitespace))
            =~= target.take(i as int).map_values(|p: Seq<char>| trim(p, CharClass::Whitespace)).push(
            trim(target[i as int], CharClass::Whitespace),
        ));
        i = i + 1;
    }
    assert(target.take(pieces.len() as int) =~= target);
    fields
}

/// Whether `set_file_attr` can read this `lsattr` output.
pub fn lsattr_output_supported(lsattr_output: &str) -> (b: bool)
    ensures
        b == lsattr_supported(lsattr_output@),
{
    let chars = chars_of(lsattr_output);
    let fields = split_words(&chars);
    if fields.len() == 3 {
        let flags = remove_char(&fields[1], '-');
        flags_known(&flags)
    } else {
        true
    }
}

/// Whether `set_mime_info` can read this `file` output.
pub fn mime_output_supported(file_output: &str) -> (b: bool)
    ensures
        b == mime_supported(file_output@),
{
    let fields = mime_fields_of(file_output);
    if fields.len() == 2 {
        let prefix = chars_of("charset=");
        strip_prefix_chars(&fields[1], &prefix).is_some()
    } else {
        true
    }
}

/// The octal text of a mode of at least `0o100` has three digits or more;
/// its last characters are the digits of the mode's permission bits, and
/// each read/write/execute test on a digit is a test of one bit.
pub proof fn lemma_permission_digits(mode: nat)
    requires
        mode >= 64,
    ensures
        octal_text(mode).len() >= 5,
        ({
            let t = octal_text(mode);
            let b = t.len() - 1;
            &&& read_digit(t[b - 3]) == mode_bit(mode, 2048)
            &&& write_digit(t[b - 3]) == mode_bit(mode, 1024)
            &&& read_digit(t[b - 2]) == mode_bit(mode, 256)
            &&& write_digit(t[b - 2]) == mode_bit(mode, 128)
            &&& exec_digit(t[b - 2]) == mode_bit(mode, 64)
            &&& read_digit(t[b - 1]) == mode_bit(mode, 32)
            &&& write_digit(t[b - 1]) == mode_bit(mode, 16)
            &&& exec_digit(t[b - 1]) == mode_bit(mode, 8)
            &&& read_digit(t[b]) == mode_bit(mode, 4)
            &&& write_digit(t[b]) == mode_bit(mode, 2)
            &&& exec_digit(t[b]) == mode_bit(mode, 1)
        }),
{
    reveal_with_fuel(pow8, 4);
    assert(pow8(0) == 1 && pow8(1) == 8 && pow8(2) == 64 && pow8(3) == 512);
    let d = crate::text::digits(mode, 8);
    let t = octal_text(mode);
    lemma_octal_len(mode, 2);
    lemma_octal_len(mode, 3);
    assert(t == seq!['0', 'o'] + d);
    let b = t.len() - 1;
    lemma_octal_digit_at(mode, 0);
    lemma_octal_digit_at(mode, 1);
    lemma_octal_digit_at(mode, 2);
    assert(t[b] == d[d.len() - 1]);
    assert(t[b - 1] == d[d.len() - 2]);
    assert(t[b - 2] == d[d.len() - 3]);
    assert(mode / 1 == mode);
    lemma_digit_classes(mode);
    lemma_digit_classes(mode / 8);
    lemma_digit_classes(mode / 64);
    lemma_div_denominator(mode as int, 1, 4);
    lemma_div_denominator(mode as int, 1, 2);
    lemma_div_denominator(mode as int, 8, 4);
    lemma_div_denominator(mode as int, 8, 2);
    lemma_div_denominator(mode as int, 64, 4);
    lemma_div_denominator(mode as int, 64, 2);
    if d.len() > 3 {
        lemma_octal_digit_at(mode, 3);
        assert(t[b - 3] == d[d.len() - 4]);
        lemma_digit_classes(mode / 512);
        lemma_div_denominator(mode as int, 512, 4);
        lemma_div_denominator(mode as int, 512, 2);
    } else {
        assert(t[b - 3] == 'o');
        assert(mode < 512);
    }
}

/// Recording a warning keeps every earlier warning, in its place, and adds
/// nothing but that warning.
pub proof fn lemma_warning_keeps_others(ws: Seq<Seq<char>>, w: Seq<char>)
    ensures
        with_warning(ws, w).len() <= ws.len() + 1,
        with_warning(ws, w).take(ws.len() as int) == ws,
        forall|x: Seq<char>| #[trigger] with_warning(ws, w).contains(x) <==> (ws.contains(x) || x == w),
{
    if !ws.contains(w) {
        assert(ws.push(w).take(ws.len() as int) =~= ws);
        assert forall|x: Seq<char>| #[trigger] with_warning(ws, w).contains(x) <==> (ws.contains(x)
            || x == w) by {
            if ws.push(w).contains(x) {
                let k = choose|k: int| 0 <= k < ws.push(w).len() && ws.push(w)[k] == x;
                if k < ws.len() {
                    assert(ws[k] == x);
                }
            }
            if ws.contains(x) {
                let k = choose|k: int| 0 <= k < ws.len() && ws[k] == x;
                assert(ws.push(w)[k] == x);
            }
            if x == w {
                assert(ws.push(w)[ws.len() as int] == w);
            }
        }
    } else {
        assert(ws.take(ws.len() as int) =~= ws);
    }
}

/// Recording a warning that is already recorded changes nothing: the
/// warnings behave as a set. A recorded warning is among the warnings, and
/// the warnings stay free of repeats.
pub proof fn lemma_warning_recorded_once(ws: Seq<Seq<char>>, w: Seq<char>)
    requires
        distinct(ws),
    ensures
        with_warning(with_warning(ws, w), w) == with_warning(ws, w),
        with_warning(ws, w).contains(w),
        distinct(with_warning(ws, w)),
{
    if !ws.contains(w) {
        assert(ws.push(w)[ws.len() as int] == w);
        assert(ws.push(w).contains(w));
    }
}

/// For a mode of at least `0o1000` (so for every mode with file-type
/// bits), the `mode` text is the mode's last four octal digits.
pub proof fn lemma_mode_text_digits(mode: nat)
    requires
        mode >= 512,
    ensures
        mode_text(mode) == seq![
            crate::text::digit_char((mode / 512) % 8),
            crate::text::digit_char((mode / 64) % 8),
            crate::text::digit_char((mode / 8) % 8),
            crate::text::digit_char(mode % 8),
        ],
{
    reveal_with_fuel(pow8, 4);
    assert(pow8(0) == 1 && pow8(1) == 8 && pow8(2) == 64 && pow8(3) == 512);
    let d = crate::text::digits(mode, 8);
    lemma_octal_len(mode, 3);
    lemma_octal_digit_at(mode, 0);
    lemma_octal_digit_at(mode, 1);
    lemma_octal_digit_at(mode, 2);
    lemma_octal_digit_at(mode, 3);
    assert(mode / 1 == mode);
    let t = octal_text(mode);
    assert(t == seq!['0', 'o'] + d);
    assert(mode_text(mode) =~= d.subrange(d.len() - 4, d.len() as int));
    assert(mode_text(mode) =~= seq![
        crate::text::digit_char((mode / 512) % 8),
        crate::text::digit_char((mode / 64) % 8),
        crate::text::digit_char((mode / 8) % 8),
        crate::text::digit_char(mode % 8),
    ]);
}

/// The attribute flags read from `lsattr` output keep every character of
/// the second field that is not `-`, in order, and nothing else.
pub proof fn lemma_lsattr_flags_are_set_flags(out: Seq<char>)
    requires
        lsattr_fields(out).len() == 3,
    ensures
        lsattr_flags(out) == lsattr_fields(out)[1].filter(|x: char| x != '-'),
{
    crate::text::lemma_without_char_is_filter(lsattr_fields(out)[1], '-');
}

/// The pieces of `file` output that its fields come from: the text after
/// the last `:`, split at `;`.
pub open spec fn mime_pieces(out: Seq<char>) -> Seq<Seq<char>> {
    split_by(split_by(out, CharClass::Exactly(':')).last(), CharClass::Exactly(';'))
}

/// `f` is `p` with only leading and trailing whitespace removed: `p` is
/// whitespace, then `f`, then whitespace, and `f` neither starts nor ends
/// with whitespace.
pub open spec fn trimmed_piece(p: Seq<char>, f: Seq<char>) -> bool {
    exists|a: int, b: int|
        #![trigger p.subrange(a, b)]
        {
            &&& 0 <= a <= b <= p.len()
            &&& f == p.subrange(a, b)
            &&& forall|k: int| 0 <= k < a ==> crate::text::is_unicode_whitespace(#[trigger] p[k])
            &&& forall|k: int|
                b <= k < p.len() ==> crate::text::is_unicode_whitespace(#[trigger] p[k])
            &&& f.len() > 0 ==> !crate::text::is_unicode_whitespace(f[0])
            &&& f.len() > 0 ==> !crate::text::is_unicode_whitespace(f.last())
        }
}

/// Each field of `file` output is its piece with only leading and trailing
/// whitespace removed.
pub proof fn lemma_mime_fields_are_trimmed_pieces(out: Seq<char>)
    ensures
        mime_fields(out).len() == mime_pieces(out).len(),
        forall|i: int|
            0 <= i < mime_pieces(out).len() ==> trimmed_piece(
                mime_pieces(out)[i],
                #[trigger] mime_fields(out)[i],
            ),
{
    assert forall|i: int| 0 <= i < mime_pieces(out).len() implies trimmed_piece(
        mime_pieces(out)[i],
        #[trigger] mime_fields(out)[i],
    ) by {
        let p = mime_pieces(out)[i];
        let r = crate::text::lemma_trim_range(p, CharClass::Whitespace);
        assert(mime_fields(out)[i] == trim(p, CharClass::Whitespace));
        assert(p.subrange(r.0, r.1) == mime_fields(out)[i]);
    }
}

/// Each permission flag's bit test is the machine test `mode & bit != 0`.
pub proof fn lemma_mode_bits_are_masks(mode: u32)
    ensures
        mode_bit(mode as nat, 2048) == (mode & 2048 != 0),
        mode_bit(mode as nat, 1024) == (mode & 1024 != 0),
        mode_bit(mode as nat, 256) == (mode & 256 != 0),
        mode_bit(mode as nat, 128) == (mode & 128 != 0),
        mode_bit(mode as nat, 64) == (mode & 64 != 0),
        mode_bit(mode as nat, 32) == (mode & 32 != 0),
        mode_bit(mode as nat, 16) == (mode & 16 != 0),
        mode_bit(mode as nat, 8) == (mode & 8 != 0),
        mode_bit(mode as nat, 4) == (mode & 4 != 0),
        mode_bit(mode as nat, 2) == (mode & 2 != 0),
        mode_bit(mode as nat, 1) == (mode & 1 != 0),
{
    assert((mode / 2048) % 2 == 1 <==> mode & 2048 != 0) by (bit_vector);
    assert((mode / 1024) % 2 == 1 <==> mode & 1024 != 0) by (bit_vector);
    assert((mode / 256) % 2 == 1 <==> mode & 256 != 0) by (bit_vector);
    assert((mode / 128) % 2 == 1 <==> mode & 128 != 0) by (bit_vector);
    assert((mode / 64) % 2 == 1 <==> mode & 64 != 0) by (bit_vector);
    assert((mode / 32) % 2 == 1 <==> mode & 32 != 0) by (bit_vector);
    assert((mode / 16) % 2 == 1 <==> mode & 16 != 0) by (bit_vector);
    assert((mode / 8) % 2 == 1 <==> mode & 8 != 0) by (bit_vector);
    assert((mode / 4) % 2 == 1 <==> mode & 4 != 0) by (bit_vector);
    assert((mode / 2) % 2 == 1 <==> mode & 2 != 0) by (bit_vector);
    assert((mode / 1) % 2 == 1 <==> mode & 1 != 0) by (bit_vector);
}

} // verus!
