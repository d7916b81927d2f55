use ansible_stat::attributes::attribute_name_of;
use ansible_stat::result::{lsattr_output_supported, mime_output_supported, StatResult};

fn texts(v: &[String]) -> Vec<&str> {
    v.iter().map(|s| s.as_str()).collect()
}

#[test]
fn new_result_is_empty() {
    let r = StatResult::new();
    assert_eq!(r.path, "");
    assert!(!r.exists && !r.failed && !r.changed);
    assert!(r.warnings.is_empty() && r.deprecations.is_empty() && r.attributes.is_empty());
    assert!(r.msg.is_none() && r.mode.is_none() && r.isuid.is_none() && r.checksum.is_none());
}

#[test]
fn warning_recorded_once() {
    let mut r = StatResult::new();
    r.warn("first".to_string());
    r.warn("second".to_string());
    r.warn("first".to_string());
    assert_eq!(texts(&r.warnings), vec!["first", "second"]);
}

#[test]
fn fail_sets_failed_and_message() {
    let mut r = StatResult::new();
    r.warn("w".to_string());
    r.fail("Cannot stat path".to_string());
    assert_eq!(texts(&r.warnings), vec!["w"]);
    assert!(r.failed);
    assert_eq!(r.msg.as_deref(), Some("Cannot stat path"));
    r.fail("again".to_string());
    assert!(r.failed);
    assert_eq!(r.msg.as_deref(), Some("again"));
}

#[test]
fn conclude_sets_only_message() {
    let mut r = StatResult::new();
    r.conclude(Some("Path (\"/nope\") does not exist.".to_string()));
    assert_eq!(r.msg.as_deref(), Some("Path (\"/nope\") does not exist."));
    assert!(!r.failed);
    r.conclude(None);
    assert!(r.msg.is_none());
}

#[test]
fn attribute_table() {
    let pairs = [
        ('A', "noatime"), ('a', "append"), ('c', "compressed"), ('C', "nocow"),
        ('d', "nodump"), ('D', "dirsync"), ('e', "extents"), ('E', "encrypted"),
        ('h', "blocksize"), ('i', "immutable"), ('I', "indexed"), ('j', "journalled"),
        ('N', "inline"), ('s', "zero"), ('S', "synchronous"), ('t', "notail"),
        ('T', "blockroot"), ('u', "undelete"), ('X', "compressedraw"), ('Z', "compresseddirty"),
    ];
    for (c, name) in pairs {
        assert_eq!(attribute_name_of(c).as_deref(), Some(name));
    }
    assert_eq!(attribute_name_of('-'), None);
    assert_eq!(attribute_name_of('P'), None);
}

#[test]
fn format_attributes_one_name_per_flag() {
    let mut r = StatResult::new();
    r.attr_flags = Some("eiA".to_string());
    r.format_attributes();
    assert_eq!(texts(&r.attributes), vec!["extents", "immutable", "noatime"]);
    r.attr_flags = Some(String::new());
    r.format_attributes();
    assert!(r.attributes.is_empty());
}

#[test]
fn lsattr_output_read() {
    let out = "3467285932 --------------e------- /tmp/file\n";
    assert!(lsattr_output_supported(out));
    let mut r = StatResult::new();
    assert_eq!(r.set_file_attr(out), None);
    assert_eq!(r.version.as_deref(), Some("3467285932"));
    assert_eq!(r.attr_flags.as_deref(), Some("e"));
    assert_eq!(texts(&r.attributes), vec!["extents"]);
    assert!(r.warnings.is_empty());
}

#[test]
fn lsattr_output_without_flags() {
    let mut r = StatResult::new();
    r.set_file_attr("1\t---------------------- /x");
    assert_eq!(r.attr_flags.as_deref(), Some(""));
    assert!(r.attributes.is_empty());
}

#[test]
fn lsattr_unexpected_output_warns() {
    let mut r = StatResult::new();
    let out = "lsattr: Operation not supported While reading flags on /proc/x";
    assert!(lsattr_output_supported(out));
    let shown = r.set_file_attr(out);
    assert_eq!(shown.as_deref(), Some(r.warnings[0].as_str()));
    assert!(r.version.is_none() && r.attr_flags.is_none());
    assert_eq!(
        texts(&r.warnings),
        vec!["Skipping attr info, unexpected lsattr output: [\"lsattr:\", \"Operation\", \"not\", \"supported\", \"While\", \"reading\", \"flags\", \"on\", \"/proc/x\"]"]
    );
    assert_eq!(
        r.set_file_attr("").as_deref(),
        Some("Skipping attr info, unexpected lsattr output: []")
    );
    assert_eq!(r.set_file_attr("").as_deref(), Some("Skipping attr info, unexpected lsattr output: []"));
    assert_eq!(r.warnings.len(), 2);
    assert_eq!(r.warnings[1], "Skipping attr info, unexpected lsattr output: []");
}

#[test]
fn lsattr_flags_are_the_set_ones() {
    let out = "1 ----i---------e------- /tmp/x\n";
    assert!(lsattr_output_supported(out));
    let mut r = StatResult::new();
    r.set_file_attr(out);
    assert_eq!(r.version.as_deref(), Some("1"));
    assert_eq!(r.attr_flags.as_deref(), Some("ie"));
    assert_eq!(texts(&r.attributes), vec!["immutable", "extents"]);
    assert!(r.warnings.is_empty());
}

#[test]
fn lsattr_unknown_flags_not_supported() {
    assert!(!lsattr_output_supported("1 ---P--- /x"));
    assert!(!lsattr_output_supported("1 -i--x- /x"));
    assert!(lsattr_output_supported("1 ---i--- /x"));
}

#[test]
fn mime_output_read() {
    let out = "/tmp/file: text/plain; charset=us-ascii\n";
    assert!(mime_output_supported(out));
    let mut r = StatResult::new();
    assert_eq!(r.set_mime_info(out), None);
    assert_eq!(r.mimetype.as_deref(), Some("text/plain"));
    assert_eq!(r.charset.as_deref(), Some("us-ascii"));
    assert!(r.warnings.is_empty());
}

#[test]
fn mime_output_uses_text_after_last_colon() {
    let mut r = StatResult::new();
    r.set_mime_info("/a:b/c: inode/directory; charset=binary\n");
    assert_eq!(r.mimetype.as_deref(), Some("inode/directory"));
    assert_eq!(r.charset.as_deref(), Some("binary"));
}

#[test]
fn mime_unexpected_output_warns() {
    let mut r = StatResult::new();
    let shown = r.set_mime_info("/x: cannot open `/x' (No such file or directory)\n");
    assert_eq!(shown.as_deref(), Some(r.warnings[0].as_str()));
    assert!(r.mimetype.is_none() && r.charset.is_none());
    assert_eq!(
        texts(&r.warnings),
        vec!["Skipping mime info, invalid mime information: [\"cannot open `/x' (No such file or directory)\"]"]
    );
}

#[test]
fn mime_without_charset_not_supported() {
    assert!(!mime_output_supported("/x: text/plain; utf-8"));
    assert!(mime_output_supported("/x: a; b; c"));
}

#[test]
fn permissions_of_regular_file() {
    let mut r = StatResult::new();
    r.set_permissions(0o100644, false);
    assert_eq!(r.mode.as_deref(), Some("0644"));
    assert_eq!((r.rusr, r.wusr, r.xusr), (Some(true), Some(true), Some(false)));
    assert_eq!((r.rgrp, r.wgrp, r.xgrp), (Some(true), Some(false), Some(false)));
    assert_eq!((r.roth, r.woth, r.xoth), (Some(true), Some(false), Some(false)));
    assert_eq!((r.isuid, r.isgid), (Some(false), Some(false)));
}

#[test]
fn permissions_of_directory_and_special_bits() {
    let mut r = StatResult::new();
    r.set_permissions(0o40755, false);
    assert_eq!(r.mode.as_deref(), Some("0755"));
    assert_eq!((r.xusr, r.xgrp, r.xoth), (Some(true), Some(true), Some(true)));
    assert_eq!((r.wgrp, r.woth), (Some(false), Some(false)));
    r.set_permissions(0o106751, false);
    assert_eq!(r.mode.as_deref(), Some("6751"));
    assert_eq!((r.isuid, r.isgid), (Some(true), Some(true)));
    assert_eq!((r.rgrp, r.wgrp, r.xgrp), (Some(true), Some(false), Some(true)));
    assert_eq!((r.roth, r.woth, r.xoth), (Some(false), Some(false), Some(true)));
    r.set_permissions(0o101000, false);
    assert_eq!((r.isuid, r.isgid), (Some(false), Some(false)));
}

#[test]
fn permissions_of_char_device_keep_special_flags() {
    let mut r = StatResult::new();
    r.set_permissions(0o20666, true);
    assert_eq!(r.mode.as_deref(), Some("0666"));
    assert_eq!((r.isuid, r.isgid), (None, None));
    assert_eq!((r.rusr, r.woth), (Some(true), Some(true)));
}

#[test]
fn permissions_of_short_mode() {
    let mut r = StatResult::new();
    r.set_permissions(0o644, false);
    assert_eq!(r.mode.as_deref(), Some("o644"));
    assert_eq!((r.isuid, r.isgid), (Some(false), Some(false)));
    assert_eq!((r.rusr, r.wusr, r.roth), (Some(true), Some(true), Some(true)));
}

#[test]
fn symlink_warning_text() {
    assert_eq!(
        ansible_stat::result::symlink_warning(),
        "Skipping getting attributes as this is not supported on symlinks"
    );
}
