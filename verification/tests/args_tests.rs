use ansible_stat::args::{debug_line, AttributeAction, ModuleArgs};
use ansible_stat::checksum::{algorithm_named, checksum_text, HashAlgorithm};
use ansible_stat::clock::format_file_time;
use ansible_stat::{d_false, d_sha1, d_shell, d_syslog_facility, d_true, d_v, d_version};

fn args() -> ModuleArgs {
    ModuleArgs {
        check_mode: false,
        debug: false,
        diff: false,
        keep_remote_files: false,
        ignore_unknown_opts: false,
        module_name: "stat".to_string(),
        no_log: false,
        remote_tmp: None,
        target_log_info: None,
        shell_executable: d_shell(),
        socket: None,
        syslog_facility: d_syslog_facility(),
        tmpdir: None,
        verbosity: d_v(),
        version: d_version(),
        path: "/etc/hosts".to_string(),
        follow: false,
        checksum_algorithim: d_sha1(),
        get_attributes: true,
        get_checksum: true,
        get_mime: true,
    }
}

#[test]
fn defaults() {
    assert!(d_true());
    assert!(!d_false());
    assert_eq!(d_sha1(), "sha1");
    assert_eq!(d_shell(), "/bin/sh");
    assert_eq!(d_syslog_facility(), "INFO");
    assert_eq!(d_v(), 0);
    assert_eq!(d_version(), "0.0");
}

#[test]
fn debug_line_layout() {
    assert_eq!(
        debug_line("stat", 4242, "2024-01-02  03:04:05", "\"hello\""),
        " [DEBUG] stat (pid:4242) [2024-01-02  03:04:05]: \"hello\""
    );
    assert_eq!(debug_line("", 0, "", ""), " [DEBUG]  (pid:0) []: ");
}

#[test]
fn debug_message_only_when_debugging() {
    let mut a = args();
    assert_eq!(a.debug_message(7, "x"), None);
    a.debug = true;
    let line = a.debug_message(7, "say \"hi\"").unwrap();
    assert!(line.starts_with(" [DEBUG] stat (pid:7) ["));
    assert!(line.ends_with("]: \"say \\\"hi\\\"\""));
}

#[test]
fn debug_line_quotes_the_message_and_stamps_the_time() {
    let mut a = args();
    a.debug = true;
    let line = a.debug_message(1, "a\"b\n").unwrap();
    let prefix = " [DEBUG] stat (pid:1) [";
    assert!(line.starts_with(prefix));
    let rest = &line[prefix.len()..];
    let b = rest.as_bytes();
    assert_eq!((b[4], b[7], b[10], b[11], b[14], b[17]), (b'-', b'-', b' ', b' ', b':', b':'));
    assert_eq!(&rest[20..], "]: \"a\\\"b\\n\"");
}

#[test]
fn file_time_text() {
    assert_eq!(format_file_time(1700000000, 123456789), "1700000000.123456789");
    assert_eq!(format_file_time(12, 5), "12.5");
    assert_eq!(format_file_time(0, 0), "0.0");
    assert_eq!(format_file_time(-1, 500), "-1.500");
    assert_eq!(format_file_time(i64::MIN, u32::MAX), "-9223372036854775808.4294967295");
    assert_eq!(format_file_time(i64::MAX, 1), "9223372036854775807.1");
}

#[test]
fn checksum_decision() {
    let mut a = args();
    assert!(a.wants_checksum(true));
    assert!(!a.wants_checksum(false));
    a.get_checksum = false;
    assert!(!a.wants_checksum(true));
}

#[test]
fn attribute_decision() {
    let mut a = args();
    assert_eq!(a.attribute_action(false), AttributeAction::Read);
    assert_eq!(a.attribute_action(true), AttributeAction::WarnSymlink);
    a.follow = true;
    assert_eq!(a.attribute_action(true), AttributeAction::Read);
    a.get_attributes = false;
    assert_eq!(a.attribute_action(false), AttributeAction::Skip);
}

#[test]
fn checksum_algorithm_names() {
    let mut a = args();
    assert_eq!(a.checksum_algorithm(), Ok(HashAlgorithm::Sha1));
    let table = [
        ("SHA1", HashAlgorithm::Sha1), ("sha-1", HashAlgorithm::Sha1),
        ("SHA2_256", HashAlgorithm::Sha2256), ("sha-2-224", HashAlgorithm::Sha2224),
        ("sha2384", HashAlgorithm::Sha2384), ("SHA2", HashAlgorithm::Sha2512),
        ("sha3-256", HashAlgorithm::Sha3256), ("sha_3_512", HashAlgorithm::Sha3512),
        ("blake", HashAlgorithm::Blake), ("BLAKE2", HashAlgorithm::Blake2b),
        ("Blake2b", HashAlgorithm::Blake2b), ("blake2s", HashAlgorithm::Blake2s),
        ("blake3", HashAlgorithm::Blake3), ("crc64", HashAlgorithm::Crc64),
        ("crc32", HashAlgorithm::Crc32), ("CRC32_Castagnoli", HashAlgorithm::Crc32c),
        ("crc16", HashAlgorithm::Crc16), ("crc8", HashAlgorithm::Crc8),
        ("MD5", HashAlgorithm::Md5), ("md6-128", HashAlgorithm::Md6128),
        ("md6256", HashAlgorithm::Md6256), ("MD6_512", HashAlgorithm::Md6512),
        ("WHIRLPOOL", HashAlgorithm::Whirlpool), ("xor8", HashAlgorithm::Xor8),
    ];
    for (name, expected) in table {
        assert_eq!(algorithm_named(name), Ok(expected), "{}", name);
    }
    a.checksum_algorithim = "sha-256".to_string();
    assert_eq!(
        a.checksum_algorithm(),
        Err("\"sha-256\" is not a recognised hashing algorithm".to_string())
    );
    assert_eq!(
        algorithm_named("md4"),
        Err("\"md4\" is not a recognised hashing algorithm".to_string())
    );
}

#[test]
fn digest_lowercased() {
    assert_eq!(checksum_text("DA39A3EE5E6B4B0D3255BFEF95601890AFD80709"), "da39a3ee5e6b4b0d3255bfef95601890afd80709");
    assert_eq!(checksum_text(""), "");
}
