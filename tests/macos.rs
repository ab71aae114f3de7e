use os_info::macos::{
    classify_bitness, current_platform, parse, parse_bitness, product_version, version,
};
use os_info::semantic::parse_semantic_version;
use os_info::matcher::Matcher;
use os_info::model::{compare_text, Bitness, Info, Type, Version};
use std::cmp::Ordering;

fn sw_vers_output() -> &'static str {
    "ProductName:	Mac OS X\n\
     ProductVersion:	10.10.5\n\
     BuildVersion:	14F27"
}

fn sw_vers_output_beta() -> &'static str {
    "ProductName:	Mac OS X\n\
     ProductVersion:	10.15\n\
     BuildVersion:	19A546d"
}

fn sw_vers_output_double_digit_patch_version() -> &'static str {
    "ProductName:	Mac OS X\n\
     ProductVersion:	10.15.21\n\
     BuildVersion:	ABCD123"
}

#[test]
fn os_type() {
    let version = current_platform(
        Some(sw_vers_output().as_bytes().to_vec()),
        Some(b"64\n".to_vec()),
    );
    assert_eq!(Type::Macos, version.os_type());
}

#[test]
fn os_version() {
    let version = version(product_version(Some(sw_vers_output().as_bytes().to_vec())));
    assert_ne!(Version::unknown(), version);
}

#[test]
fn string_product_version() {
    let version = product_version(Some(sw_vers_output().as_bytes().to_vec()));
    assert!(version.is_some());
}

#[test]
fn semantic_version() {
    let test_data = [
        ("", None),
        ("some test", None),
        ("0", None),
        ("0.", None),
        ("0.1", Some((0, 1, 0))),
        ("0.1.", None),
        ("0.1.2", Some((0, 1, 2))),
        ("0.1.2.", None),
        ("1.0.0", Some((1, 0, 0))),
        ("0.0.1", Some((0, 0, 1))),
        ("10.1", Some((10, 1, 0))),
        ("a.b.c", None),
        ("hello.world", None),
    ];

    for &(input, ref expected_result) in &test_data {
        let res = parse_semantic_version(input);
        assert_eq!(&res, expected_result);
    }
}

#[test]
fn parse_version() {
    let parse_output = parse(sw_vers_output());
    assert_eq!(parse_output, Some("10.10.5".to_string()));
}

#[test]
fn parse_beta_version() {
    let parse_output = parse(sw_vers_output_beta());
    assert_eq!(parse_output, Some("10.15".to_string()));
}

#[test]
fn parse_double_digit_patch_version() {
    let parse_output = parse(sw_vers_output_double_digit_patch_version());
    assert_eq!(parse_output, Some("10.15.21".to_string()));
}

#[test]
fn bitness() {
    assert_eq!(parse_bitness("32".as_bytes().to_vec()), Bitness::X32);
    assert_eq!(parse_bitness("32\n".as_bytes().to_vec()), Bitness::X32);
    assert_eq!(parse_bitness("64".as_bytes().to_vec()), Bitness::X64);
    assert_eq!(parse_bitness("64\n".as_bytes().to_vec()), Bitness::X64);
    assert_eq!(
        parse_bitness("bad_value".as_bytes().to_vec()),
        Bitness::Unknown
    );
}

#[test]
fn get_bitness() {
    let b = os_info::macos::bitness(Some(b"64\n".to_vec()));
    assert_ne!(b, Bitness::Unknown);
}

#[test]
fn semantic_version_largest_numbers() {
    assert_eq!(
        parse_semantic_version("18446744073709551615.0.18446744073709551615"),
        Some((u64::MAX, 0, u64::MAX))
    );
    assert_eq!(parse_semantic_version("18446744073709551616.0"), None);
    assert_eq!(parse_semantic_version("1.99999999999999999999"), None);
}

#[test]
fn semantic_version_leading_zeros_and_sign() {
    assert_eq!(parse_semantic_version("007.010"), Some((7, 10, 0)));
    assert_eq!(parse_semantic_version("+1.2"), Some((1, 2, 0)));
    assert_eq!(parse_semantic_version("+.2"), None);
    assert_eq!(parse_semantic_version("-1.2"), None);
}

#[test]
fn semantic_version_wrong_piece_counts() {
    assert_eq!(parse_semantic_version("1.2.3.4"), None);
    assert_eq!(parse_semantic_version("1..2"), None);
    assert_eq!(parse_semantic_version(".1"), None);
    assert_eq!(parse_semantic_version("1.2.3 "), None);
    assert_eq!(parse_semantic_version(" 1.2"), None);
}

#[test]
fn matcher_flush_left_label() {
    let m = Matcher::PrefixedVersion { prefix: "Key:" };
    assert_eq!(m.find("Other: x\nKey:  value  \nKey: later"), Some("value".to_string()));
}

#[test]
fn matcher_indented_label() {
    let m = Matcher::PrefixedVersion { prefix: "Key:" };
    assert_eq!(m.find("Other: x\n \t Key:\t1.2 beta\r\n"), Some("1.2 beta".to_string()));
}

#[test]
fn matcher_absent_label() {
    let m = Matcher::PrefixedVersion { prefix: "Key:" };
    assert_eq!(m.find("Other: x\nKe y: 1\nkey: 2"), None);
    assert_eq!(m.find(""), None);
    assert_eq!(parse("ProductName:\tMac OS X\nBuildVersion:\t14F27"), None);
}

#[test]
fn matcher_label_not_at_line_start() {
    let m = Matcher::PrefixedVersion { prefix: "Key:" };
    assert_eq!(m.find("Other Key: 1\nKey:2"), Some("2".to_string()));
}

#[test]
fn matcher_empty_value() {
    let m = Matcher::PrefixedVersion { prefix: "Key:" };
    assert_eq!(m.find("Key:   \nKey: 3"), Some(String::new()));
}

#[test]
fn bitness_whitespace_and_garbage() {
    assert_eq!(classify_bitness(" \t64 \r\n"), Bitness::X64);
    assert_eq!(classify_bitness("\u{3000}32\u{a0}"), Bitness::X32);
    assert_eq!(classify_bitness(""), Bitness::Unknown);
    assert_eq!(classify_bitness("6 4"), Bitness::Unknown);
    assert_eq!(classify_bitness("640"), Bitness::Unknown);
    assert_eq!(classify_bitness("32bit"), Bitness::Unknown);
}

#[test]
fn bitness_invalid_utf8() {
    assert_eq!(parse_bitness(vec![0x36, 0x34, 0xff]), Bitness::Unknown);
    assert_eq!(parse_bitness(vec![0xc0, 0xb3, 0x32]), Bitness::Unknown);
    assert_eq!(parse_bitness(vec![0xe3, 0x80, 0x80, 0x36, 0x34]), Bitness::X64);
}

#[test]
fn bitness_when_command_failed() {
    assert_eq!(os_info::macos::bitness(None), Bitness::Unknown);
}

#[test]
fn version_classification() {
    assert_eq!(
        version(parse(sw_vers_output())),
        Version::semantic(10, 10, 5, None)
    );
    assert_eq!(
        version(parse(sw_vers_output_beta())),
        Version::semantic(10, 15, 0, None)
    );
    assert_eq!(
        version(parse("ProductName:\tMac OS X\nProductVersion:\tBeta7\nBuildVersion:\t14F27")),
        Version::custom("Beta7".to_string(), None)
    );
    assert_eq!(version(None), Version::unknown());
}

#[test]
fn product_version_lossy_decoding() {
    let mut bytes = b"ProductName:\t\xff\nProductVersion:\t1.".to_vec();
    bytes.push(0xff);
    assert_eq!(
        product_version(Some(bytes.clone())),
        Some("1.\u{fffd}".to_string())
    );
    assert_eq!(
        version(product_version(Some(bytes))),
        Version::custom("1.\u{fffd}".to_string(), None)
    );
    assert_eq!(product_version(None), None);
}

#[test]
fn probe_without_commands() {
    let info = current_platform(None, None);
    assert_eq!(info.os_type(), Type::Macos);
    assert_eq!(info.version(), &Version::unknown());
    assert_eq!(info.bitness(), Bitness::Unknown);
}

#[test]
fn probe_full_output() {
    let info = current_platform(
        Some(sw_vers_output_double_digit_patch_version().as_bytes().to_vec()),
        Some(b"32\n".to_vec()),
    );
    let expected = Info {
        os_type: Type::Macos,
        version: Version::semantic(10, 15, 21, None),
        bitness: Bitness::X32,
    };
    assert_eq!(info, expected);
}

#[test]
fn probe_repeated_calls_agree() {
    let sw = sw_vers_output_beta().as_bytes().to_vec();
    let first = current_platform(Some(sw.clone()), Some(b"64".to_vec()));
    let second = current_platform(Some(sw), Some(b"64".to_vec()));
    assert_eq!(first, second);
}

#[test]
fn version_ordering() {
    let unknown = Version::unknown();
    let low = Version::semantic(10, 9, 20, None);
    let high = Version::semantic(10, 10, 0, None);
    let custom = Version::custom("Beta7".to_string(), None);
    assert!(unknown < low);
    assert!(low < high);
    assert!(high < custom);
    assert!(Version::custom("A".to_string(), None) < custom);
    assert!(Version::semantic(1, 2, 3, None) < Version::semantic(1, 2, 3, Some("x".to_string())));
}

#[test]
fn version_compare_agrees_with_ord() {
    let versions = vec![
        Version::unknown(),
        Version::semantic(0, 0, 0, None),
        Version::semantic(0, 0, 0, Some(String::new())),
        Version::semantic(0, 0, 0, Some("b".to_string())),
        Version::semantic(0, 0, 1, None),
        Version::semantic(0, 2, 0, None),
        Version::semantic(3, 0, 0, None),
        Version::semantic(u64::MAX, u64::MAX, u64::MAX, None),
        Version::custom(String::new(), None),
        Version::custom("a".to_string(), None),
        Version::custom("ab".to_string(), None),
        Version::custom("ab".to_string(), Some("x".to_string())),
        Version::custom("b".to_string(), None),
        Version::custom("z".to_string(), None),
        Version::custom("\u{e9}".to_string(), None),
        Version::custom("\u{1f600}".to_string(), None),
    ];
    for (i, a) in versions.iter().enumerate() {
        for (j, b) in versions.iter().enumerate() {
            assert_eq!(a.compare(b), i.cmp(&j));
            assert_eq!(a.compare(b), a.cmp(b));
            assert_eq!(a.partial_cmp(b), Some(i.cmp(&j)));
            assert_eq!(a == b, i == j);
        }
    }
}

#[test]
fn compare_text_by_code_point() {
    assert_eq!(compare_text("abc", "abd"), Ordering::Less);
    assert_eq!(compare_text("abc", "ab"), Ordering::Greater);
    assert_eq!(compare_text("", ""), Ordering::Equal);
    assert_eq!(compare_text("\u{ff}", "\u{100}"), Ordering::Less);
    assert_eq!(compare_text("Z", "a"), Ordering::Less);
}
