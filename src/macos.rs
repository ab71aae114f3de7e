//! macOS: the version comes from the output of `sw_vers`, the bitness from
//! the output of `getconf LONG_BIT`. The commands are run by the caller, who
//! hands over what they printed (or `None` where they could not be started).
use vstd::prelude::*;
use vstd::utf8::{valid_utf8, decode_utf8};
use crate::matcher::{Matcher, find_prefixed};
use crate::model::{Bitness, Info, InfoView, Type, Version, VersionView};
use crate::semantic::{parse_semantic_version, semantic_of};
use crate::text::{chars_of, trim, trim_bounds};

verus! {

/// The text that `String::from_utf8_lossy` makes of `b`.
pub uninterp spec fn lossy_text(b: Seq<u8>) -> Seq<char>;

/// Relies on `String::from_utf8_lossy`: the text depends on the bytes alone,
/// and valid UTF-8 is decoded unchanged.
#[verifier::external_body]
fn decode_lossy(bytes: &Vec<u8>) -> (r: String)
    ensures
        r@ == lossy_text(bytes@),
        valid_utf8(bytes@) ==> r@ == decode_utf8(bytes@),
{
    String::from_utf8_lossy(bytes.as_slice()).into_owned()
}

/// Relies on `String::from_utf8`: it succeeds exactly on valid UTF-8, and
/// then holds the decoded characters.
#[verifier::external_body]
fn decode_strict(bytes: Vec<u8>) -> (r: Option<String>)
    ensures
        r is Some <==> valid_utf8(bytes@),
        r is Some ==> r->0@ == decode_utf8(bytes@),
{
    String::from_utf8(bytes).ok()
}

/// The bytes that a command printed, where it ran.
pub open spec fn output_view(stdout: Option<Vec<u8>>) -> Option<Seq<u8>> {
    match stdout {
        Some(b) => Some(b@),
        None => None,
    }
}

/// The version that a product version line gives: `Unknown` where there is
/// none, the numbers where it has the dotted form, else the text as written.
pub open spec fn version_of(product_version: Option<Seq<char>>) -> VersionView {
    match product_version {
        None => VersionView::Unknown,
        Some(s) => match semantic_of(s) {
            Some((major, minor, patch)) => VersionView::Semantic(major, minor, patch, None),
            None => VersionView::Custom(s, None),
        },
    }
}

/// The value of the `ProductVersion:` line of `sw_vers` output.
pub open spec fn product_version_in(text: Seq<char>) -> Option<Seq<char>> {
    find_prefixed(text, "ProductVersion:"@)
}

/// The product version read from what `sw_vers` printed, if it ran.
pub open spec fn product_version_of(sw_vers_stdout: Option<Seq<u8>>) -> Option<Seq<char>> {
    match sw_vers_stdout {
        Some(b) => product_version_in(lossy_text(b)),
        None => None,
    }
}

/// The bitness that a text gives: `32` or `64`, whitespace around it aside.
pub open spec fn bitness_of_text(s: Seq<char>) -> Bitness {
    if trim(s) == seq!['3', '2'] {
        Bitness::X32
    } else if trim(s) == seq!['6', '4'] {
        Bitness::X64
    } else {
        Bitness::Unknown
    }
}

/// The bitness that the bytes printed by `getconf LONG_BIT` give: `Unknown`
/// where they are not UTF-8.
pub open spec fn bitness_of_output(b: Seq<u8>) -> Bitness {
    if valid_utf8(b) {
        bitness_of_text(decode_utf8(b))
    } else {
        Bitness::Unknown
    }
}

/// The bitness found where `getconf` ran, else `Unknown`.
pub open spec fn bitness_of(getconf_stdout: Option<Seq<u8>>) -> Bitness {
    match getconf_stdout {
        Some(b) => bitness_of_output(b),
        None => Bitness::Unknown,
    }
}

/// What a probe reports, given what the two commands printed.
pub open spec fn platform_info(
    sw_vers_stdout: Option<Seq<u8>>,
    getconf_stdout: Option<Seq<u8>>,
) -> InfoView {
    InfoView {
        os_type: Type::Macos,
        version: version_of(product_version_of(sw_vers_stdout)),
        bitness: bitness_of(getconf_stdout),
    }
}

/// Two probes of a host whose commands print the same output both times
/// report equal values.
pub proof fn lemma_probe_repeatable(
    sw_vers_stdout: Option<Seq<u8>>,
    getconf_stdout: Option<Seq<u8>>,
    first: InfoView,
    second: InfoView,
)
    requires
        first == platform_info(sw_vers_stdout, getconf_stdout),
        second == platform_info(sw_vers_stdout, getconf_stdout),
    ensures
        first == second,
{
}

/// Assembles the `Info` of a macOS host from the output of `sw_vers` and of
/// `getconf LONG_BIT` (`None` for a command that could not be started).
/// Never fails: what cannot be read becomes `Unknown` or a custom version.
pub fn current_platform(sw_vers_stdout: Option<Vec<u8>>, getconf_stdout: Option<Vec<u8>>) -> (r:
    Info)
    ensures
        r@ == platform_info(output_view(sw_vers_stdout), output_view(getconf_stdout)),
{
    Info {
        os_type: Type::Macos,
        version: version(product_version(sw_vers_stdout)),
        bitness: bitness(getconf_stdout),
    }
}

/// The version that a product version gives: `Unknown` for `None`, the
/// numbers where it is dotted, else the text kept as a custom version.
pub fn version(product_version: Option<String>) -> (r: Version)
    ensures
        r@ == version_of(product_version.deep_view()),
{
    let version = match product_version {
        None => {
            return Version::unknown();
        },
        Some(val) => val,
    };
    if let Some((major, minor, patch)) = parse_semantic_version(version.as_str()) {
        Version::semantic(major, minor, patch, None)
    } else {
        Version::custom(version, None)
    }
}

/// The product version in what `sw_vers` printed, decoded leniently; `None`
/// where the command did not run or printed no such line.
pub fn product_version(sw_vers_stdout: Option<Vec<u8>>) -> (r: Option<String>)
    ensures
        r.deep_view() == product_version_of(output_view(sw_vers_stdout)),
{
    match sw_vers_stdout {
        Some(bytes) => {
            let output = decode_lossy(&bytes);
            parse(output.as_str())
        },
        None => None,
    }
}

/// The value of the first `ProductVersion:` line of `sw_vers_output`.
pub fn parse(sw_vers_output: &str) -> (r: Option<String>)
    ensures
        r.deep_view() == product_version_in(sw_vers_output@),
{
    Matcher::PrefixedVersion { prefix: "ProductVersion:" }.find(sw_vers_output)
}

/// The bitness found where `getconf` ran, else `Unknown`.
pub fn bitness(getconf_stdout: Option<Vec<u8>>) -> (r: Bitness)
    ensures
        r == bitness_of(output_view(getconf_stdout)),
{
    match getconf_stdout {
        Some(bytes) => parse_bitness(bytes),
        None => Bitness::Unknown,
    }
}

/// The bitness that `getconf LONG_BIT` printed; `Unknown` for anything but
/// `32` or `64`, and for bytes that are not UTF-8.
pub fn parse_bitness(getconf_output: Vec<u8>) -> (r: Bitness)
    ensures
        r == bitness_of_output(getconf_output@),
{
    match decode_strict(getconf_output) {
        Some(output) => classify_bitness(output.as_str()),
        None => Bitness::Unknown,
    }
}

/// The bitness that `text` names: `32` or `64`, whitespace around it aside.
pub fn classify_bitness(text: &str) -> (r: Bitness)
    ensures
        r == bitness_of_text(text@),
{
    let v = chars_of(text);
    let (a, b) = trim_bounds(&v, 0, v.len());
    assert(v@.subrange(0, v@.len() as int) =~= text@);
    let ghost t = v@.subrange(a as int, b as int);
    if b - a == 2 && v[a] == '3' && v[a + 1] == '2' {
        assert(t =~= seq!['3', '2']);
        Bitness::X32
    } else if b - a == 2 && v[a] == '6' && v[a + 1] == '4' {
        assert(t =~= seq!['6', '4']);
        assert(t != seq!['3', '2']);
        Bitness::X64
    } else {
        assert(t.len() != 2 || t[0] != '3' || t[1] != '2');
        assert(t.len() != 2 || t[0] != '6' || t[1] != '4');
        assert(t != seq!['3', '2']);
        assert(t != seq!['6', '4']);
        Bitness::Unknown
    }
}

} // verus!
