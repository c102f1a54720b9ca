//! Byte counts for people, and the tag that names a platform.

use crate::text::joined;
use vstd::prelude::*;
use vstd::string::*;

verus! {

/// What `byte_unit` writes for a count of bytes in the binary unit that
/// suits it, such as `1.50 KiB`.
pub uninterp spec fn appropriate_unit_text(bytes: u128) -> Seq<char>;

/// A count of bytes in the binary (1024-based) unit that suits it.
///
/// Not verified: the body asks `byte_unit` for the text, through
/// `Byte::from_bytes`, `Byte::get_appropriate_unit(true)` and the `Display`
/// of the `AdjustedByte` that comes back. The contract only gives that text
/// its name; it depends on the count alone.
#[verifier::external_body]
pub fn byte_string(bytes: u128) -> (text: String)
    ensures
        text@ == appropriate_unit_text(bytes),
{
    byte_unit::Byte::from_bytes(bytes).get_appropriate_unit(true).to_string()
}

/// The tag of a platform: operating system and architecture with a hyphen
/// between them.
pub open spec fn platform_tag(os: Seq<char>, arch: Seq<char>) -> Seq<char> {
    os + seq!['-'] + arch
}

/// The tag of the platform with the given operating system and
/// architecture, such as `windows-x86_64`, `linux-x86` or `macos-aarch64`.
pub fn get_platform(os: &str, arch: &str) -> (tag: String)
    ensures
        tag@ == platform_tag(os@, arch@),
{
    proof {
        reveal_strlit("-");
    }
    let mut tag = joined(os, "-");
    tag.append(arch);
    assert(tag@ =~= platform_tag(os@, arch@));
    tag
}

} // verus!
