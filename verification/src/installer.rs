//! Unpacking the base game: what the members of its ZIP archive add up to,
//! and what is done with each.

use crate::paths::{is_safe_member_path, names_directory, stays_inside, PathStyle};
use vstd::prelude::*;

verus! {

/// What the installer reads of one member of the base game's archive.
#[derive(Clone, Debug)]
pub struct ZipEntry {
    /// The member's path as the archive records it.
    pub name: String,
    /// Its size once unpacked, in bytes.
    pub size: u64,
    /// Its Unix mode, where the archive records one.
    pub unix_mode: Option<u32>,
}

/// What is done with a member.
#[derive(Clone, Copy, Debug, PartialEq, Eq, Structural)]
pub enum Extraction {
    /// Its path leads out of the install directory: it is refused.
    Refuse,
    /// It stands for a directory, which is created with all its parents.
    Directory,
    /// It is a regular file: its parent directories are created, then its
    /// content is written.
    RegularFile,
}

/// What is done with a member called `name` on a host that reads paths in
/// the given style.
pub open spec fn extraction_of(name: Seq<char>, style: PathStyle) -> Extraction {
    if !stays_inside(name, style) {
        Extraction::Refuse
    } else if name.len() > 0 && name.last() == '/' {
        Extraction::Directory
    } else {
        Extraction::RegularFile
    }
}

/// The unpacked sizes of `members`, added up.
pub open spec fn sizes_sum(members: Seq<ZipEntry>) -> nat
    decreases members.len(),
{
    if members.len() == 0 {
        0
    } else {
        sizes_sum(members.drop_last()) + members.last().size as nat
    }
}

/// The first `i + 1` members add the size of the `i`-th to the sum of the
/// first `i`.
pub proof fn lemma_sizes_step(members: Seq<ZipEntry>, i: int)
    requires
        0 <= i < members.len(),
    ensures
        sizes_sum(members.take(i + 1)) == sizes_sum(members.take(i)) + members[i].size,
{
    assert(members.take(i + 1).drop_last() =~= members.take(i));
}

/// The sizes of a prefix add up to no more than the sizes of all.
pub proof fn lemma_sizes_prefix(members: Seq<ZipEntry>, i: int)
    requires
        0 <= i <= members.len(),
    ensures
        sizes_sum(members.take(i)) <= sizes_sum(members),
    decreases members.len() - i,
{
    if i < members.len() {
        lemma_sizes_step(members, i);
        lemma_sizes_prefix(members, i + 1);
    } else {
        assert(members.take(i) =~= members);
    }
}

/// As many sizes as a list can hold add up to less than 2^128.
pub proof fn lemma_sizes_fit(members: Seq<ZipEntry>)
    ensures
        sizes_sum(members) <= members.len() * u64::MAX,
    decreases members.len(),
{
    if members.len() > 0 {
        lemma_sizes_fit(members.drop_last());
        assert((members.len() - 1) * u64::MAX + u64::MAX == members.len() * u64::MAX)
            by (nonlinear_arith);
    }
}

/// The number of bytes that unpacking `members` writes: their unpacked
/// sizes, added up.
pub fn total_size(members: &Vec<ZipEntry>) -> (total: u128)
    ensures
        total == sizes_sum(members@),
{
    let mut total: u128 = 0;
    let mut i: usize = 0;
    assert(members@.take(0) =~= Seq::<ZipEntry>::empty());
    while i < members.len()
        invariant
            i <= members@.len(),
            total == sizes_sum(members@.take(i as int)),
        decreases members@.len() - i,
    {
        proof {
            lemma_sizes_step(members@, i as int);
            lemma_sizes_fit(members@.take(i + 1));
            assert((i + 1) * u64::MAX <= usize::MAX * u64::MAX) by (nonlinear_arith)
                requires
                    i + 1 <= usize::MAX,
            ;
            assert(usize::MAX * u64::MAX <= u64::MAX * u64::MAX) by (nonlinear_arith)
                requires
                    usize::MAX <= u64::MAX,
            ;
            assert(u64::MAX * u64::MAX < u128::MAX) by (nonlinear_arith);
        }
        total = total + members[i].size as u128;
        i += 1;
    }
    assert(members@.take(i as int) =~= members@);
    total
}

/// Decides what is done with `member` on a host that reads paths in the
/// given style: a path that leads out of the install directory is refused,
/// a path that ends in a slash names a directory, anything else is a
/// regular file.
pub fn extraction(member: &ZipEntry, style: PathStyle) -> (what: Extraction)
    ensures
        what == extraction_of(member.name@, style),
{
    if !is_safe_member_path(member.name.as_str(), style) {
        Extraction::Refuse
    } else if names_directory(member.name.as_str()) {
        Extraction::Directory
    } else {
        Extraction::RegularFile
    }
}

} // verus!
