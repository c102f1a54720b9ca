//! The manifest tree that the patch server publishes, and the server's
//! availability report.
//!
//! A manifest is a rooted tree. Its inner nodes are directories; its leaves
//! are files and archives. The digests in it are opaque: they are compared
//! byte for byte and never interpreted.

use crate::text::{chars_of, same_text};
use vstd::prelude::*;

verus! {

/// A file leaf: a single path segment and the digest its content must have.
#[derive(Clone, Debug)]
pub struct File {
    pub name: String,
    pub digest: Vec<u8>,
}

/// An archive leaf: a container stored on disk as a `.hed`/`.dat` pair, with
/// the members it must hold.
#[derive(Clone, Debug)]
pub struct Archive {
    pub name: String,
    pub files: Vec<File>,
}

/// A directory with its children in declaration order.
#[derive(Debug)]
pub struct Directory {
    pub name: String,
    pub children: Vec<FSObject>,
}

/// A node of the manifest tree.
#[derive(Debug)]
pub enum FSObject {
    File(File),
    Directory(Directory),
    Archive(Archive),
}

/// What the server says of its own availability.
#[derive(Clone, Copy, Debug, PartialEq, Eq, Structural)]
pub enum ServerStatus {
    Online,
    Maintenance,
}

/// The number of leaves under one node: a file counts once, an archive once
/// for each member.
pub open spec fn count_object(obj: FSObject) -> nat
    decreases obj,
{
    match obj {
        FSObject::File(_) => 1,
        FSObject::Directory(d) => count_leaves(d),
        FSObject::Archive(a) => a.files@.len(),
    }
}

/// The number of leaves under a list of nodes.
pub open spec fn count_children(children: Seq<FSObject>) -> nat
    decreases children,
{
    if children.len() == 0 {
        0
    } else {
        count_children(children.drop_last()) + count_object(children.last())
    }
}

/// The number of leaves under a directory.
pub open spec fn count_leaves(dir: Directory) -> nat
    decreases dir,
{
    count_children(dir.children@)
}

/// Whether `obj` is a directory called `name`.
pub open spec fn is_subdir_named(obj: FSObject, name: Seq<char>) -> bool {
    obj matches FSObject::Directory(d) && d.name@ == name
}

/// The position of the first directory called `name` among `children`, or
/// the length of `children` where there is none.
pub open spec fn subdir_position(children: Seq<FSObject>, name: Seq<char>) -> nat
    decreases children.len(),
{
    if children.len() == 0 {
        0
    } else if is_subdir_named(children[0], name) {
        0
    } else {
        1 + subdir_position(children.drop_first(), name)
    }
}

/// `subdir_position` is the least index of a directory with that name.
pub proof fn lemma_subdir_position(children: Seq<FSObject>, name: Seq<char>)
    ensures
        subdir_position(children, name) <= children.len(),
        forall|j: int|
            0 <= j < subdir_position(children, name) ==> !is_subdir_named(
                #[trigger] children[j],
                name,
            ),
        subdir_position(children, name) < children.len() ==> is_subdir_named(
            children[subdir_position(children, name) as int],
            name,
        ),
    decreases children.len(),
{
    if children.len() > 0 && !is_subdir_named(children[0], name) {
        let rest = children.drop_first();
        lemma_subdir_position(rest, name);
        assert forall|j: int| 0 <= j < subdir_position(children, name) implies !is_subdir_named(
            #[trigger] children[j],
            name,
        ) by {
            if j > 0 {
                assert(children[j] == rest[j - 1]);
            }
        }
        if subdir_position(children, name) < children.len() {
            assert(children[subdir_position(children, name) as int] == rest[subdir_position(
                rest,
                name,
            ) as int]);
        }
    }
}

/// Counting the first `i + 1` children adds the `i`-th child to the count
/// of the first `i`.
pub proof fn lemma_count_step(children: Seq<FSObject>, i: int)
    requires
        0 <= i < children.len(),
    ensures
        count_children(children.take(i + 1)) == count_children(children.take(i)) + count_object(
            children[i],
        ),
{
    assert(children.take(i + 1).drop_last() =~= children.take(i));
}

/// A prefix of the children holds no more leaves than all of them.
pub proof fn lemma_count_prefix(children: Seq<FSObject>, i: int)
    requires
        0 <= i <= children.len(),
    ensures
        count_children(children.take(i)) <= count_children(children),
    decreases children.len() - i,
{
    if i < children.len() {
        lemma_count_step(children, i);
        lemma_count_prefix(children, i + 1);
    } else {
        assert(children.take(i) =~= children);
    }
}

/// The first directory child of `dir` called `name`, if there is one. File
/// and archive children of that name are passed over.
pub fn subdir_by_name<'a>(dir: &'a Directory, name: &str) -> (found: Option<&'a Directory>)
    ensures
        match found {
            Some(d) => {
                &&& subdir_position(dir.children@, name@) < dir.children@.len()
                &&& dir.children@[subdir_position(dir.children@, name@) as int]
                    == FSObject::Directory(*d)
            },
            None => subdir_position(dir.children@, name@) == dir.children@.len(),
        },
{
    let wanted = name.to_owned();
    let mut i: usize = 0;
    proof {
        lemma_subdir_position(dir.children@, name@);
    }
    while i < dir.children.len()
        invariant
            i <= dir.children@.len(),
            wanted@ == name@,
            i <= subdir_position(dir.children@, name@) <= dir.children@.len(),
            forall|j: int|
                0 <= j < subdir_position(dir.children@, name@) ==> !is_subdir_named(
                    #[trigger] dir.children@[j],
                    name@,
                ),
            subdir_position(dir.children@, name@) < dir.children@.len() ==> is_subdir_named(
                dir.children@[subdir_position(dir.children@, name@) as int],
                name@,
            ),
        decreases dir.children@.len() - i,
    {
        if let FSObject::Directory(d) = &dir.children[i] {
            if d.name == wanted {
                assert(is_subdir_named(dir.children@[i as int], name@));
                return Some(d);
            }
        }
        assert(!is_subdir_named(dir.children@[i as int], name@));
        i += 1;
    }
    None
}

/// The number of leaves under `dir`: what a walk of it has to check.
pub fn get_total_files_in_patch(dir: &Directory) -> (total: usize)
    requires
        count_leaves(*dir) <= usize::MAX,
    ensures
        total == count_leaves(*dir),
    decreases *dir,
{
    let mut total: usize = 0;
    let mut i: usize = 0;
    assert(dir.children@.take(0) =~= Seq::<FSObject>::empty());
    while i < dir.children.len()
        invariant
            i <= dir.children@.len(),
            total == count_children(dir.children@.take(i as int)),
            count_children(dir.children@) <= usize::MAX,
        decreases dir.children@.len() - i,
    {
        proof {
            lemma_count_step(dir.children@, i as int);
            lemma_count_prefix(dir.children@, i + 1);
        }
        let leaves = match &dir.children[i] {
            FSObject::File(_) => 1,
            FSObject::Directory(d) => get_total_files_in_patch(d),
            FSObject::Archive(a) => a.files.len(),
        };
        total = total + leaves;
        i += 1;
    }
    assert(dir.children@.take(i as int) =~= dir.children@);
    total
}

/// Whether `name` has a dot at `at` and another right after it.
pub open spec fn dots_at(name: Seq<char>, at: int) -> bool {
    0 <= at && at + 1 < name.len() && name[at] == '.' && name[at + 1] == '.'
}

/// Whether `name` can be a name in a manifest: it is not empty, holds no
/// path separator, and nowhere two dots in a row.
pub open spec fn valid_name(name: Seq<char>) -> bool {
    &&& name.len() > 0
    &&& !name.contains('/')
    &&& !name.contains('\\')
    &&& forall|at: int| !#[trigger] dots_at(name, at)
}

/// The name of a node.
pub open spec fn name_of(obj: FSObject) -> Seq<char> {
    match obj {
        FSObject::File(file) => file.name@,
        FSObject::Directory(dir) => dir.name@,
        FSObject::Archive(archive) => archive.name@,
    }
}

/// Whether no two of `children` have the same name.
pub open spec fn unique_names(children: Seq<FSObject>) -> bool {
    forall|i: int, j: int|
        0 <= i < j < children.len() ==> name_of(#[trigger] children[i]) != name_of(
            #[trigger] children[j],
        )
}

/// Whether every member of an archive has a valid name.
pub open spec fn valid_members(files: Seq<File>) -> bool {
    forall|i: int| 0 <= i < files.len() ==> valid_name((#[trigger] files[i]).name@)
}

/// Whether a node and all that is below it is as a manifest must be: every
/// name is valid, and no directory holds two children of one name.
pub open spec fn well_formed_object(obj: FSObject) -> bool
    decreases obj,
{
    match obj {
        FSObject::File(file) => valid_name(file.name@),
        FSObject::Directory(dir) => valid_name(dir.name@) && well_formed_children(
            dir.children@,
        ),
        FSObject::Archive(archive) => valid_name(archive.name@) && valid_members(
            archive.files@,
        ),
    }
}

/// Whether the children of a directory, and all that is below them, are as
/// a manifest must be.
pub open spec fn well_formed_children(children: Seq<FSObject>) -> bool
    decreases children,
{
    &&& unique_names(children)
    &&& forall|i: int|
        0 <= i < children.len() ==> well_formed_object(#[trigger] children[i])
}

/// Whether `root` is a manifest as the server publishes it: its children
/// are directories, one for each platform, and everything below is well
/// formed.
pub open spec fn well_formed(root: Directory) -> bool {
    &&& well_formed_children(root.children@)
    &&& forall|i: int|
        0 <= i < root.children@.len() ==> (#[trigger] root.children@[i]) is Directory
}

/// Whether `name` can be a name in a manifest.
pub fn is_valid_name(name: &str) -> (valid: bool)
    ensures
        valid == valid_name(name@),
{
    let chars = chars_of(name);
    if chars.len() == 0 {
        return false;
    }
    let mut i: usize = 0;
    while i < chars.len()
        invariant
            i <= chars@.len(),
            chars@ == name@,
            forall|k: int| 0 <= k < i ==> chars@[k] != '/' && chars@[k] != '\\',
            forall|at: int| 0 <= at && at + 1 < i ==> !dots_at(chars@, at),
        decreases chars@.len() - i,
    {
        if chars[i] == '/' || chars[i] == '\\' {
            return false;
        }
        if i > 0 && chars[i - 1] == '.' && chars[i] == '.' {
            assert(dots_at(chars@, i - 1));
            return false;
        }
        i += 1;
    }
    true
}

fn name_text(obj: &FSObject) -> (name: &str)
    ensures
        name@ == name_of(*obj),
{
    match obj {
        FSObject::File(file) => file.name.as_str(),
        FSObject::Directory(dir) => dir.name.as_str(),
        FSObject::Archive(archive) => archive.name.as_str(),
    }
}

fn has_unique_names(children: &Vec<FSObject>) -> (unique: bool)
    ensures
        unique == unique_names(children@),
{
    let mut j: usize = 0;
    while j < children.len()
        invariant
            j <= children@.len(),
            forall|a: int, b: int|
                0 <= a < b < j ==> name_of(#[trigger] children@[a]) != name_of(
                    #[trigger] children@[b],
                ),
        decreases children@.len() - j,
    {
        let mut i: usize = 0;
        while i < j
            invariant
                i <= j < children@.len(),
                forall|a: int|
                    0 <= a < i ==> name_of(#[trigger] children@[a]) != name_of(
                        children@[j as int],
                    ),
            decreases j - i,
        {
            if same_text(name_text(&children[i]), name_text(&children[j])) {
                return false;
            }
            i += 1;
        }
        j += 1;
    }
    true
}

fn has_valid_members(files: &Vec<File>) -> (valid: bool)
    ensures
        valid == valid_members(files@),
{
    let mut i: usize = 0;
    while i < files.len()
        invariant
            i <= files@.len(),
            forall|k: int| 0 <= k < i ==> valid_name((#[trigger] files@[k]).name@),
        decreases files@.len() - i,
    {
        if !is_valid_name(files[i].name.as_str()) {
            return false;
        }
        i += 1;
    }
    true
}

fn is_well_formed_object(obj: &FSObject) -> (formed: bool)
    ensures
        formed == well_formed_object(*obj),
    decreases *obj,
{
    match obj {
        FSObject::File(file) => is_valid_name(file.name.as_str()),
        FSObject::Directory(dir) => is_valid_name(dir.name.as_str())
            && are_well_formed_children(&dir.children),
        FSObject::Archive(archive) => is_valid_name(archive.name.as_str()) && has_valid_members(
            &archive.files,
        ),
    }
}

fn are_well_formed_children(children: &Vec<FSObject>) -> (formed: bool)
    ensures
        formed == well_formed_children(children@),
    decreases *children,
{
    if !has_unique_names(children) {
        return false;
    }
    let mut i: usize = 0;
    while i < children.len()
        invariant
            i <= children@.len(),
            unique_names(children@),
            forall|k: int| 0 <= k < i ==> well_formed_object(#[trigger] children@[k]),
        decreases children@.len() - i,
    {
        if !is_well_formed_object(&children[i]) {
            return false;
        }
        i += 1;
    }
    true
}

/// Whether `root` is a manifest as the server publishes it.
pub fn is_well_formed(root: &Directory) -> (formed: bool)
    ensures
        formed == well_formed(*root),
{
    if !are_well_formed_children(&root.children) {
        return false;
    }
    let mut i: usize = 0;
    while i < root.children.len()
        invariant
            i <= root.children@.len(),
            forall|k: int| 0 <= k < i ==> (#[trigger] root.children@[k]) is Directory,
        decreases root.children@.len() - i,
    {
        match &root.children[i] {
            FSObject::Directory(_) => {},
            _ => {
                return false;
            },
        }
        i += 1;
    }
    true
}

} // verus!
