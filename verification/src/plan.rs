//! The order of work that a manifest subtree asks for.
//!
//! A walk visits a directory's children in the order in which the manifest
//! declares them, and goes all the way down into each before it turns to
//! the next. [`check_patches_dir`] writes that order down once, as a list of
//! entries, so that the worker can go through it one step at a time. Each
//! entry carries the place on disk and the URL that belong to it.

use crate::manifest::{Archive, Directory, FSObject, File};
use crate::manifest::{count_children, count_object, dots_at, name_of, valid_name};
use crate::manifest::{well_formed_children, well_formed_object};
use crate::text::{joined, same_text};
use crate::url::{resolve, resolved, text_of};
use vstd::prelude::*;
use vstd::string::*;

verus! {

/// One step of a walk.
#[derive(Debug)]
pub enum Entry {
    /// A directory is entered. Its URL is missing where it does not resolve;
    /// the walk then ends here.
    Enter { url: Option<String> },
    /// A file is checked: where it lies below the install directory, segment
    /// by segment, where it comes from, the digest it must have, and whether
    /// it is the running binary.
    File { path: Vec<String>, url: Option<String>, digest: Vec<u8>, is_self: bool },
    /// An archive is opened: its name, the two files that hold it, and the
    /// URL below which its members lie.
    Open { name: String, hed: Vec<String>, dat: Vec<String>, url: Option<String> },
    /// A member of the open archive is checked.
    Member { name: String, url: Option<String>, digest: Vec<u8> },
    /// The open archive is closed, and written out if it was changed.
    Close,
}

/// An [`Entry`] with its texts as sequences.
pub enum EntryView {
    Enter { url: Option<Seq<char>> },
    File { path: Seq<Seq<char>>, url: Option<Seq<char>>, digest: Seq<u8>, is_self: bool },
    Open { name: Seq<char>, hed: Seq<Seq<char>>, dat: Seq<Seq<char>>, url: Option<Seq<char>> },
    Member { name: Seq<char>, url: Option<Seq<char>>, digest: Seq<u8> },
    Close,
}

/// The texts of a list of strings.
pub open spec fn texts(names: Seq<String>) -> Seq<Seq<char>> {
    Seq::new(names.len(), |i: int| names[i]@)
}

impl View for Entry {
    type V = EntryView;

    open spec fn view(&self) -> EntryView {
        match self {
            Entry::Enter { url } => EntryView::Enter { url: text_of(*url) },
            Entry::File { path, url, digest, is_self } => EntryView::File {
                path: texts(path@),
                url: text_of(*url),
                digest: digest@,
                is_self: *is_self,
            },
            Entry::Open { name, hed, dat, url } => EntryView::Open {
                name: name@,
                hed: texts(hed@),
                dat: texts(dat@),
                url: text_of(*url),
            },
            Entry::Member { name, url, digest } => EntryView::Member {
                name: name@,
                url: text_of(*url),
                digest: digest@,
            },
            Entry::Close => EntryView::Close,
        }
    }
}

/// The views of a list of entries.
pub open spec fn views(entries: Seq<Entry>) -> Seq<EntryView> {
    Seq::new(entries.len(), |i: int| entries[i]@)
}

/// The entry for a file declared in the directory `dirs`, whose URL is
/// `url`, when the running binary is called `exe`. The file is the running
/// binary where it lies in the install directory itself under that name.
pub open spec fn file_entry(
    file: File,
    dirs: Seq<Seq<char>>,
    url: Option<Seq<char>>,
    exe: Seq<char>,
) -> EntryView {
    EntryView::File {
        path: dirs.push(file.name@),
        url: resolved(url, file.name@),
        digest: file.digest@,
        is_self: dirs.len() == 0 && file.name@ == exe,
    }
}

/// The URL below which the members of the archive `name` lie.
pub open spec fn archive_url(url: Option<Seq<char>>, name: Seq<char>) -> Option<Seq<char>> {
    resolved(url, name + ".archive/"@)
}

/// The entries for the members of an archive, in declared order.
pub open spec fn member_entries(files: Seq<File>, url: Option<Seq<char>>) -> Seq<EntryView> {
    Seq::new(
        files.len(),
        |i: int|
            EntryView::Member {
                name: files[i].name@,
                url: resolved(url, files[i].name@),
                digest: files[i].digest@,
            },
    )
}

/// The entries for an archive: it is opened, its members are checked in
/// declared order, it is closed.
pub open spec fn archive_entries(archive: Archive, dirs: Seq<Seq<char>>, url: Option<Seq<char>>)
    -> Seq<EntryView> {
    seq![
        EntryView::Open {
            name: archive.name@,
            hed: dirs.push(archive.name@ + ".hed"@),
            dat: dirs.push(archive.name@ + ".dat"@),
            url: archive_url(url, archive.name@),
        },
    ] + member_entries(archive.files@, archive_url(url, archive.name@)) + seq![EntryView::Close]
}

/// The entries for one node of the tree.
pub open spec fn object_entries(
    obj: FSObject,
    dirs: Seq<Seq<char>>,
    url: Option<Seq<char>>,
    exe: Seq<char>,
) -> Seq<EntryView>
    decreases obj,
{
    match obj {
        FSObject::File(file) => seq![file_entry(file, dirs, url, exe)],
        FSObject::Directory(dir) => seq![EntryView::Enter { url: resolved(url, dir.name@ + "/"@) }]
            + children_entries(
            dir.children@,
            dirs.push(dir.name@),
            resolved(url, dir.name@ + "/"@),
            exe,
        ),
        FSObject::Archive(archive) => archive_entries(archive, dirs, url),
    }
}

/// The entries for a list of nodes: those of the first node, then those of
/// the second, and so on.
pub open spec fn children_entries(
    children: Seq<FSObject>,
    dirs: Seq<Seq<char>>,
    url: Option<Seq<char>>,
    exe: Seq<char>,
) -> Seq<EntryView>
    decreases children,
{
    if children.len() == 0 {
        Seq::empty()
    } else {
        children_entries(children.drop_last(), dirs, url, exe) + object_entries(
            children.last(),
            dirs,
            url,
            exe,
        )
    }
}

/// Whether an entry is a leaf: a file or a member of an archive.
pub open spec fn is_leaf(entry: EntryView) -> bool {
    entry is File || entry is Member
}

/// The number of leaves among `entries`.
pub open spec fn leaves(entries: Seq<EntryView>) -> nat
    decreases entries.len(),
{
    if entries.len() == 0 {
        0
    } else {
        leaves(entries.drop_last()) + if is_leaf(entries.last()) {
            1nat
        } else {
            0nat
        }
    }
}

/// The leaves of two lists in a row are those of the one and those of the
/// other.
pub proof fn lemma_leaves_add(a: Seq<EntryView>, b: Seq<EntryView>)
    ensures
        leaves(a + b) == leaves(a) + leaves(b),
    decreases b.len(),
{
    if b.len() == 0 {
        assert(a + b =~= a);
    } else {
        assert((a + b).drop_last() =~= a + b.drop_last());
        assert((a + b).last() == b.last());
        lemma_leaves_add(a, b.drop_last());
    }
}

/// No list holds more leaves than entries.
pub proof fn lemma_leaves_bound(entries: Seq<EntryView>)
    ensures
        leaves(entries) <= entries.len(),
    decreases entries.len(),
{
    if entries.len() > 0 {
        lemma_leaves_bound(entries.drop_last());
    }
}

/// The first `i + 1` entries hold the leaves of the first `i`, and one more
/// where the `i`-th is a leaf.
pub proof fn lemma_leaves_step(entries: Seq<EntryView>, i: int)
    requires
        0 <= i < entries.len(),
    ensures
        leaves(entries.take(i + 1)) == leaves(entries.take(i)) + if is_leaf(entries[i]) {
            1nat
        } else {
            0nat
        },
{
    assert(entries.take(i + 1).drop_last() =~= entries.take(i));
}

/// A prefix holds no more leaves than the whole list.
pub proof fn lemma_leaves_prefix(entries: Seq<EntryView>, i: int)
    requires
        0 <= i <= entries.len(),
    ensures
        leaves(entries.take(i)) <= leaves(entries),
    decreases entries.len() - i,
{
    if i < entries.len() {
        lemma_leaves_step(entries, i);
        lemma_leaves_prefix(entries, i + 1);
    } else {
        assert(entries.take(i) =~= entries);
    }
}

proof fn lemma_member_leaves(files: Seq<File>, url: Option<Seq<char>>)
    ensures
        leaves(member_entries(files, url)) == files.len(),
    decreases files.len(),
{
    if files.len() > 0 {
        assert(member_entries(files, url).drop_last() =~= member_entries(files.drop_last(), url));
        lemma_member_leaves(files.drop_last(), url);
    }
}

/// A walk has as many leaf entries as its subtree has leaves: one for each
/// file, one for each member of each archive.
pub proof fn lemma_entries_count(
    children: Seq<FSObject>,
    dirs: Seq<Seq<char>>,
    url: Option<Seq<char>>,
    exe: Seq<char>,
)
    ensures
        leaves(children_entries(children, dirs, url, exe)) == count_children(children),
    decreases children,
{
    if children.len() > 0 {
        let front = children.drop_last();
        let obj = children.last();
        lemma_entries_count(front, dirs, url, exe);
        lemma_leaves_add(
            children_entries(front, dirs, url, exe),
            object_entries(obj, dirs, url, exe),
        );
        assert(count_children(children) == count_children(front) + count_object(obj));
        assert(leaves(children_entries(children, dirs, url, exe)) == leaves(
            children_entries(front, dirs, url, exe),
        ) + leaves(object_entries(obj, dirs, url, exe)));
        match obj {
            FSObject::File(file) => {
                let one = seq![file_entry(file, dirs, url, exe)];
                assert(one.drop_last() =~= Seq::<EntryView>::empty());
                assert(leaves(one.drop_last()) == 0);
                assert(leaves(one) == 1);
                assert(object_entries(obj, dirs, url, exe) == one);
            },
            FSObject::Directory(dir) => {
                let inner = resolved(url, dir.name@ + "/"@);
                let enter = seq![EntryView::Enter { url: inner }];
                assert(enter.drop_last() =~= Seq::<EntryView>::empty());
                assert(leaves(enter.drop_last()) == 0);
                lemma_entries_count(dir.children@, dirs.push(dir.name@), inner, exe);
                lemma_leaves_add(
                    enter,
                    children_entries(dir.children@, dirs.push(dir.name@), inner, exe),
                );
                assert(leaves(enter) == 0);
                assert(object_entries(obj, dirs, url, exe) == enter + children_entries(
                    dir.children@,
                    dirs.push(dir.name@),
                    inner,
                    exe,
                ));
                assert(count_object(obj) == count_children(dir.children@));
            },
            FSObject::Archive(archive) => {
                let inner = archive_url(url, archive.name@);
                let open = seq![
                    EntryView::Open {
                        name: archive.name@,
                        hed: dirs.push(archive.name@ + ".hed"@),
                        dat: dirs.push(archive.name@ + ".dat"@),
                        url: inner,
                    },
                ];
                let close = seq![EntryView::Close];
                assert(open.drop_last() =~= Seq::<EntryView>::empty());
                assert(close.drop_last() =~= Seq::<EntryView>::empty());
                assert(leaves(open.drop_last()) == 0);
                assert(leaves(close.drop_last()) == 0);
                lemma_member_leaves(archive.files@, inner);
                lemma_leaves_add(open, member_entries(archive.files@, inner));
                lemma_leaves_add(open + member_entries(archive.files@, inner), close);
                assert(leaves(open) == 0);
                assert(leaves(close) == 0);
                assert(object_entries(obj, dirs, url, exe) == open + member_entries(
                    archive.files@,
                    inner,
                ) + close);
            },
        }
    }
}

/// The texts of a list with one more string are the texts of the list with
/// one more text.
pub proof fn lemma_texts_push(names: Seq<String>, last: String)
    ensures
        texts(names.push(last)) == texts(names).push(last@),
{
    assert(texts(names.push(last)) =~= texts(names).push(last@));
}

/// The views of a list with one more entry are the views of the list with
/// one more view.
pub proof fn lemma_views_push(entries: Seq<Entry>, last: Entry)
    ensures
        views(entries.push(last)) == views(entries).push(last@),
{
    assert(views(entries.push(last)) =~= views(entries).push(last@));
}

fn copy_names(names: &Vec<String>) -> (copy: Vec<String>)
    ensures
        texts(copy@) == texts(names@),
{
    let mut copy: Vec<String> = Vec::new();
    let mut i: usize = 0;
    while i < names.len()
        invariant
            i <= names@.len(),
            texts(copy@) == texts(names@.take(i as int)),
        decreases names@.len() - i,
    {
        let ghost copied = copy@;
        let name = names[i].clone();
        copy.push(name);
        proof {
            lemma_texts_push(copied, name);
            lemma_texts_push(names@.take(i as int), names@[i as int]);
            assert(names@.take(i + 1) =~= names@.take(i as int).push(names@[i as int]));
        }
        i += 1;
    }
    assert(names@.take(i as int) =~= names@);
    copy
}

fn with_name(names: &Vec<String>, last: String) -> (longer: Vec<String>)
    ensures
        texts(longer@) == texts(names@).push(last@),
{
    let mut longer = copy_names(names);
    proof {
        lemma_texts_push(longer@, last);
    }
    longer.push(last);
    longer
}

fn copy_url(url: &Option<String>) -> (copy: Option<String>)
    ensures
        text_of(copy) == text_of(*url),
{
    match url {
        Some(url) => Some(url.clone()),
        None => None,
    }
}

fn copy_bytes(bytes: &Vec<u8>) -> (copy: Vec<u8>)
    ensures
        copy@ == bytes@,
{
    let mut copy: Vec<u8> = Vec::new();
    let mut i: usize = 0;
    while i < bytes.len()
        invariant
            i <= bytes@.len(),
            copy@ == bytes@.take(i as int),
        decreases bytes@.len() - i,
    {
        copy.push(bytes[i]);
        assert(copy@ =~= bytes@.take(i + 1));
        i += 1;
    }
    assert(bytes@.take(i as int) =~= bytes@);
    copy
}

/// Writes down the steps for one archive: it is opened under the two files
/// `<name>.hed` and `<name>.dat` in `dirs`, its members are checked in
/// declared order against what lies below `<name>.archive/`, and it is
/// closed.
fn lay_out_archive(
    archive: &Archive,
    dirs: &Vec<String>,
    url: &Option<String>,
    plan: &mut Vec<Entry>,
)
    ensures
        views(final(plan)@) == views(old(plan)@) + archive_entries(
            *archive,
            texts(dirs@),
            text_of(*url),
        ),
{
    let ghost before = views(plan@);
    let ghost inner = archive_url(text_of(*url), archive.name@);
    let inner_url = resolve(url, joined(archive.name.as_str(), ".archive/").as_str());
    let hed = with_name(dirs, joined(archive.name.as_str(), ".hed"));
    let dat = with_name(dirs, joined(archive.name.as_str(), ".dat"));
    let open = Entry::Open { name: archive.name.clone(), hed, dat, url: copy_url(&inner_url) };
    proof {
        lemma_views_push(plan@, open);
    }
    plan.push(open);
    let ghost opened = views(plan@);
    assert(views(plan@) =~= opened + member_entries(archive.files@.take(0), inner));
    let mut i: usize = 0;
    while i < archive.files.len()
        invariant
            i <= archive.files@.len(),
            text_of(inner_url) == inner,
            views(plan@) == opened + member_entries(archive.files@.take(i as int), inner),
        decreases archive.files@.len() - i,
    {
        let file = &archive.files[i];
        let member = Entry::Member {
            name: file.name.clone(),
            url: resolve(&inner_url, file.name.as_str()),
            digest: copy_bytes(&file.digest),
        };
        proof {
            lemma_views_push(plan@, member);
        }
        plan.push(member);
        assert(views(plan@) =~= opened + member_entries(archive.files@.take(i + 1), inner));
        i += 1;
    }
    assert(archive.files@.take(i as int) =~= archive.files@);
    proof {
        lemma_views_push(plan@, Entry::Close);
    }
    plan.push(Entry::Close);
    assert(opened =~= before + seq![open@]);
    assert(views(plan@) =~= before + archive_entries(*archive, texts(dirs@), text_of(*url)));
}

/// Writes down the steps for one file of the directory `dirs`.
fn lay_out_file(
    file: &File,
    dirs: &Vec<String>,
    url: &Option<String>,
    exe: &str,
    plan: &mut Vec<Entry>,
)
    ensures
        views(final(plan)@) == views(old(plan)@).push(
            file_entry(*file, texts(dirs@), text_of(*url), exe@),
        ),
{
    let is_self = dirs.len() == 0 && same_text(file.name.as_str(), exe);
    let entry = Entry::File {
        path: with_name(dirs, file.name.clone()),
        url: resolve(url, file.name.as_str()),
        digest: copy_bytes(&file.digest),
        is_self,
    };
    proof {
        lemma_views_push(plan@, entry);
    }
    plan.push(entry);
}

/// Writes down the steps of a walk through `dir`, which lies at `dirs`
/// below the install directory and at `url` on the server: the children in
/// declared order, each with everything below it before the next.
pub fn check_patches_dir(
    dir: &Directory,
    dirs: &Vec<String>,
    url: &Option<String>,
    exe: &str,
    plan: &mut Vec<Entry>,
)
    ensures
        views(final(plan)@) == views(old(plan)@) + children_entries(
            dir.children@,
            texts(dirs@),
            text_of(*url),
            exe@,
        ),
    decreases *dir,
{
    let ghost before = views(plan@);
    let mut i: usize = 0;
    assert(dir.children@.take(0) =~= Seq::<FSObject>::empty());
    assert(views(plan@) =~= before + Seq::<EntryView>::empty());
    while i < dir.children.len()
        invariant
            i <= dir.children@.len(),
            views(plan@) == before + children_entries(
                dir.children@.take(i as int),
                texts(dirs@),
                text_of(*url),
                exe@,
            ),
        decreases dir.children@.len() - i,
    {
        let ghost so_far = views(plan@);
        let ghost done = children_entries(
            dir.children@.take(i as int),
            texts(dirs@),
            text_of(*url),
            exe@,
        );
        assert(dir.children@.take(i + 1).drop_last() =~= dir.children@.take(i as int));
        assert(dir.children@.take(i + 1).last() == dir.children@[i as int]);
        match &dir.children[i] {
            FSObject::File(file) => {
                lay_out_file(file, dirs, url, exe, plan);
                assert(views(plan@) =~= so_far + seq![
                    file_entry(*file, texts(dirs@), text_of(*url), exe@),
                ]);
            },
            FSObject::Directory(child) => {
                let inner_url = resolve(url, joined(child.name.as_str(), "/").as_str());
                let inner_dirs = with_name(dirs, child.name.clone());
                let enter = Entry::Enter { url: copy_url(&inner_url) };
                proof {
                    lemma_views_push(plan@, enter);
                }
                plan.push(enter);
                assert(views(plan@) =~= so_far + seq![
                    EntryView::Enter { url: text_of(inner_url) },
                ]);
                check_patches_dir(child, &inner_dirs, &inner_url, exe, plan);
            },
            FSObject::Archive(archive) => {
                lay_out_archive(archive, dirs, url, plan);
            },
        }
        assert(views(plan@) =~= before + (done + object_entries(
            dir.children@[i as int],
            texts(dirs@),
            text_of(*url),
            exe@,
        )));
        i += 1;
    }
    assert(dir.children@.take(i as int) =~= dir.children@);
}

/// Whether the entries from `open` to `close` are those of one archive: it
/// is opened, its members follow, it is closed.
pub open spec fn archive_at(plan: Seq<EntryView>, open: int, close: int) -> bool {
    &&& 0 <= open < close < plan.len()
    &&& plan[open] is Open
    &&& plan[close] is Close
    &&& forall|j: int| open < j < close ==> (#[trigger] plan[j]) is Member
}

/// Whether every archive of a walk has its entries in a row: wherever an
/// archive is opened, its members follow and then it is closed.
pub open spec fn archives_in_a_row(plan: Seq<EntryView>) -> bool {
    forall|open: int|
        0 <= open < plan.len() && (#[trigger] plan[open]) is Open ==> exists|close: int|
            archive_at(plan, open, close)
}

/// An archive of a list is an archive of the list with more entries after
/// it.
proof fn lemma_archive_stays(front: Seq<EntryView>, back: Seq<EntryView>, open: int, close: int)
    requires
        archive_at(front, open, close),
    ensures
        archive_at(front + back, open, close),
{
    assert forall|j: int| open < j < close implies (#[trigger] (front + back)[j]) is Member by {
        assert(front[j] is Member);
    }
}

/// An archive of a list is an archive of the list with more entries before
/// it, further on by as many places.
proof fn lemma_archive_moves(front: Seq<EntryView>, back: Seq<EntryView>, open: int, close: int)
    requires
        archive_at(back, open, close),
    ensures
        archive_at(front + back, front.len() + open, front.len() + close),
{
    let whole = front + back;
    assert forall|j: int| front.len() + open < j < front.len() + close implies (
    #[trigger] whole[j]) is Member by {
        assert(back[j - front.len()] is Member);
    }
}

/// Where two lists have their archives in a row, so has the one followed
/// by the other.
proof fn lemma_rows_add(front: Seq<EntryView>, back: Seq<EntryView>)
    requires
        archives_in_a_row(front),
        archives_in_a_row(back),
    ensures
        archives_in_a_row(front + back),
{
    let whole = front + back;
    assert forall|open: int| 0 <= open < whole.len() && (#[trigger] whole[open]) is Open implies
        exists|close: int| archive_at(whole, open, close) by {
        if open < front.len() {
            assert(front[open] is Open);
            let close = choose|close: int| archive_at(front, open, close);
            lemma_archive_stays(front, back, open, close);
        } else {
            let inner = open - front.len();
            assert(back[inner] is Open);
            let close = choose|close: int| archive_at(back, inner, close);
            lemma_archive_moves(front, back, inner, close);
            assert(archive_at(whole, open, front.len() + close));
        }
    }
}

/// The entries of an archive are an archive.
proof fn lemma_archive_row(archive: Archive, dirs: Seq<Seq<char>>, url: Option<Seq<char>>)
    ensures
        archives_in_a_row(archive_entries(archive, dirs, url)),
{
    let entries = archive_entries(archive, dirs, url);
    let close = archive.files@.len() + 1;
    assert(entries.len() == close + 1);
    assert(entries[0] is Open);
    assert(entries[close as int] is Close);
    assert forall|j: int| 0 < j < close implies (#[trigger] entries[j]) is Member by {
        assert(entries[j] == member_entries(archive.files@, archive_url(url, archive.name@))[j
            - 1]);
    }
    assert(archive_at(entries, 0, close as int));
    assert forall|open: int| 0 <= open < entries.len() && (#[trigger] entries[open]) is Open implies
        exists|close: int| archive_at(entries, open, close) by {
        if open != 0 {
            if open < close {
                assert(entries[open] is Member);
            }
        }
    }
}

/// Every archive of a walk has its entries in a row.
pub proof fn lemma_entries_rows(
    children: Seq<FSObject>,
    dirs: Seq<Seq<char>>,
    url: Option<Seq<char>>,
    exe: Seq<char>,
)
    ensures
        archives_in_a_row(children_entries(children, dirs, url, exe)),
    decreases children,
{
    if children.len() > 0 {
        let front = children.drop_last();
        let obj = children.last();
        lemma_entries_rows(front, dirs, url, exe);
        match obj {
            FSObject::File(file) => {
                let one = seq![file_entry(file, dirs, url, exe)];
                assert(one[0] is File);
                assert(archives_in_a_row(one));
            },
            FSObject::Directory(dir) => {
                let inner = resolved(url, dir.name@ + "/"@);
                let enter = seq![EntryView::Enter { url: inner }];
                assert(enter[0] is Enter);
                assert(archives_in_a_row(enter));
                lemma_entries_rows(dir.children@, dirs.push(dir.name@), inner, exe);
                lemma_rows_add(
                    enter,
                    children_entries(dir.children@, dirs.push(dir.name@), inner, exe),
                );
            },
            FSObject::Archive(archive) => {
                lemma_archive_row(archive, dirs, url);
            },
        }
        lemma_rows_add(
            children_entries(front, dirs, url, exe),
            object_entries(obj, dirs, url, exe),
        );
    }
}

/// Whether an entry belongs to an archive that is open: a member, or the
/// entry that closes the archive.
pub open spec fn in_archive(entry: EntryView) -> bool {
    entry is Member || entry is Close
}

/// Whether the archive that was opened at `open` is still open at `at`:
/// nothing but its members lies between.
pub open spec fn open_since(plan: Seq<EntryView>, open: int, at: int) -> bool {
    &&& 0 <= open < at <= plan.len()
    &&& plan[open] is Open
    &&& forall|j: int| open < j < at ==> (#[trigger] plan[j]) is Member
}

/// Whether every member and every closing entry of a walk stands right
/// after the entry that opens its archive or after another member.
#[verifier::opaque]
pub open spec fn members_follow(plan: Seq<EntryView>) -> bool {
    forall|j: int|
        0 <= j < plan.len() && in_archive(#[trigger] plan[j]) ==> j >= 1 && (plan[j - 1] is Open
            || plan[j - 1] is Member)
}

/// What stands before a member or a closing entry: the entry that opens
/// its archive, or a member. The first entry of a walk is neither.
pub proof fn lemma_follows(plan: Seq<EntryView>, at: int)
    requires
        members_follow(plan),
        0 <= at < plan.len(),
        in_archive(plan[at]),
    ensures
        at >= 1,
        plan[at - 1] is Open || plan[at - 1] is Member,
{
    reveal(members_follow);
}

proof fn lemma_follow_add(front: Seq<EntryView>, back: Seq<EntryView>)
    requires
        members_follow(front),
        members_follow(back),
    ensures
        members_follow(front + back),
{
    reveal(members_follow);
    let whole = front + back;
    assert forall|j: int| 0 <= j < whole.len() && in_archive(#[trigger] whole[j]) implies j >= 1
        && (whole[j - 1] is Open || whole[j - 1] is Member) by {
        if j < front.len() {
            assert(in_archive(front[j]));
            assert(whole[j - 1] == front[j - 1]);
        } else {
            let k = j - front.len();
            assert(in_archive(back[k]));
            assert(whole[j - 1] == back[k - 1]);
        }
    }
}

/// In every walk the members of an archive and the entry that closes it
/// follow the entry that opens it, one after the other.
pub proof fn lemma_entries_follow(
    children: Seq<FSObject>,
    dirs: Seq<Seq<char>>,
    url: Option<Seq<char>>,
    exe: Seq<char>,
)
    ensures
        members_follow(children_entries(children, dirs, url, exe)),
    decreases children,
{
    reveal(members_follow);
    if children.len() > 0 {
        let front = children.drop_last();
        let obj = children.last();
        lemma_entries_follow(front, dirs, url, exe);
        match obj {
            FSObject::File(file) => {
                let one = seq![file_entry(file, dirs, url, exe)];
                assert(one[0] is File);
                assert(members_follow(one));
            },
            FSObject::Directory(dir) => {
                let inner = resolved(url, dir.name@ + "/"@);
                let enter = seq![EntryView::Enter { url: inner }];
                assert(enter[0] is Enter);
                assert(members_follow(enter));
                lemma_entries_follow(dir.children@, dirs.push(dir.name@), inner, exe);
                lemma_follow_add(
                    enter,
                    children_entries(dir.children@, dirs.push(dir.name@), inner, exe),
                );
            },
            FSObject::Archive(archive) => {
                let entries = archive_entries(archive, dirs, url);
                let close = archive.files@.len() + 1;
                assert(entries.len() == close + 1);
                assert(entries[0] is Open);
                assert forall|j: int| 0 < j < close implies (#[trigger] entries[j]) is Member by {
                    assert(entries[j] == member_entries(
                        archive.files@,
                        archive_url(url, archive.name@),
                    )[j - 1]);
                }
                assert forall|j: int|
                    0 <= j < entries.len() && in_archive(#[trigger] entries[j]) implies j >= 1 && (
                    entries[j - 1] is Open || entries[j - 1] is Member) by {
                    if j >= 2 {
                        assert(entries[j - 1] is Member);
                    }
                }
            },
        }
        lemma_follow_add(
            children_entries(front, dirs, url, exe),
            object_entries(obj, dirs, url, exe),
        );
    }
}

/// Whether `segment` can stand in a path below the install directory: it
/// is not empty, holds no separator, and is not the way up.
pub open spec fn safe_segment(segment: Seq<char>) -> bool {
    &&& segment.len() > 0
    &&& !segment.contains('/')
    &&& !segment.contains('\\')
    &&& segment != seq!['.', '.']
}

/// Whether every segment of `path` can stand in a path below the install
/// directory.
pub open spec fn safe_path(path: Seq<Seq<char>>) -> bool {
    forall|i: int| 0 <= i < path.len() ==> safe_segment(#[trigger] path[i])
}

/// Whether the files that an entry names lie below the install directory.
pub open spec fn in_place(entry: EntryView) -> bool {
    match entry {
        EntryView::File { path, .. } => safe_path(path),
        EntryView::Open { hed, dat, .. } => safe_path(hed) && safe_path(dat),
        _ => true,
    }
}

/// Whether all files that a walk names lie below the install directory.
pub open spec fn all_in_place(plan: Seq<EntryView>) -> bool {
    forall|k: int| 0 <= k < plan.len() ==> in_place(#[trigger] plan[k])
}

/// A valid name is a safe segment.
proof fn lemma_valid_is_safe(name: Seq<char>)
    requires
        valid_name(name),
    ensures
        safe_segment(name),
{
    if name == seq!['.', '.'] {
        assert(dots_at(name, 0));
    }
}

/// A valid name with an extension of letters is a safe segment.
proof fn lemma_extended_is_safe(name: Seq<char>, extension: Seq<char>)
    requires
        valid_name(name),
        extension.len() == 4,
        !extension.contains('/'),
        !extension.contains('\\'),
    ensures
        safe_segment(name + extension),
{
    let whole = name + extension;
    assert(whole.len() >= 5);
    if whole.contains('/') {
        let i = choose|i: int| 0 <= i < whole.len() && whole[i] == '/';
        if i < name.len() {
            assert(name[i] == '/');
        } else {
            assert(extension[i - name.len()] == '/');
        }
    }
    if whole.contains('\\') {
        let i = choose|i: int| 0 <= i < whole.len() && whole[i] == '\\';
        if i < name.len() {
            assert(name[i] == '\\');
        } else {
            assert(extension[i - name.len()] == '\\');
        }
    }
}

proof fn lemma_in_place_add(front: Seq<EntryView>, back: Seq<EntryView>)
    requires
        all_in_place(front),
        all_in_place(back),
    ensures
        all_in_place(front + back),
{
    let whole = front + back;
    assert forall|k: int| 0 <= k < whole.len() implies in_place(#[trigger] whole[k]) by {
        if k < front.len() {
            assert(in_place(front[k]));
        } else {
            assert(in_place(back[k - front.len()]));
        }
    }
}

/// The walk of a well-formed manifest stays below the install directory:
/// where the names of a subtree are valid and the directory it lies in is
/// safe, every file and every archive that the walk names lies below the
/// install directory.
pub proof fn lemma_entries_in_place(
    children: Seq<FSObject>,
    dirs: Seq<Seq<char>>,
    url: Option<Seq<char>>,
    exe: Seq<char>,
)
    requires
        well_formed_children(children),
        safe_path(dirs),
    ensures
        all_in_place(children_entries(children, dirs, url, exe)),
    decreases children,
{
    if children.len() > 0 {
        let front = children.drop_last();
        let obj = children.last();
        assert(well_formed_children(front)) by {
            assert forall|i: int| 0 <= i < front.len() implies well_formed_object(
                #[trigger] front[i],
            ) by {
                assert(front[i] == children[i]);
            }
            assert forall|i: int, j: int| 0 <= i < j < front.len() implies name_of(
                #[trigger] front[i],
            ) != name_of(#[trigger] front[j]) by {
                assert(front[i] == children[i]);
                assert(front[j] == children[j]);
            }
        }
        assert(well_formed_object(obj)) by {
            assert(obj == children[children.len() - 1]);
        }
        lemma_entries_in_place(front, dirs, url, exe);
        match obj {
            FSObject::File(file) => {
                lemma_valid_is_safe(file.name@);
                let path = dirs.push(file.name@);
                assert(safe_path(path)) by {
                    assert forall|i: int| 0 <= i < path.len() implies safe_segment(
                        #[trigger] path[i],
                    ) by {
                        if i < dirs.len() {
                            assert(path[i] == dirs[i]);
                        }
                    }
                }
                let one = seq![file_entry(file, dirs, url, exe)];
                assert(all_in_place(one)) by {
                    assert(in_place(one[0]));
                }
            },
            FSObject::Directory(dir) => {
                lemma_valid_is_safe(dir.name@);
                let inner = resolved(url, dir.name@ + "/"@);
                let path = dirs.push(dir.name@);
                assert(safe_path(path)) by {
                    assert forall|i: int| 0 <= i < path.len() implies safe_segment(
                        #[trigger] path[i],
                    ) by {
                        if i < dirs.len() {
                            assert(path[i] == dirs[i]);
                        }
                    }
                }
                let enter = seq![EntryView::Enter { url: inner }];
                assert(all_in_place(enter)) by {
                    assert(in_place(enter[0]));
                }
                lemma_entries_in_place(dir.children@, path, inner, exe);
                lemma_in_place_add(enter, children_entries(dir.children@, path, inner, exe));
            },
            FSObject::Archive(archive) => {
                reveal_strlit(".hed");
                reveal_strlit(".dat");
                lemma_extended_is_safe(archive.name@, ".hed"@);
                lemma_extended_is_safe(archive.name@, ".dat"@);
                let hed = dirs.push(archive.name@ + ".hed"@);
                let dat = dirs.push(archive.name@ + ".dat"@);
                assert(safe_path(hed)) by {
                    assert forall|i: int| 0 <= i < hed.len() implies safe_segment(
                        #[trigger] hed[i],
                    ) by {
                        if i < dirs.len() {
                            assert(hed[i] == dirs[i]);
                        }
                    }
                }
                assert(safe_path(dat)) by {
                    assert forall|i: int| 0 <= i < dat.len() implies safe_segment(
                        #[trigger] dat[i],
                    ) by {
                        if i < dirs.len() {
                            assert(dat[i] == dirs[i]);
                        }
                    }
                }
                let entries = archive_entries(archive, dirs, url);
                assert(all_in_place(entries)) by {
                    assert forall|k: int| 0 <= k < entries.len() implies in_place(
                        #[trigger] entries[k],
                    ) by {
                        if 0 < k < entries.len() - 1 {
                            assert(entries[k] == member_entries(
                                archive.files@,
                                archive_url(url, archive.name@),
                            )[k - 1]);
                        }
                    }
                }
            },
        }
        lemma_in_place_add(
            children_entries(front, dirs, url, exe),
            object_entries(obj, dirs, url, exe),
        );
    }
}

} // verus!
