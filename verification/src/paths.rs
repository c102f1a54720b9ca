//! File names and archive member paths.
//!
//! The patcher replaces its own binary through a sidecar: a copy that sits
//! beside the binary under the binary's name with `.aecoupdate` appended.
//! The functions here tell the two apart and turn one name into the other.
//! They also decide whether the path of a ZIP member stays inside the
//! directory it is unpacked into, as the host reads paths.

use crate::text::{chars_of, joined};
use vstd::prelude::*;
use vstd::string::*;

verus! {

/// The extension that marks a sidecar, without its dot.
pub open spec fn update_extension() -> Seq<char> {
    seq!['a', 'e', 'c', 'o', 'u', 'p', 'd', 'a', 't', 'e']
}

/// The suffix that turns a file name into the name of its sidecar.
pub open spec fn update_suffix() -> Seq<char> {
    seq!['.'] + update_extension()
}

/// The number of characters of `name` up to and including its last dot, or
/// 0 where it has none.
pub open spec fn after_last_dot(name: Seq<char>) -> nat
    decreases name.len(),
{
    if name.len() == 0 {
        0
    } else if name.last() == '.' {
        name.len()
    } else {
        after_last_dot(name.drop_last())
    }
}

/// The extension of a file name: what follows its last dot. A name without
/// a dot has none, and neither has a name whose only dot is its first
/// character.
pub open spec fn extension(name: Seq<char>) -> Option<Seq<char>> {
    if after_last_dot(name) <= 1 {
        None
    } else {
        Some(name.skip(after_last_dot(name) as int))
    }
}

/// The file name without its extension and the dot before it; the whole
/// name where it has no extension.
pub open spec fn without_extension(name: Seq<char>) -> Seq<char> {
    if after_last_dot(name) <= 1 {
        name
    } else {
        name.take(after_last_dot(name) - 1)
    }
}

/// The name of the sidecar of the binary called `name`.
pub open spec fn sidecar_of(name: Seq<char>) -> Seq<char> {
    name + update_suffix()
}

/// Whether a binary of this name is a sidecar.
pub open spec fn is_sidecar(name: Seq<char>) -> bool {
    extension(name) == Some(update_extension())
}

/// Where the last dot of `name` lies.
pub proof fn lemma_after_last_dot(name: Seq<char>)
    ensures
        after_last_dot(name) <= name.len(),
        after_last_dot(name) > 0 ==> name[after_last_dot(name) - 1] == '.',
        forall|j: int| after_last_dot(name) <= j < name.len() ==> name[j] != '.',
    decreases name.len(),
{
    if name.len() > 0 && name.last() != '.' {
        let front = name.drop_last();
        lemma_after_last_dot(front);
        assert forall|j: int| after_last_dot(name) <= j < name.len() implies name[j] != '.' by {
            if j < front.len() {
                assert(name[j] == front[j]);
            }
        }
    }
}

/// The last dot of `name` is where a dot stands that no dot follows.
pub proof fn lemma_last_dot_is(name: Seq<char>, at: int)
    requires
        0 <= at < name.len(),
        name[at] == '.',
        forall|j: int| at < j < name.len() ==> name[j] != '.',
    ensures
        after_last_dot(name) == at + 1,
{
    lemma_after_last_dot(name);
}

/// A sidecar's name leads back to the name it was made from: the sidecar
/// of a binary is a sidecar, and without its extension it is called as the
/// binary is.
pub proof fn lemma_sidecar_round_trip(name: Seq<char>)
    requires
        name.len() > 0,
    ensures
        is_sidecar(sidecar_of(name)),
        without_extension(sidecar_of(name)) == name,
{
    let side = sidecar_of(name);
    assert(side.len() == name.len() + 11);
    assert(side[name.len() as int] == '.');
    assert forall|j: int| name.len() < j < side.len() implies side[j] != '.' by {
        assert(side[j] == update_suffix()[j - name.len()]);
    }
    lemma_last_dot_is(side, name.len() as int);
    assert(side.skip(name.len() as int + 1) =~= update_extension());
    assert(side.take(name.len() as int) =~= name);
}

/// What a binary of a given name has to do about sidecars when a patch
/// routine starts.
#[derive(Clone, Debug)]
pub enum Identity {
    /// The regular binary: a sidecar of this name may be left over from an
    /// earlier update and is removed.
    Regular { sidecar: String },
    /// A sidecar: it copies itself over the binary called `target` and starts
    /// that one.
    Replacement { target: String },
}

fn last_dot_end(chars: &Vec<char>) -> (end: usize)
    ensures
        end == after_last_dot(chars@),
{
    let mut i: usize = chars.len();
    assert(chars@.take(i as int) =~= chars@);
    while i > 0
        invariant
            i <= chars@.len(),
            after_last_dot(chars@) == after_last_dot(chars@.take(i as int)),
        decreases i,
    {
        if chars[i - 1] == '.' {
            return i;
        }
        assert(chars@.take(i as int).drop_last() =~= chars@.take(i - 1));
        i -= 1;
    }
    0
}

fn is_update_extension(chars: &Vec<char>, from: usize) -> (same: bool)
    requires
        from <= chars@.len(),
    ensures
        same == (chars@.skip(from as int) == update_extension()),
{
    if chars.len() - from != 10 {
        assert(chars@.skip(from as int).len() != update_extension().len());
        return false;
    }
    let same = chars[from] == 'a' && chars[from + 1] == 'e' && chars[from + 2] == 'c' && chars[from
        + 3] == 'o' && chars[from + 4] == 'u' && chars[from + 5] == 'p' && chars[from + 6] == 'd'
        && chars[from + 7] == 'a' && chars[from + 8] == 't' && chars[from + 9] == 'e';
    proof {
        let tail = chars@.skip(from as int);
        if same {
            assert(tail =~= update_extension());
        } else {
            assert(tail[0] == chars@[from + 0]);
            assert(tail[1] == chars@[from + 1]);
            assert(tail[2] == chars@[from + 2]);
            assert(tail[3] == chars@[from + 3]);
            assert(tail[4] == chars@[from + 4]);
            assert(tail[5] == chars@[from + 5]);
            assert(tail[6] == chars@[from + 6]);
            assert(tail[7] == chars@[from + 7]);
            assert(tail[8] == chars@[from + 8]);
            assert(tail[9] == chars@[from + 9]);
        }
    }
    same
}

/// The name of the sidecar of the binary called `name`: `name` with
/// `.aecoupdate` appended. An extension that `name` has stays inside the
/// new name.
pub fn get_self_aecoupdate_path(name: &str) -> (sidecar: String)
    ensures
        sidecar@ == sidecar_of(name@),
{
    proof {
        reveal_strlit(".aecoupdate");
    }
    let sidecar = joined(name, ".aecoupdate");
    assert(sidecar@ =~= sidecar_of(name@));
    sidecar
}

/// Tells from the running binary's file name which of the two it is, and
/// gives the name of its counterpart.
pub fn identify(name: &str) -> (identity: Identity)
    ensures
        match identity {
            Identity::Regular { sidecar } => !is_sidecar(name@) && sidecar@ == sidecar_of(name@),
            Identity::Replacement { target } => is_sidecar(name@) && target@ == without_extension(
                name@,
            ),
        },
{
    let chars = chars_of(name);
    let end = last_dot_end(&chars);
    proof {
        lemma_after_last_dot(chars@);
    }
    if end > 1 && is_update_extension(&chars, end) {
        let target = name.substring_char(0, end - 1).to_owned();
        assert(target@ =~= without_extension(name@));
        Identity::Replacement { target }
    } else {
        Identity::Regular { sidecar: get_self_aecoupdate_path(name) }
    }
}

/// Whether `c` separates the segments of a member path. A slash always
/// does; a backslash does where `backslash` says so.
pub open spec fn separates(c: char, backslash: bool) -> bool {
    c == '/' || (backslash && c == '\\')
}

/// The number of characters from `at` on that stand before the next
/// separator.
pub open spec fn segment_len(path: Seq<char>, backslash: bool, at: int) -> nat
    decreases path.len() - at,
{
    if at < 0 || at >= path.len() || separates(path[at], backslash) {
        0
    } else {
        1 + segment_len(path, backslash, at + 1)
    }
}

/// The end of the segment that begins at `at`: the position of the next
/// separator at or after `at`, or the length of `path`.
pub open spec fn segment_end(path: Seq<char>, backslash: bool, at: int) -> int {
    at + segment_len(path, backslash, at)
}

/// How deep below the root the path from `start` on ends, where it begins
/// `depth` levels below the root: a segment `..` leads one level up, an
/// empty segment and `.` stay, any other segment leads one level down.
/// `None` where some `..` would lead above the root.
pub open spec fn descent(path: Seq<char>, backslash: bool, start: int, depth: nat) -> Option<nat>
    decreases path.len() - start,
{
    if start < 0 || start > path.len() {
        None
    } else {
        let end = segment_end(path, backslash, start);
        let segment = path.subrange(start, end);
        let after = if segment == seq!['.', '.'] {
            if depth == 0 {
                None
            } else {
                Some((depth - 1) as nat)
            }
        } else if segment.len() == 0 || segment == seq!['.'] {
            Some(depth)
        } else {
            Some(depth + 1)
        };
        if after is None {
            None
        } else if end >= path.len() {
            after
        } else {
            descent(path, backslash, end + 1, after->0)
        }
    }
}

/// Whether a member path, read with the given separators, names a place at
/// or below the directory it is resolved in: it is not absolute, and no
/// prefix of it leads above that directory.
pub open spec fn enclosed(path: Seq<char>, backslash: bool) -> bool {
    &&& !(path.len() > 0 && separates(path[0], backslash))
    &&& descent(path, backslash, 0, 0) is Some
}

/// How a host reads paths.
#[derive(Clone, Copy, Debug, PartialEq, Eq, Structural)]
pub enum PathStyle {
    /// Only a slash separates segments, and no path names a drive.
    Posix,
    /// A slash and a backslash separate segments, and a letter with a colon
    /// after it names a drive.
    Windows,
}

/// The beginning of the platform tag of a Windows host.
pub open spec fn windows_tag() -> Seq<char> {
    seq!['w', 'i', 'n', 'd', 'o', 'w', 's', '-']
}

/// How the host with the platform tag `host` reads paths: as Windows does
/// where the tag begins with `windows-`, and as POSIX does elsewhere.
pub open spec fn style_of(host: Seq<char>) -> PathStyle {
    if windows_tag().is_prefix_of(host) {
        PathStyle::Windows
    } else {
        PathStyle::Posix
    }
}

/// Whether `c` is a letter of the ASCII alphabet.
pub open spec fn ascii_letter(c: char) -> bool {
    ('a' as u32 <= c as u32 && c as u32 <= 'z' as u32) || ('A' as u32 <= c as u32 && c as u32
        <= 'Z' as u32)
}

/// Whether `path` begins with the name of a drive: a letter and a colon.
pub open spec fn names_drive(path: Seq<char>) -> bool {
    path.len() >= 2 && ascii_letter(path[0]) && path[1] == ':'
}

/// Whether a member path stays inside the directory it is unpacked into,
/// as a host of the given style reads it: it holds no NUL, it does not begin
/// with a separator, no `..` in it leads above the directory, and on a
/// Windows host it names no drive.
pub open spec fn stays_inside(path: Seq<char>, style: PathStyle) -> bool {
    &&& !path.contains('\0')
    &&& style == PathStyle::Windows ==> !names_drive(path)
    &&& enclosed(path, style == PathStyle::Windows)
}

/// A segment ends at or after the place it is asked from, on a separator or
/// at the end of the path, and holds no separator before that.
pub proof fn lemma_segment_end(path: Seq<char>, backslash: bool, at: int)
    requires
        0 <= at <= path.len(),
    ensures
        at <= segment_end(path, backslash, at) <= path.len(),
        segment_end(path, backslash, at) < path.len() ==> separates(
            path[segment_end(path, backslash, at)],
            backslash,
        ),
        forall|j: int|
            at <= j < segment_end(path, backslash, at) ==> !separates(
                #[trigger] path[j],
                backslash,
            ),
    decreases path.len() - at,
{
    if at < path.len() && !separates(path[at], backslash) {
        lemma_segment_end(path, backslash, at + 1);
        assert(segment_end(path, backslash, at) == segment_end(path, backslash, at + 1));
    }
}

/// Inside a segment, the segment's end is the same from every place.
proof fn lemma_segment_end_step(path: Seq<char>, backslash: bool, start: int, at: int)
    requires
        0 <= start <= at < path.len(),
        segment_end(path, backslash, start) == segment_end(path, backslash, at),
        !separates(path[at], backslash),
    ensures
        segment_end(path, backslash, start) == segment_end(path, backslash, at + 1),
{
}

fn has_char(chars: &Vec<char>, wanted: char) -> (found: bool)
    ensures
        found == chars@.contains(wanted),
{
    let mut i: usize = 0;
    while i < chars.len()
        invariant
            i <= chars@.len(),
            forall|j: int| 0 <= j < i ==> chars@[j] != wanted,
        decreases chars@.len() - i,
    {
        if chars[i] == wanted {
            return true;
        }
        i += 1;
    }
    false
}

fn is_separator(c: char, backslash: bool) -> (r: bool)
    ensures
        r == separates(c, backslash),
{
    c == '/' || (backslash && c == '\\')
}

fn is_enclosed(chars: &Vec<char>, backslash: bool) -> (inside: bool)
    ensures
        inside == enclosed(chars@, backslash),
{
    let n = chars.len();
    if n > 0 && is_separator(chars[0], backslash) {
        return false;
    }
    let mut start: usize = 0;
    let mut depth: usize = 0;
    let mut i: usize = 0;
    loop
        invariant
            n == chars@.len(),
            start <= i <= n,
            depth <= start,
            segment_end(chars@, backslash, start as int) == segment_end(
                chars@,
                backslash,
                i as int,
            ),
            descent(chars@, backslash, 0, 0) == descent(
                chars@,
                backslash,
                start as int,
                depth as nat,
            ),
            !(n > 0 && separates(chars@[0], backslash)),
        decreases n - i,
    {
        if i < n && !is_separator(chars[i], backslash) {
            proof {
                lemma_segment_end_step(chars@, backslash, start as int, i as int);
            }
            i += 1;
        } else {
            proof {
                lemma_segment_end(chars@, backslash, i as int);
            }
            assert(segment_end(chars@, backslash, start as int) == i);
            let ghost segment = chars@.subrange(start as int, i as int);
            let len = i - start;
            assert(segment.len() == len);
            if len == 2 && chars[start] == '.' && chars[start + 1] == '.' {
                assert(segment =~= seq!['.', '.']);
                if depth == 0 {
                    return false;
                }
                depth -= 1;
            } else if len == 0 || (len == 1 && chars[start] == '.') {
                assert(len == 1 ==> segment =~= seq!['.']);
                assert(segment != seq!['.', '.']);
            } else {
                assert(segment != seq!['.', '.']) by {
                    if segment.len() == 2 {
                        assert(segment[0] == chars@[start as int]);
                        assert(segment[1] == chars@[start + 1]);
                    }
                }
                assert(segment != seq!['.']) by {
                    if segment.len() == 1 {
                        assert(segment[0] == chars@[start as int]);
                    }
                }
                depth += 1;
            }
            if i >= n {
                return true;
            }
            i += 1;
            start = i;
        }
    }
}

/// How the host with the platform tag `host` reads paths.
pub fn path_style(host: &str) -> (style: PathStyle)
    ensures
        style == style_of(host@),
{
    let chars = chars_of(host);
    if chars.len() >= 8 && chars[0] == 'w' && chars[1] == 'i' && chars[2] == 'n' && chars[3] == 'd'
        && chars[4] == 'o' && chars[5] == 'w' && chars[6] == 's' && chars[7] == '-' {
        assert(chars@.subrange(0, 8) =~= windows_tag());
        PathStyle::Windows
    } else {
        proof {
            if windows_tag().is_prefix_of(chars@) {
                let head = chars@.subrange(0, 8);
                assert(head == windows_tag());
                assert(head[0] == chars@[0] && head[1] == chars@[1] && head[2] == chars@[2]
                    && head[3] == chars@[3] && head[4] == chars@[4] && head[5] == chars@[5]
                    && head[6] == chars@[6] && head[7] == chars@[7]);
            }
        }
        PathStyle::Posix
    }
}

fn is_ascii_letter(c: char) -> (letter: bool)
    ensures
        letter == ascii_letter(c),
{
    let code = c as u32;
    (97 <= code && code <= 122) || (65 <= code && code <= 90)
}

/// Whether the member path `name` stays inside the directory it is
/// unpacked into, as a host of the given style reads it.
pub fn is_safe_member_path(name: &str, style: PathStyle) -> (safe: bool)
    ensures
        safe == stays_inside(name@, style),
{
    let chars = chars_of(name);
    if has_char(&chars, '\0') {
        return false;
    }
    match style {
        PathStyle::Posix => is_enclosed(&chars, false),
        PathStyle::Windows => {
            if chars.len() >= 2 && is_ascii_letter(chars[0]) && chars[1] == ':' {
                return false;
            }
            is_enclosed(&chars, true)
        },
    }
}

/// Whether the member path `name` stands for a directory: it ends in a
/// slash.
pub fn names_directory(name: &str) -> (dir: bool)
    ensures
        dir == (name@.len() > 0 && name@.last() == '/'),
{
    let chars = chars_of(name);
    chars.len() > 0 && chars[chars.len() - 1] == '/'
}

} // verus!
