//! What holds of every worker, whatever the outside world answers.
//!
//! Each law speaks of a sound worker: one that was made by
//! [`crate::worker::PatchWorker::new`] and has taken steps since. Laws about
//! one step take the worker and the response; laws about a run take the
//! responses one after the other.

use crate::machine::{
    at_file, at_member, is_running_binary, next, walking, Control, Outcome, Phase, Walk,
};
use crate::manifest::{count_object, subdir_position, well_formed, well_formed_object};
use crate::manifest::{Directory, FSObject};
use crate::installer::{lemma_sizes_prefix, lemma_sizes_step, sizes_sum};
use crate::machine::{unpacking, RETRIES};
use crate::model::{lemma_after_sound, lemma_run_at, walk_of, Model};
use crate::message::{transfer_progress, GUIMessage, Notice, PatchStatus, Platform, Progress};
use crate::message::Subject;
use crate::installer::{extraction_of, Extraction};
use crate::machine::{archive_sound, unpack_request};
use crate::paths::{is_sidecar, lemma_sidecar_round_trip, names_drive, segment_end};
use crate::paths::{separates, sidecar_of, stays_inside, style_of, without_extension, PathStyle};
use crate::plan::{all_in_place, archive_at, is_leaf, leaves, EntryView};
use crate::plan::{lemma_entries_count, lemma_entries_in_place, lemma_leaves_bound};
use crate::plan::{lemma_leaves_prefix, lemma_leaves_step};
use crate::protocol::{Binary, PatchError, Probe, Request, Response, Target};
use crate::url::resolved;
use vstd::prelude::*;

verus! {

/// What holds of a worker at one moment holds of it at every later
/// moment: running keeps a worker sound, as long as what it lays out fits
/// into memory.
pub proof fn law_soundness_lasts(m: Model, responses: Seq<Response>)
    requires
        m.sound(),
        m.fits(responses),
    ensures
        m.after_all(responses).sound(),
    decreases responses.len(),
{
    if responses.len() > 0 {
        law_soundness_lasts(m, responses.drop_last());
        lemma_after_sound(m.after_all(responses.drop_last()), responses.last());
    }
}

/// Every share of work that the front end hears of lies between 0 and 1.
pub proof fn law_progress_bounded(notice: Notice)
    ensures
        notice.progress() matches Some(progress) ==> progress.bounded(),
{
}

/// Leaves are announced in the order of the walk: the notice that a leaf is
/// about to be checked counts the leaves before it, and the request that
/// goes with the notice is for that leaf. The walk's entries follow the
/// manifest's declaration, each directory with all that is below it before
/// its next sibling.
pub proof fn law_leaves_in_order(m: Model, response: Response, i: int)
    requires
        m.sound(),
        0 <= i < m.outcome(response).notices.len(),
        m.outcome(response).notices[i] is CheckingFile,
    ensures
        ({
            let at = m.control.cursor;
            let plan = m.facts.plan(m.control.platform);
            &&& m.outcome(response).notices[i] == (Notice::CheckingFile {
                completed: m.control.completed,
                total: m.control.total,
                platform: m.control.platform,
            })
            &&& at < plan.len()
            &&& is_leaf(plan[at as int])
            &&& m.control.completed == leaves(plan.take(at as int))
            &&& m.control.completed < m.control.total
            &&& m.control.total == leaves(plan)
            &&& m.after(response).control.cursor == at
            &&& m.outcome(response).request == (Request::ProbeFile { entry: at })
                || m.outcome(response).request == (Request::ReadMember { entry: at })
        }),
{
    reveal(next);
    let plan = m.facts.plan(m.control.platform);
    let at = m.control.cursor as int;
    assert(m.control.phase == Phase::Walking);
    lemma_leaves_step(plan, at);
    lemma_leaves_prefix(plan, at + 1);
}

/// Inside a walk the counters only grow: a step that stays in the walk
/// leaves the cursor and the count of checked leaves where they are or
/// moves them on, and keeps the total.
pub proof fn law_walk_moves_on(m: Model, response: Response)
    requires
        m.sound(),
        walking(m.control.phase),
        walking(m.after(response).control.phase),
    ensures
        m.after(response).control.platform == m.control.platform,
        m.after(response).control.total == m.control.total,
        m.control.cursor <= m.after(response).control.cursor <= m.control.cursor + 1,
        m.control.completed <= m.after(response).control.completed <= m.control.completed + 1,
        m.after(response).control.completed <= m.control.total,
        m.after(response).facts == m.facts,
{
    reveal(next);
    let plan = m.facts.plan(m.control.platform);
    lemma_leaves_bound(plan);
    if m.control.cursor < plan.len() {
        lemma_leaves_step(plan, m.control.cursor as int);
        lemma_leaves_prefix(plan, m.control.cursor + 1);
    }
}

/// What settles a leaf: it is found with the declared digest, or its new
/// content has been written, or put into its archive.
pub open spec fn settles(phase: Phase, entry: EntryView, response: Response) -> bool {
    match (phase, response, entry) {
        (
            Phase::Probing,
            Response::Probed(Probe::Present(found)),
            EntryView::File { digest, .. },
        ) => found@ == digest,
        (
            Phase::ReadingMember,
            Response::Probed(Probe::Present(found)),
            EntryView::Member { digest, .. },
        ) => found@ == digest,
        (Phase::Writing(_), Response::Done(true), EntryView::File { .. }) => true,
        (Phase::AddingMember, Response::Done(true), EntryView::Member { .. }) => true,
        _ => false,
    }
}

/// A leaf counts as checked only once it is settled: found as declared,
/// written, or put into its archive. Then the walk turns to the next
/// entry.
pub proof fn law_leaf_counts_when_settled(m: Model, response: Response)
    requires
        m.sound(),
        walking(m.control.phase),
        walking(m.after(response).control.phase),
        m.after(response).control.completed != m.control.completed,
    ensures
        m.control.cursor < m.facts.plan(m.control.platform).len(),
        is_leaf(m.facts.plan(m.control.platform)[m.control.cursor as int]),
        settles(
            m.control.phase,
            m.facts.plan(m.control.platform)[m.control.cursor as int],
            response,
        ),
        m.after(response).control.completed == m.control.completed + 1,
        m.after(response).control.cursor == m.control.cursor + 1,
{
    reveal(next);
    let plan = m.facts.plan(m.control.platform);
    lemma_leaves_bound(plan);
    if m.control.cursor < plan.len() {
        lemma_leaves_step(plan, m.control.cursor as int);
        lemma_leaves_prefix(plan, m.control.cursor + 1);
    }
}

/// When a walk closes, every leaf of it has been checked: the number that
/// the front end hears is the number of leaves in the walk, and it is the
/// number counted.
pub proof fn law_walk_closes_complete(m: Model, response: Response, i: int)
    requires
        m.sound(),
        0 <= i < m.outcome(response).notices.len(),
        m.outcome(response).notices[i] is FilesChecked,
    ensures
        m.outcome(response).notices[i] == (Notice::FilesChecked { total: m.control.total }),
        m.control.completed == m.control.total,
        m.control.total == leaves(m.facts.plan(m.control.platform)),
        m.after(response).control.checked == m.control.checked + m.control.completed,
{
    reveal(next);
    let plan = m.facts.plan(m.control.platform);
    assert(m.control.phase == Phase::Walking);
    assert(plan.take(m.control.cursor as int) =~= plan);
    lemma_leaves_bound(plan);
    lemma_leaves_bound(m.facts.all.entries());
}

/// When a routine finishes, the leaves counted are those of both walks:
/// the leaves of the subtree for every platform and the leaves of the
/// subtree for the host's platform, each as far as the manifest has it.
pub proof fn law_counter_consistency(m: Model, response: Response, i: int)
    requires
        m.sound(),
        0 <= i < m.outcome(response).notices.len(),
        m.outcome(response).notices[i] == Notice::Status(PatchStatus::Finished),
    ensures
        m.after(response).control.checked == leaves(m.facts.all.entries()) + leaves(
            m.facts.host.entries(),
        ),
        m.after(response).facts == m.facts,
{
    reveal(next);
    let plan = m.facts.plan(m.control.platform);
    lemma_leaves_bound(m.facts.all.entries());
    lemma_leaves_bound(m.facts.host.entries());
    if m.control.phase == Phase::Walking {
        assert(plan.take(m.control.cursor as int) =~= plan);
    } else {
        assert(m.control.phase == Phase::Planning);
        assert(Seq::<EntryView>::empty().len() == 0);
    }
}

/// A walk has one leaf for each leaf of the manifest's subtree: the walk
/// that a manifest holds for a platform counts the files below the
/// platform's directory and the members of the archives below it.
pub proof fn law_walk_counts_manifest(
    manifest: Directory,
    tag: Seq<char>,
    patch_url: Seq<char>,
    exe: Seq<char>,
)
    ensures
        walk_of(manifest, tag, patch_url, exe) matches Walk::Planned(entries) ==> {
            &&& subdir_position(manifest.children@, tag) < manifest.children@.len()
            &&& leaves(entries) == count_object(
                manifest.children@[subdir_position(manifest.children@, tag) as int],
            )
        },
{
    let at = subdir_position(manifest.children@, tag);
    if at < manifest.children@.len() {
        if let FSObject::Directory(dir) = manifest.children@[at as int] {
            if let Some(root) = resolved(Some(patch_url), tag + "/"@) {
                lemma_entries_count(dir.children@, Seq::empty(), Some(root), exe);
            }
        }
    }
}

/// New content for the running binary goes to the sidecar. When the
/// running binary is on disk with a digest that is not the declared one,
/// its new content is fetched for the sidecar, written to the sidecar and
/// nowhere else, and once it is written the worker knows of the update.
/// The sidecar is the file beside the binary that is called as the binary
/// with `.aecoupdate` appended: a worker in a walk is no sidecar itself.
pub proof fn law_self_redirect(m: Model, found: Vec<u8>)
    requires
        m.sound(),
        m.control.phase == Phase::Probing,
        is_running_binary(m.facts.plan(m.control.platform)[m.control.cursor as int]),
        found@ != m.facts.plan(m.control.platform)[m.control.cursor as int]->File_digest,
    ensures
        ({
            let probed = Response::Probed(Probe::Present(found));
            let fetching = m.after(probed);
            let writing = fetching.after(Response::Fetched(Ok(())));
            let written = writing.after(Response::Done(true));
            &&& m.outcome(probed).request == (Request::Download { entry: m.control.cursor })
            &&& fetching.outcome(Response::Fetched(Ok(()))).request == (Request::WriteFile {
                entry: m.control.cursor,
                target: Target::Sidecar,
            })
            &&& written.control.updated
            &&& !m.control.replacement
            &&& m.counterpart == sidecar_of(m.exe)
        }),
{
    reveal(next);
}

/// A file is written where it was checked, except the running binary:
/// whenever the worker asks for a file to be written, it is the file that
/// the walk stands at, and the sidecar is the target only for the running
/// binary.
pub proof fn law_write_target(m: Model, response: Response)
    requires
        m.sound(),
        m.outcome(response).request is WriteFile,
    ensures
        ({
            let plan = m.facts.plan(m.control.platform);
            &&& m.control.cursor < plan.len()
            &&& m.outcome(response).request->WriteFile_entry == m.control.cursor
            &&& plan[m.control.cursor as int] is File
            &&& m.outcome(response).request->WriteFile_target == Target::Sidecar
                ==> is_running_binary(plan[m.control.cursor as int])
        }),
{
    reveal(next);
}

/// The running binary is never written over while it is on disk: where
/// the probe finds it, whatever its digest, the next request is not to
/// write in place.
pub proof fn law_self_is_spared(m: Model, found: Vec<u8>, answer: Response)
    requires
        m.sound(),
        m.control.phase == Phase::Probing,
        is_running_binary(m.facts.plan(m.control.platform)[m.control.cursor as int]),
    ensures
        ({
            let next = m.after(Response::Probed(Probe::Present(found)));
            next.outcome(answer).request != (Request::WriteFile {
                entry: m.control.cursor,
                target: Target::InPlace,
            })
        }),
{
    reveal(next);
    let next = m.after(Response::Probed(Probe::Present(found)));
    let plan = m.facts.plan(m.control.platform);
    lemma_leaves_bound(plan);
    lemma_leaves_step(plan, m.control.cursor as int);
    lemma_leaves_prefix(plan, m.control.cursor + 1);
}

/// A sidecar puts itself in the regular binary's place: a worker that runs
/// as `X.aecoupdate` first copies itself over `X`; when that is done it
/// starts `X`; when that is done it ends the process.
pub proof fn law_sidecar_protocol(m: Model)
    requires
        m.sound(),
        m.control.phase == Phase::Idle,
        m.control.replacement,
    ensures
        ({
            let begun = m.after(Response::Inbox(Some(GUIMessage::Retry)));
            let copied = begun.after(Response::Done(true));
            &&& is_sidecar(m.exe)
            &&& m.counterpart == without_extension(m.exe)
            &&& m.outcome(Response::Inbox(Some(GUIMessage::Retry))).request == Request::CopySelf
            &&& begun.outcome(Response::Done(true)).request == (Request::Spawn {
                binary: Binary::Restored,
            })
            &&& copied.outcome(Response::Done(true)).request == Request::Exit
            &&& copied.after(Response::Done(true)).control.phase == Phase::Exited
        }),
{
    reveal(next);
}

/// The sidecar of a binary, run as a worker, restores that binary: the
/// regular name that a worker for `X.aecoupdate` copies itself to is `X`.
pub proof fn law_sidecar_restores(m: Model, name: Seq<char>)
    requires
        m.sound(),
        name.len() > 0,
        m.exe == sidecar_of(name),
    ensures
        m.control.replacement,
        m.counterpart == name,
{
    lemma_sidecar_round_trip(name);
}

/// A member is unpacked exactly if it stays inside the install directory,
/// as the host reads paths: when the worker turns to a member, it asks for
/// the member to be created or written if its path stays inside, and ends
/// the routine before anything is done with it if its path does not. No
/// other step asks for a member to be unpacked.
pub proof fn law_safe_extraction(m: Model, response: Response)
    requires
        m.sound(),
    ensures
        m.control.style == style_of(m.host),
        m.outcome(response).request matches Request::CreateDirectory { member, .. } ==> member
            < m.facts.members.len() && stays_inside(
            m.facts.members[member as int].name@,
            style_of(m.host),
        ),
        m.outcome(response).request matches Request::ExtractFile { member, .. } ==> member
            < m.facts.members.len() && stays_inside(
            m.facts.members[member as int].name@,
            style_of(m.host),
        ),
        m.control.phase == Phase::Unpacking && response == Response::Continued
            && m.control.member < m.facts.members.len() ==> if stays_inside(
            m.facts.members[m.control.member as int].name@,
            style_of(m.host),
        ) {
            m.outcome(response).request == unpack_request(
                m.facts.members,
                m.control.member,
                style_of(m.host),
            )
        } else {
            m.outcome(response).request == Request::Receive && m.after(response).control.error
                == Some(PatchError::UnsafeArchivePath)
        },
{
    reveal(next);
}

/// A path without a separator holds as many characters before its end as
/// it has from the place that is asked for.
proof fn lemma_plain_segment(path: Seq<char>, backslash: bool, at: int)
    requires
        0 <= at <= path.len(),
        forall|j: int| 0 <= j < path.len() ==> !separates(#[trigger] path[j], backslash),
    ensures
        segment_end(path, backslash, at) == path.len(),
    decreases path.len() - at,
{
    if at < path.len() {
        lemma_plain_segment(path, backslash, at + 1);
    }
}

/// A plain name stays inside: a member whose name holds no NUL and no
/// separator, is not `..` and, on a Windows host, names no drive, is
/// unpacked on that host, whatever else its name holds.
pub proof fn law_plain_names_stay_inside(name: Seq<char>, style: PathStyle)
    requires
        !name.contains('\0'),
        forall|j: int|
            0 <= j < name.len() ==> !separates(#[trigger] name[j], style == PathStyle::Windows),
        name != seq!['.', '.'],
        style == PathStyle::Windows ==> !names_drive(name),
    ensures
        stays_inside(name, style),
        extraction_of(name, style) == Extraction::RegularFile,
{
    let backslash = style == PathStyle::Windows;
    lemma_plain_segment(name, backslash, 0);
    assert(name.subrange(0, name.len() as int) =~= name);
    if name.len() > 0 {
        assert(!separates(name[0], backslash));
        assert(!separates(name[name.len() - 1], backslash));
    }
}

/// What a Windows host refuses beyond NUL and paths that climb out: every
/// path that begins with a separator, slash or backslash, and every path
/// that begins with a drive's name.
pub proof fn law_windows_refuses_drives(name: Seq<char>)
    requires
        names_drive(name) || (name.len() > 0 && (name[0] == '/' || name[0] == '\\')),
    ensures
        !stays_inside(name, PathStyle::Windows),
{
}

/// A routine that fails has told the front end why: before the status
/// that reports the failure stands the notice of what failed, or that the
/// server is down. The only failures without a notice are a response that
/// does not answer the request, and a game that does not start.
pub proof fn law_failure_is_told(m: Model, response: Response)
    requires
        m.sound(),
        m.outcome(response).notices.len() > 0,
        m.outcome(response).notices.last() == Notice::Status(PatchStatus::Error),
        m.after(response).control.error != Some(PatchError::Disorder),
        m.control.phase != Phase::Launching,
    ensures
        m.outcome(response).notices.len() >= 2,
        ({
            let cause = m.outcome(response).notices[m.outcome(response).notices.len() - 2];
            cause is Failed || cause == Notice::ServerDown
        }),
        m.after(response).control.phase == Phase::Idle,
        m.after(response).control.error is Some,
        m.outcome(response).request == Request::Receive,
{
    reveal(next);
}

/// Whether `archive` is the entry that opened the archive which a walk
/// stands in at `at`: it opens an archive, and nothing but members of that
/// archive lies between it and `at`.
pub open spec fn names_archive(plan: Seq<EntryView>, archive: usize, at: int) -> bool {
    &&& archive <= at < plan.len()
    &&& plan[archive as int] is Open
    &&& forall|j: int| archive < j < at ==> (#[trigger] plan[j]) is Member
}

/// The archive that an error of reading or writing carries, if it is such
/// an error.
pub open spec fn failed_archive(error: Option<PatchError>) -> Option<usize> {
    match error {
        Some(PatchError::ArchiveRead { archive }) => Some(archive),
        Some(PatchError::ArchiveWrite { archive }) => Some(archive),
        _ => None,
    }
}

/// An archive that fails is named: where a walk ends with an error of
/// reading or writing an archive, the error carries the entry that opened
/// the archive which the walk stands in, and with it the archive's name.
pub proof fn law_archive_error_names_archive(m: Model, response: Response)
    requires
        m.sound(),
        walking(m.control.phase),
        m.outcome(response).notices.len() > 0,
        m.outcome(response).notices.last() == Notice::Status(PatchStatus::Error),
        failed_archive(m.after(response).control.error) is Some,
    ensures
        names_archive(
            m.facts.plan(m.control.platform),
            failed_archive(m.after(response).control.error)->0,
            m.control.cursor as int,
        ),
{
    reveal(next);
    reveal(archive_sound);
}

/// Whether the worker is in a walk before it takes `responses` and after
/// each of them.
#[verifier::opaque]
pub open spec fn stays_in_walk(m: Model, responses: Seq<Response>) -> bool {
    forall|k: int|
        0 <= k <= responses.len() ==> walking(
            #[trigger] m.after_all(responses.take(k)).control.phase,
        )
}

/// A worker that stays in a walk is in a walk after any number of the
/// responses.
pub proof fn lemma_stays(m: Model, responses: Seq<Response>, k: int)
    requires
        stays_in_walk(m, responses),
        0 <= k <= responses.len(),
    ensures
        walking(m.after_all(responses.take(k)).control.phase),
{
    reveal(stays_in_walk);
}

/// A worker that stays in a walk through a run stays in it through the
/// run without its last response.
pub proof fn lemma_stays_front(m: Model, responses: Seq<Response>)
    requires
        stays_in_walk(m, responses),
        responses.len() > 0,
    ensures
        stays_in_walk(m, responses.drop_last()),
{
    reveal(stays_in_walk);
    let front = responses.drop_last();
    assert forall|k: int| 0 <= k <= front.len() implies walking(
        #[trigger] m.after_all(front.take(k)).control.phase,
    ) by {
        assert(front.take(k) =~= responses.take(k));
    }
}

/// Taking one more response is a step from where the responses before it
/// have led.
pub proof fn lemma_after_all_step(m: Model, responses: Seq<Response>, k: int)
    requires
        0 <= k < responses.len(),
    ensures
        m.after_all(responses.take(k + 1)) == m.after_all(responses.take(k)).after(responses[k]),
{
    assert(responses.take(k + 1).drop_last() =~= responses.take(k));
    assert(responses.take(k + 1).last() == responses[k]);
}

/// A worker that stays in a walk stays sound, holds the same facts
/// throughout, walks the same platform and keeps the total.
pub proof fn lemma_walk_run(m: Model, responses: Seq<Response>, k: int)
    requires
        m.sound(),
        stays_in_walk(m, responses),
        0 <= k <= responses.len(),
    ensures
        m.after_all(responses.take(k)).sound(),
        m.after_all(responses.take(k)).facts == m.facts,
        m.after_all(responses.take(k)).control.platform == m.control.platform,
        m.after_all(responses.take(k)).control.total == m.control.total,
        m.after_all(responses.take(k)).control.completed <= m.control.total,
        walking(m.after_all(responses.take(k)).control.phase),
    decreases k,
{
    lemma_stays(m, responses, k);
    if k == 0 {
        assert(responses.take(0) =~= Seq::<Response>::empty());
        let plan = m.facts.plan(m.control.platform);
        lemma_leaves_prefix(plan, m.control.cursor as int);
    } else {
        lemma_walk_run(m, responses, k - 1);
        lemma_after_all_step(m, responses, k - 1);
        let before = m.after_all(responses.take(k - 1));
        law_walk_moves_on(before, responses[k - 1]);
        lemma_after_sound(before, responses[k - 1]);
    }
}

/// Of the same total, the share of a smaller count is no larger.
pub proof fn lemma_share_grows(fewer: usize, more: usize, total: usize)
    requires
        fewer <= more <= total,
    ensures
        Progress::clamped(fewer as u128, total as u128).at_most(
            Progress::clamped(more as u128, total as u128),
        ),
{
    let t = total as int;
    assert(fewer * t <= more * t) by (nonlinear_arith)
        requires
            fewer <= more,
            0 <= t,
    ;
}

/// Within a walk the counters never fall: of two moments of a walk, the
/// later stands at the same entry or further on, and has as many leaves
/// checked or more.
pub proof fn lemma_walk_counters(m: Model, responses: Seq<Response>, i: int, j: int)
    requires
        m.sound(),
        stays_in_walk(m, responses),
        0 <= i <= j <= responses.len(),
    ensures
        m.after_all(responses.take(i)).control.cursor <= m.after_all(
            responses.take(j),
        ).control.cursor,
        m.after_all(responses.take(i)).control.completed <= m.after_all(
            responses.take(j),
        ).control.completed,
    decreases j - i,
{
    if i < j {
        lemma_walk_counters(m, responses, i, j - 1);
        lemma_walk_run(m, responses, j - 1);
        lemma_walk_run(m, responses, j);
        lemma_after_all_step(m, responses, j - 1);
        law_walk_moves_on(m.after_all(responses.take(j - 1)), responses[j - 1]);
    }
}

/// Within a walk the share of work done never falls: of two moments of a
/// walk, the later has as many leaves checked as the earlier or more, out
/// of the same total, and so reports a share that is no smaller.
pub proof fn law_progress_monotone(m: Model, responses: Seq<Response>, i: int, j: int)
    requires
        m.sound(),
        stays_in_walk(m, responses),
        0 <= i <= j <= responses.len(),
    ensures
        ({
            let earlier = m.after_all(responses.take(i)).control;
            let later = m.after_all(responses.take(j)).control;
            &&& earlier.total == later.total
            &&& earlier.completed <= later.completed <= later.total
            &&& Progress::clamped(earlier.completed as u128, earlier.total as u128).at_most(
                Progress::clamped(later.completed as u128, later.total as u128),
            )
        }),
{
    lemma_walk_run(m, responses, i);
    lemma_walk_run(m, responses, j);
    lemma_walk_counters(m, responses, i, j);
    let earlier = m.after_all(responses.take(i)).control;
    let later = m.after_all(responses.take(j)).control;
    lemma_share_grows(earlier.completed, later.completed, later.total);
}

/// Whether `response` reports the disk as the manifest declares it: a
/// file or a member that is asked for is there with the declared digest, an
/// archive that is to be opened opens, and a worker that has nothing to ask
/// is told to go on.
pub open spec fn agrees(m: Model, response: Response) -> bool {
    let plan = m.facts.plan(m.control.platform);
    match m.control.phase {
        Phase::Planning | Phase::Walking => response == Response::Continued,
        Phase::OpeningArchive => response == Response::Done(true),
        Phase::Probing => response matches Response::Probed(Probe::Present(found))
            && m.control.cursor < plan.len() && plan[m.control.cursor as int] is File && found@
            == plan[m.control.cursor as int]->File_digest,
        Phase::ReadingMember => response matches Response::Probed(Probe::Present(found))
            && m.control.cursor < plan.len() && plan[m.control.cursor as int] is Member && found@
            == plan[m.control.cursor as int]->Member_digest,
        _ => false,
    }
}

/// Whether every response of a run reports the disk as the manifest
/// declares it.
#[verifier::opaque]
pub open spec fn agrees_throughout(m: Model, responses: Seq<Response>) -> bool {
    forall|k: int|
        0 <= k < responses.len() ==> agrees(
            #[trigger] m.after_all(responses.take(k)),
            responses[k],
        )
}

/// Whether a request fetches a leaf or changes what is on disk.
pub open spec fn touches(request: Request) -> bool {
    request is Download || request is WriteFile || request is AddMember || request
        == Request::Finalize || request == Request::Defrag
}

/// Whether the worker is laying out or walking, with no archive changed.
pub open spec fn untouched(c: Control) -> bool {
    (c.phase == Phase::Planning || walking(c.phase)) && (walking(c.phase) ==> !c.dirty)
}

/// Where the disk is as the manifest declares it, a step of the walk
/// fetches nothing and changes nothing.
pub proof fn law_agreement_is_quiet(m: Model, response: Response)
    requires
        m.sound(),
        untouched(m.control),
        agrees(m, response),
    ensures
        !touches(m.outcome(response).request),
        m.after(response).control.updated == m.control.updated,
        m.after(response).facts == m.facts,
        walking(m.after(response).control.phase) ==> !m.after(response).control.dirty,
{
    reveal(next);
}

/// A worker that goes on as long as the disk agrees stays sound and has
/// changed no archive.
pub proof fn lemma_quiet_run(m: Model, responses: Seq<Response>, k: int)
    requires
        m.sound(),
        untouched(m.control),
        agrees_throughout(m, responses),
        0 <= k <= responses.len(),
    ensures
        m.after_all(responses.take(k)).sound(),
        m.after_all(responses.take(k)).facts == m.facts,
        m.after_all(responses.take(k)).control.updated == m.control.updated,
        k < responses.len() ==> untouched(m.after_all(responses.take(k)).control) && agrees(
            m.after_all(responses.take(k)),
            responses[k],
        ),
    decreases k,
{
    if k == 0 {
        assert(responses.take(0) =~= Seq::<Response>::empty());
    } else {
        lemma_quiet_run(m, responses, k - 1);
        lemma_after_all_step(m, responses, k - 1);
        let before = m.after_all(responses.take(k - 1));
        law_agreement_is_quiet(before, responses[k - 1]);
        lemma_after_sound(before, responses[k - 1]);
    }
    if k < responses.len() {
        assert(agrees(m.after_all(responses.take(k)), responses[k])) by {
            reveal(agrees_throughout);
        }
    }
}

/// A disk that is as the manifest declares it is left alone: as long as
/// every file and every member is found with the declared digest, the
/// worker fetches nothing, writes nothing, changes no archive, and comes to
/// know of no update.
pub proof fn law_unchanged_disk_is_left_alone(m: Model, responses: Seq<Response>, k: int)
    requires
        m.sound(),
        untouched(m.control),
        agrees_throughout(m, responses),
        0 <= k < responses.len(),
    ensures
        !touches(m.run(responses)[k].request),
        m.after_all(responses).control.updated == m.control.updated,
{
    lemma_run_at(m, responses, k);
    lemma_quiet_run(m, responses, k);
    law_agreement_is_quiet(m.after_all(responses.take(k)), responses[k]);
    lemma_quiet_run(m, responses, responses.len() as int);
    assert(responses.take(responses.len() as int) =~= responses);
}

/// What the front end is told in a run: the notices of its outcomes, one
/// outcome after the other.
pub open spec fn told(outcomes: Seq<Outcome>) -> Seq<Notice>
    decreases outcomes.len(),
{
    if outcomes.len() == 0 {
        Seq::empty()
    } else {
        told(outcomes.drop_last()) + outcomes.last().notices
    }
}

/// The number of leaves that a walk has announced: those that are checked,
/// and the one that the worker is busy with.
pub open spec fn announced(c: Control) -> nat {
    if at_file(c.phase) || at_member(c.phase) {
        c.completed as nat + 1
    } else {
        c.completed as nat
    }
}

/// The notice that announces leaf number `number` of a walk.
pub open spec fn announcement(platform: Platform, total: usize, number: nat) -> Notice {
    Notice::CheckingFile { completed: number as usize, total, platform }
}

/// The notices that announce the leaves from number `from` up to number
/// `to` of a walk, in order.
pub open spec fn announcements(platform: Platform, total: usize, from: nat, to: nat) -> Seq<
    Notice,
> {
    Seq::new((to - from) as nat, |k: int| announcement(platform, total, (from + k) as nat))
}

/// One more leaf is one more announcement.
pub proof fn lemma_announcements_push(platform: Platform, total: usize, from: nat, to: nat)
    requires
        from <= to,
    ensures
        announcements(platform, total, from, to + 1) == announcements(
            platform,
            total,
            from,
            to,
        ).push(announcement(platform, total, to)),
{
    assert(announcements(platform, total, from, to + 1) =~= announcements(
        platform,
        total,
        from,
        to,
    ).push(announcement(platform, total, to)));
}

/// A step inside a walk tells the front end of the next leaf, or nothing.
pub proof fn lemma_walk_step_notices(m: Model, response: Response)
    requires
        m.sound(),
        walking(m.control.phase),
        walking(m.after(response).control.phase),
    ensures
        announced(m.after(response).control) == announced(m.control) ==> m.outcome(
            response,
        ).notices == Seq::<Notice>::empty(),
        announced(m.after(response).control) != announced(m.control) ==> {
            &&& announced(m.after(response).control) == announced(m.control) + 1
            &&& m.outcome(response).notices == seq![
                announcement(m.control.platform, m.control.total, announced(m.control)),
            ]
        },
{
    reveal(next);
    let plan = m.facts.plan(m.control.platform);
    lemma_leaves_bound(plan);
    lemma_leaves_prefix(plan, m.control.cursor as int);
    if m.control.cursor < plan.len() {
        lemma_leaves_step(plan, m.control.cursor as int);
        lemma_leaves_prefix(plan, m.control.cursor + 1);
    }
    let told = m.outcome(response).notices;
    if announced(m.after(response).control) == announced(m.control) {
        assert(told =~= Seq::<Notice>::empty());
    } else {
        assert(told =~= seq![
            announcement(m.control.platform, m.control.total, announced(m.control)),
        ]);
    }
}

/// What the front end hears of a walk depends on the walk alone: as long
/// as the walk goes on, the notices are those that announce its leaves, one
/// for each leaf in the walk's order, whatever was found on disk and
/// whatever was fetched and written.
pub proof fn law_walk_notices(m: Model, responses: Seq<Response>)
    requires
        m.sound(),
        m.control.phase == Phase::Walking,
        stays_in_walk(m, responses),
    ensures
        m.control.completed <= announced(m.after_all(responses).control),
        told(m.run(responses)) == announcements(
            m.control.platform,
            m.control.total,
            m.control.completed as nat,
            announced(m.after_all(responses).control),
        ),
    decreases responses.len(),
{
    let platform = m.control.platform;
    let total = m.control.total;
    let from = m.control.completed as nat;
    if responses.len() == 0 {
        assert(told(m.run(responses)) =~= announcements(platform, total, from, from));
    } else {
        let front = responses.drop_last();
        let last = responses.last();
        let n = front.len() as int;
        lemma_stays_front(m, responses);
        law_walk_notices(m, front);
        assert(responses.take(n) =~= front);
        assert(responses.take(n + 1) =~= responses);
        lemma_walk_run(m, responses, n);
        lemma_walk_run(m, responses, n + 1);
        let before = m.after_all(front);
        let outcome = before.outcome(last);
        assert(m.after_all(responses) == before.after(last));
        assert(m.run(responses) == m.run(front).push(outcome));
        assert(m.run(responses).drop_last() =~= m.run(front));
        assert(m.run(responses).last() == outcome);
        assert(told(m.run(responses)) == told(m.run(front)) + outcome.notices);
        lemma_walk_step_notices(before, last);
        let so_far = announced(before.control);
        assert(told(m.run(front)) == announcements(platform, total, from, so_far));
        if announced(m.after_all(responses).control) == so_far {
            assert(told(m.run(front)) + outcome.notices =~= told(m.run(front)));
        } else {
            lemma_announcements_push(platform, total, from, so_far);
            assert(told(m.run(front)) + outcome.notices =~= told(m.run(front)).push(
                announcement(platform, total, so_far),
            ));
        }
    }
}

/// Two walks of the same entries tell the front end the same: whatever
/// the disk held and whatever was fetched, two runs that take a walk from
/// the same entry to its end give the same notices.
pub proof fn law_walks_tell_the_same(m: Model, first: Seq<Response>, second: Seq<Response>)
    requires
        m.sound(),
        m.control.phase == Phase::Walking,
        stays_in_walk(m, first),
        stays_in_walk(m, second),
        m.after_all(first).control.phase == Phase::Walking,
        m.after_all(second).control.phase == Phase::Walking,
        m.after_all(first).control.cursor == m.facts.plan(m.control.platform).len(),
        m.after_all(second).control.cursor == m.facts.plan(m.control.platform).len(),
    ensures
        told(m.run(first)) == told(m.run(second)),
        told(m.run(first)) == announcements(
            m.control.platform,
            m.control.total,
            m.control.completed as nat,
            m.control.total as nat,
        ),
{
    law_walk_notices(m, first);
    law_walk_notices(m, second);
    lemma_walk_end(m, first);
    lemma_walk_end(m, second);
}

/// At the end of a walk's entries every leaf has been checked.
pub proof fn lemma_walk_end(m: Model, responses: Seq<Response>)
    requires
        m.sound(),
        stays_in_walk(m, responses),
        m.after_all(responses).control.phase == Phase::Walking,
        m.after_all(responses).control.cursor == m.facts.plan(m.control.platform).len(),
    ensures
        announced(m.after_all(responses).control) == m.control.total,
{
    lemma_walk_run(m, responses, responses.len() as int);
    assert(responses.take(responses.len() as int) =~= responses);
    let plan = m.facts.plan(m.control.platform);
    assert(plan.take(plan.len() as int) =~= plan);
}

/// How often a run asks for `request`.
pub open spec fn asked(outcomes: Seq<Outcome>, request: Request) -> nat
    decreases outcomes.len(),
{
    if outcomes.len() == 0 {
        0
    } else {
        asked(outcomes.drop_last(), request) + if outcomes.last().request == request {
            1nat
        } else {
            0nat
        }
    }
}

/// Whether a step puts a member into the open archive: the worker was
/// waiting for that, and it was done.
pub open spec fn puts_member(phase: Phase, response: Response) -> bool {
    phase == Phase::AddingMember && response == Response::Done(true)
}

/// How many members a run puts into archives.
pub open spec fn members_put(m: Model, responses: Seq<Response>) -> nat
    decreases responses.len(),
{
    if responses.len() == 0 {
        0
    } else {
        members_put(m, responses.drop_last()) + if puts_member(
            m.after_all(responses.drop_last()).control.phase,
            responses.last(),
        ) {
            1nat
        } else {
            0nat
        }
    }
}

/// How often an archive is written out that had so many members put in.
pub open spec fn times_written(put: nat) -> nat {
    if put > 0 {
        1
    } else {
        0
    }
}

/// What holds of the counts while an archive is dealt with: before it is
/// closed nothing has been written out, and it counts as changed exactly if
/// a member has been put in; while it is written out, the requests are one
/// behind the other; and once it is closed it has been written out and
/// compacted once if it was changed, and not at all if it was not.
pub open spec fn archive_counts(
    c: Control,
    open: int,
    close: int,
    finalized: nat,
    defragged: nat,
    put: nat,
) -> bool {
    if c.cursor == open {
        finalized == 0 && defragged == 0 && put == 0 && (c.phase == Phase::OpeningArchive
            ==> !c.dirty)
    } else if c.cursor <= close {
        if c.phase == Phase::Finalizing {
            finalized == 1 && defragged == 0 && put > 0
        } else if c.phase == Phase::Defragging {
            finalized == 1 && defragged == 1 && put > 0
        } else {
            finalized == 0 && defragged == 0 && (c.dirty <==> put > 0)
        }
    } else if c.cursor == close + 1 && c.phase == Phase::Walking {
        finalized == times_written(put) && defragged == times_written(put)
    } else {
        true
    }
}

/// A step inside an archive keeps the counts right.
pub proof fn lemma_archive_step(
    m: Model,
    response: Response,
    open: int,
    close: int,
    finalized: nat,
    defragged: nat,
    put: nat,
)
    requires
        m.sound(),
        walking(m.control.phase),
        walking(m.after(response).control.phase),
        archive_at(m.facts.plan(m.control.platform), open, close),
        open <= m.control.cursor,
        m.control.cursor == open ==> m.control.phase == Phase::Walking || m.control.phase
            == Phase::OpeningArchive,
        m.after(response).control.cursor <= close + 1,
        archive_counts(m.control, open, close, finalized, defragged, put),
    ensures
        open <= m.after(response).control.cursor,
        m.after(response).control.cursor == open ==> m.after(response).control.phase
            == Phase::Walking || m.after(response).control.phase == Phase::OpeningArchive,
        archive_counts(
            m.after(response).control,
            open,
            close,
            finalized + if m.outcome(response).request == Request::Finalize {
                1nat
            } else {
                0nat
            },
            defragged + if m.outcome(response).request == Request::Defrag {
                1nat
            } else {
                0nat
            },
            put + if puts_member(m.control.phase, response) {
                1nat
            } else {
                0nat
            },
        ),
{
    reveal(next);
    let plan = m.facts.plan(m.control.platform);
    lemma_leaves_bound(plan);
    if m.control.cursor < plan.len() {
        lemma_leaves_step(plan, m.control.cursor as int);
        lemma_leaves_prefix(plan, m.control.cursor + 1);
    }
}

/// While an archive is dealt with, the counts of a run are right after
/// each of its responses.
pub proof fn lemma_archive_run(
    m: Model,
    responses: Seq<Response>,
    open: int,
    close: int,
    k: int,
)
    requires
        m.sound(),
        m.control.phase == Phase::Walking,
        m.control.cursor == open,
        archive_at(m.facts.plan(m.control.platform), open, close),
        stays_in_walk(m, responses),
        m.after_all(responses).control.cursor <= close + 1,
        0 <= k <= responses.len(),
    ensures
        open <= m.after_all(responses.take(k)).control.cursor <= close + 1,
        m.after_all(responses.take(k)).control.cursor == open ==> m.after_all(
            responses.take(k),
        ).control.phase == Phase::Walking || m.after_all(responses.take(k)).control.phase
            == Phase::OpeningArchive,
        archive_counts(
            m.after_all(responses.take(k)).control,
            open,
            close,
            asked(m.run(responses.take(k)), Request::Finalize),
            asked(m.run(responses.take(k)), Request::Defrag),
            members_put(m, responses.take(k)),
        ),
    decreases k,
{
    assert(responses.take(responses.len() as int) =~= responses);
    lemma_walk_counters(m, responses, k, responses.len() as int);
    if k == 0 {
        assert(responses.take(0) =~= Seq::<Response>::empty());
    } else {
        lemma_archive_run(m, responses, open, close, k - 1);
        lemma_walk_run(m, responses, k - 1);
        lemma_walk_run(m, responses, k);
        lemma_after_all_step(m, responses, k - 1);
        let shorter = responses.take(k - 1);
        let longer = responses.take(k);
        assert(longer.drop_last() =~= shorter);
        assert(longer.last() == responses[k - 1]);
        let before = m.after_all(shorter);
        let outcome = before.outcome(responses[k - 1]);
        assert(m.run(longer) == m.run(shorter).push(outcome));
        assert(m.run(longer).drop_last() =~= m.run(shorter));
        assert(m.run(longer).last() == outcome);
        lemma_archive_step(
            before,
            responses[k - 1],
            open,
            close,
            asked(m.run(shorter), Request::Finalize),
            asked(m.run(shorter), Request::Defrag),
            members_put(m, shorter),
        );
    }
}

/// A changed archive is written out once, and an unchanged one not at
/// all: in a run that takes the walk from the entry that opens an archive
/// to the entry after the one that closes it, the worker asks once for the
/// changes to be written out and once for the archive to be compacted if a
/// member was put in, and asks for neither if none was.
pub proof fn law_archive_written_once(
    m: Model,
    responses: Seq<Response>,
    open: int,
    close: int,
)
    requires
        m.sound(),
        m.control.phase == Phase::Walking,
        m.control.cursor == open,
        archive_at(m.facts.plan(m.control.platform), open, close),
        stays_in_walk(m, responses),
        m.after_all(responses).control.phase == Phase::Walking,
        m.after_all(responses).control.cursor == close + 1,
    ensures
        asked(m.run(responses), Request::Finalize) == times_written(members_put(m, responses)),
        asked(m.run(responses), Request::Defrag) == times_written(members_put(m, responses)),
{
    lemma_archive_run(m, responses, open, close, responses.len() as int);
    assert(responses.take(responses.len() as int) =~= responses);
}

/// Every archive that a walk opens is closed further on, with nothing but
/// its members between: the entry that closes the archive at which a
/// worker stands.
pub proof fn law_every_archive_closes(m: Model) -> (close: int)
    requires
        m.sound(),
        m.control.phase == Phase::Walking,
        m.control.cursor < m.facts.plan(m.control.platform).len(),
        m.facts.plan(m.control.platform)[m.control.cursor as int] is Open,
    ensures
        archive_at(m.facts.plan(m.control.platform), m.control.cursor as int, close),
{
    let plan = m.facts.plan(m.control.platform);
    let open = m.control.cursor as int;
    assert(plan[open] is Open);
    choose|close: int| archive_at(plan, open, close)
}

/// The walk of a well-formed manifest stays below the install directory:
/// every file that it checks and every archive that it opens lies at a
/// path of safe segments.
pub proof fn law_walk_stays_in_place(
    manifest: Directory,
    tag: Seq<char>,
    patch_url: Seq<char>,
    exe: Seq<char>,
)
    requires
        well_formed(manifest),
    ensures
        all_in_place(walk_of(manifest, tag, patch_url, exe).entries()),
{
    let at = subdir_position(manifest.children@, tag);
    if at < manifest.children@.len() {
        if let FSObject::Directory(dir) = manifest.children@[at as int] {
            if let Some(root) = resolved(Some(patch_url), tag + "/"@) {
                assert(well_formed_object(manifest.children@[at as int]));
                lemma_entries_in_place(dir.children@, Seq::empty(), Some(root), exe);
            }
        }
    }
}

/// While the base game arrives, the count of its bytes only grows, and
/// each chunk is reported with the count that includes it.
pub proof fn law_transfer_moves_on(m: Model, response: Response)
    requires
        m.sound(),
        m.control.phase == Phase::Streaming,
        m.after(response).control.phase == Phase::Streaming,
    ensures
        m.control.downloaded <= m.after(response).control.downloaded,
        m.after(response).control.announced == m.control.announced,
        m.outcome(response).notices == seq![
            Notice::Transfer {
                subject: Subject::BaseGame,
                downloaded: m.after(response).control.downloaded,
                total: m.control.announced,
            },
        ],
{
    reveal(next);
}

/// Of the same announced length, the share of fewer bytes is no larger.
pub proof fn law_transfer_share_grows(fewer: u64, more: u64, total: Option<u64>)
    requires
        fewer <= more,
    ensures
        transfer_progress(fewer, total).at_most(transfer_progress(more, total)),
{
    if let Some(total) = total {
        let t = total as int;
        let a = Progress::clamped(fewer as u128, total as u128).done as int;
        let b = Progress::clamped(more as u128, total as u128).done as int;
        assert(a * t <= b * t) by (nonlinear_arith)
            requires
                a <= b,
                0 <= t,
        ;
    }
}

/// While the base game is unpacked, the count of unpacked bytes only
/// grows and never passes the total, and the members are taken in the
/// archive's order.
pub proof fn law_unpacking_moves_on(m: Model, response: Response)
    requires
        m.sound(),
        unpacking(m.control.phase),
        unpacking(m.after(response).control.phase),
    ensures
        m.after(response).facts == m.facts,
        m.after(response).control.unpack_total == m.control.unpack_total,
        m.control.unpacked <= m.after(response).control.unpacked <= m.control.unpack_total,
        m.control.member <= m.after(response).control.member <= m.control.member + 1,
        m.after(response).control.unpacked == sizes_sum(
            m.facts.members.take(m.after(response).control.member as int),
        ),
{
    reveal(next);
    lemma_after_sound(m, response);
    lemma_sizes_prefix(m.facts.members, m.control.member as int);
    if m.control.member < m.facts.members.len() {
        lemma_sizes_step(m.facts.members, m.control.member as int);
        lemma_sizes_prefix(m.facts.members, m.control.member + 1);
    }
}

/// No leaf is passed over: of every leaf that a walk has gone past, the
/// run holds the step that settled it, the step at which the leaf was
/// found as declared, or written, or put into its archive.
pub proof fn law_every_leaf_is_settled(m: Model, responses: Seq<Response>, leaf: int) -> (k: int)
    requires
        m.sound(),
        stays_in_walk(m, responses),
        m.control.cursor <= leaf < m.after_all(responses).control.cursor,
        is_leaf(m.facts.plan(m.control.platform)[leaf]),
    ensures
        0 <= k < responses.len(),
        m.after_all(responses.take(k)).control.cursor == leaf,
        settles(
            m.after_all(responses.take(k)).control.phase,
            m.facts.plan(m.control.platform)[leaf],
            responses[k],
        ),
    decreases responses.len(),
{
    let n = responses.len() as int;
    assert(responses.take(n) =~= responses);
    assert(responses.take(0) =~= Seq::<Response>::empty());
    if n == 0 {
        0
    } else {
        let front = responses.drop_last();
        assert(responses.take(n - 1) =~= front);
        lemma_stays_front(m, responses);
        if leaf < m.after_all(front).control.cursor {
            let k = law_every_leaf_is_settled(m, front, leaf);
            assert(front.take(k) =~= responses.take(k));
            k
        } else {
            lemma_walk_run(m, responses, n - 1);
            lemma_walk_run(m, responses, n);
            lemma_after_all_step(m, responses, n - 1);
            let before = m.after_all(front);
            law_walk_moves_on(before, responses[n - 1]);
            lemma_after_sound(before, responses[n - 1]);
            let plan = m.facts.plan(m.control.platform);
            lemma_leaves_step(plan, leaf);
            law_leaf_counts_when_settled(before, responses[n - 1]);
            n - 1
        }
    }
}

/// A removal or a copy is tried `RETRIES` times at most: each request to
/// remove the sidecar or to copy the binary is the first try of a routine
/// or the try after the one before, and none is later than the last.
pub proof fn law_tries_are_counted(m: Model, response: Response)
    requires
        m.sound(),
        m.outcome(response).request == Request::RemoveSidecar || m.outcome(response).request
            == Request::CopySelf,
    ensures
        1 <= m.after(response).control.attempt <= RETRIES,
        m.after(response).control.attempt == 1 || m.after(response).control.attempt
            == m.control.attempt + 1,
{
    reveal(next);
}

} // verus!
