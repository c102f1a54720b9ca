//! The worker's steps, phase by phase.
//!
//! Each function here takes the control of a worker in some phases and the
//! driver's response, and makes the turn that [`crate::machine::next`]
//! prescribes: the control after the response, the notices, the request.

use crate::installer::{extraction, lemma_sizes_prefix, lemma_sizes_step, total_size};
use crate::installer::{Extraction, ZipEntry};
use crate::machine::{
    at_close, at_file, at_member, next_archive, next_base, next_entry, next_file, next_idle,
    next_launch, next_plan, next_sidecar, next_status, next_unpack, replace_member,
    unpack_sound, walk_sound, Control, Outcome, Phase, Walk, LAUNCH_PAUSE, RETRIES,
    RETRY_PAUSE,
};
use crate::manifest::ServerStatus;
use crate::message::{Failure, GUIMessage, Notice, PatchStatus, Platform, Subject};
use crate::plan::{leaves, lemma_leaves_step, views, Entry, EntryView};
use crate::protocol::{
    error_of, patch_error, Binary, ChunkError, FetchError, Fetched, ListError, OpenError,
    PatchError, Probe, Request, Response, Target,
};
use crate::text::same_bytes;
use crate::url::text_of;
use crate::worker::Layout;
use vstd::prelude::*;

verus! {

/// A transition in the making.
pub(crate) struct Turn {
    pub(crate) control: Control,
    pub(crate) notices: Vec<Notice>,
    pub(crate) request: Request,
}

impl Turn {
    /// Whether this turn is what `outcome` says.
    pub(crate) open spec fn is(self, outcome: Outcome) -> bool {
        &&& self.control == outcome.control
        &&& self.notices@ =~= outcome.notices
        &&& self.request == outcome.request
    }
}

pub(crate) fn go(c: Control, phase: Phase, notices: Vec<Notice>, request: Request) -> (turn: Turn)
    ensures
        turn.is(c.go(phase, notices@, request)),
{
    Turn { control: Control { phase, ..c }, notices, request }
}

pub(crate) fn fail(c: Control, error: PatchError, notices: Vec<Notice>) -> (turn: Turn)
    ensures
        turn.is(c.fail(error, notices@)),
{
    let mut notices = notices;
    notices.push(Notice::Status(PatchStatus::Error));
    Turn {
        control: Control { phase: Phase::Idle, error: Some(error), ..c },
        notices,
        request: Request::Receive,
    }
}

pub(crate) fn disorder(c: Control) -> (turn: Turn)
    ensures
        turn.is(c.fail(PatchError::Disorder, seq![])),
{
    fail(c, PatchError::Disorder, Vec::new())
}

pub(crate) fn fail_walk(c: Control, error: PatchError) -> (turn: Turn)
    ensures
        turn.is(c.fail_walk(error)),
{
    fail(c, error, vec![Notice::Failed(Failure::CheckLocalFiles)])
}

/// A download of the walk has come back: where it did not arrive, the walk
/// ends, and the front end hears of both.
pub(crate) fn download_patched_file(c: Control, error: &FetchError) -> (turn: Turn)
    ensures
        turn.is(c.fail_download(error_of(*error))),
{
    fail(
        c,
        patch_error(error),
        vec![Notice::Failed(Failure::GetPatchedFile), Notice::Failed(Failure::CheckLocalFiles)],
    )
}

pub(crate) fn ask_status(c: Control) -> (turn: Turn)
    ensures
        turn.is(c.ask_status()),
{
    go(c, Phase::AwaitStatus, vec![Notice::CheckingServer], Request::FetchStatus)
}

pub(crate) fn ask_manifest(c: Control, notices: Vec<Notice>) -> (turn: Turn)
    ensures
        turn.is(c.ask_manifest(notices@)),
{
    go(c, Phase::AwaitManifest, notices, Request::FetchManifest)
}

pub(crate) fn leaf_done(c: Control) -> (turn: Turn)
    requires
        c.completed < usize::MAX,
        c.cursor < usize::MAX,
    ensures
        turn.is(c.leaf_done()),
{
    go(
        Control { completed: c.completed + 1, cursor: c.cursor + 1, ..c },
        Phase::Walking,
        Vec::new(),
        Request::Continue,
    )
}

pub(crate) fn entry_done(c: Control) -> (turn: Turn)
    requires
        c.cursor < usize::MAX,
    ensures
        turn.is(c.entry_done()),
{
    go(Control { cursor: c.cursor + 1, ..c }, Phase::Walking, Vec::new(), Request::Continue)
}

pub(crate) fn finish(c: Control, notices: Vec<Notice>) -> (turn: Turn)
    ensures
        turn.is(c.finish(notices@)),
{
    let mut notices = notices;
    notices.push(Notice::Status(PatchStatus::Finished));
    if c.updated {
        go(c, Phase::StartingUpdated, notices, Request::Spawn { binary: Binary::Updated })
    } else {
        go(c, Phase::Idle, notices, Request::Receive)
    }
}

pub(crate) fn advance(c: Control, notices: Vec<Notice>) -> (turn: Turn)
    ensures
        turn.is(c.advance(notices@)),
{
    match c.platform {
        Platform::All => go(
            Control { platform: Platform::Host, ..c },
            Phase::Planning,
            notices,
            Request::Continue,
        ),
        Platform::Host => finish(c, notices),
    }
}

pub(crate) fn checking(c: Control) -> (notice: Notice)
    ensures
        notice == c.checking(),
{
    Notice::CheckingFile { completed: c.completed, total: c.total, platform: c.platform }
}

/// A patch routine begins.
pub(crate) fn patch_routine(c: Control) -> (turn: Turn)
    ensures
        turn.is(c.start()),
{
    let fresh = Control { error: None, checked: 0, attempt: 1, ..c };
    if c.replacement {
        go(fresh, Phase::CopyingSelf, vec![Notice::Status(PatchStatus::Working)], Request::CopySelf)
    } else {
        go(
            fresh,
            Phase::ProbingSidecar,
            vec![Notice::Status(PatchStatus::Working)],
            Request::ProbeSidecar,
        )
    }
}

/// The front end has spoken, or is gone.
pub(crate) fn main_loop(c: Control, response: &Response) -> (turn: Turn)
    ensures
        turn.is(next_idle(c, *response)),
{
    match response {
        Response::Inbox(Some(GUIMessage::Retry)) => patch_routine(c),
        Response::Inbox(Some(GUIMessage::Play)) => go(
            c,
            Phase::Launching,
            vec![Notice::LaunchingGame],
            Request::LaunchGame,
        ),
        Response::Inbox(None) => go(c, Phase::Stopped, Vec::new(), Request::Stop),
        _ => disorder(c),
    }
}

/// A regular binary looks for a sidecar that is left over and removes it.
pub(crate) fn remove_aecoupdate_file(c: Control, response: &Response) -> (turn: Turn)
    requires
        c.phase == Phase::ProbingSidecar || c.phase == Phase::RemovingSidecar || c.phase
            == Phase::RemovalPause,
        c.phase == Phase::RemovalPause ==> c.attempt < RETRIES,
    ensures
        turn.is(next_sidecar(c, *response)),
{
    match c.phase {
        Phase::ProbingSidecar => match response {
            Response::Exists(false) => ask_status(c),
            Response::Exists(true) => go(
                c,
                Phase::RemovingSidecar,
                Vec::new(),
                Request::RemoveSidecar,
            ),
            _ => disorder(c),
        },
        Phase::RemovingSidecar => match response {
            Response::Done(true) => ask_status(c),
            Response::Done(false) => if c.attempt >= RETRIES {
                fail(
                    c,
                    PatchError::SelfReplace,
                    vec![Notice::Failed(Failure::RemoveTemporaryLauncher)],
                )
            } else {
                go(c, Phase::RemovalPause, Vec::new(), Request::Sleep { millis: RETRY_PAUSE })
            },
            _ => disorder(c),
        },
        _ => match response {
            Response::Continued => go(
                Control { attempt: c.attempt + 1, ..c },
                Phase::RemovingSidecar,
                Vec::new(),
                Request::RemoveSidecar,
            ),
            _ => disorder(c),
        },
    }
}

/// The worker deals with its sidecar: a sidecar copies itself over the
/// regular binary and starts it, a regular binary removes what is left of
/// a sidecar.
pub(crate) fn check_patcher_aecoupdate(c: Control, response: &Response) -> (turn: Turn)
    requires
        c.phase == Phase::ProbingSidecar || c.phase == Phase::RemovingSidecar || c.phase
            == Phase::RemovalPause || c.phase == Phase::CopyingSelf || c.phase
            == Phase::CopyPause || c.phase == Phase::StartingRestored,
        (c.phase == Phase::RemovalPause || c.phase == Phase::CopyPause) ==> c.attempt < RETRIES,
    ensures
        turn.is(next_sidecar(c, *response)),
{
    match c.phase {
        Phase::CopyingSelf => match response {
            Response::Done(true) => go(
                c,
                Phase::StartingRestored,
                Vec::new(),
                Request::Spawn { binary: Binary::Restored },
            ),
            Response::Done(false) => if c.attempt >= RETRIES {
                fail(c, PatchError::SelfReplace, vec![Notice::Failed(Failure::OverwritePatcher)])
            } else {
                go(c, Phase::CopyPause, Vec::new(), Request::Sleep { millis: RETRY_PAUSE })
            },
            _ => disorder(c),
        },
        Phase::CopyPause => match response {
            Response::Continued => go(
                Control { attempt: c.attempt + 1, ..c },
                Phase::CopyingSelf,
                Vec::new(),
                Request::CopySelf,
            ),
            _ => disorder(c),
        },
        Phase::StartingRestored => match response {
            Response::Done(true) => go(c, Phase::Exited, Vec::new(), Request::Exit),
            Response::Done(false) => fail(
                c,
                PatchError::Launch,
                vec![Notice::Failed(Failure::StartOverwrittenLauncher)],
            ),
            _ => disorder(c),
        },
        _ => remove_aecoupdate_file(c, response),
    }
}

/// The server's status has come back.
pub(crate) fn download_server_status(c: Control, response: &Response) -> (turn: Turn)
    ensures
        turn.is(next_status(c, *response)),
{
    match response {
        Response::Status(Fetched::Failed(error)) => fail(
            c,
            patch_error(error),
            vec![Notice::Failed(Failure::GetServerStatus)],
        ),
        Response::Status(Fetched::Undecodable(_)) => fail(
            c,
            PatchError::Parse,
            vec![Notice::Failed(Failure::ParseServerStatus)],
        ),
        Response::Status(Fetched::Decoded(ServerStatus::Online)) => go(
            c,
            Phase::AwaitGame,
            vec![Notice::ServerOnline, Notice::CheckingInstallation],
            Request::ProbeGame,
        ),
        Response::Status(Fetched::Decoded(ServerStatus::Maintenance)) => fail(
            c,
            PatchError::ServerMaintenance,
            vec![Notice::ServerDown],
        ),
        _ => disorder(c),
    }
}

/// The base game is fetched into a temporary file, chunk by chunk.
pub(crate) fn download_base(c: Control, response: &Response) -> (turn: Turn)
    requires
        c.phase == Phase::OpeningBase || c.phase == Phase::Streaming,
    ensures
        turn.is(next_base(c, *response)),
{
    match c.phase {
        Phase::OpeningBase => match response {
            Response::BaseOpened(Ok(announced)) => go(
                Control { downloaded: 0, announced: *announced, ..c },
                Phase::Streaming,
                Vec::new(),
                Request::NextChunk,
            ),
            Response::BaseOpened(Err(OpenError::Send)) => fail(
                c,
                PatchError::Transport,
                vec![Notice::Failed(Failure::DownloadGameBase)],
            ),
            Response::BaseOpened(Err(OpenError::Status(code))) => fail(
                c,
                PatchError::HttpStatus(*code),
                vec![Notice::Failed(Failure::DownloadGameBase)],
            ),
            Response::BaseOpened(Err(OpenError::TempFile)) => fail(
                c,
                PatchError::Io,
                vec![Notice::Failed(Failure::CreateGameBase)],
            ),
            _ => disorder(c),
        },
        _ => match response {
            Response::Chunk(Ok(Some(len))) => match c.downloaded.checked_add(*len) {
                Some(downloaded) => go(
                    Control { downloaded, ..c },
                    Phase::Streaming,
                    vec![
                        Notice::Transfer {
                            subject: Subject::BaseGame,
                            downloaded,
                            total: c.announced,
                        },
                    ],
                    Request::NextChunk,
                ),
                None => fail(
                    c,
                    PatchError::SizeOverflow,
                    vec![Notice::Failed(Failure::ReadBaseStream)],
                ),
            },
            Response::Chunk(Ok(None)) => go(
                c,
                Phase::OpeningZip,
                vec![Notice::BaseDownloaded],
                Request::OpenZip,
            ),
            Response::Chunk(Err(ChunkError::Stream)) => fail(
                c,
                PatchError::Transport,
                vec![Notice::Failed(Failure::ReadBaseStream)],
            ),
            Response::Chunk(Err(ChunkError::Write)) => fail(
                c,
                PatchError::Io,
                vec![Notice::Failed(Failure::WriteBase)],
            ),
            _ => disorder(c),
        },
    }
}

/// The game is installed, or the base game is fetched first.
pub(crate) fn ensure_game_installed(c: Control, response: &Response) -> (turn: Turn)
    requires
        c.phase == Phase::AwaitGame || c.phase == Phase::OpeningBase || c.phase
            == Phase::Streaming,
    ensures
        turn.is(next_base(c, *response)),
{
    match c.phase {
        Phase::AwaitGame => match response {
            Response::Exists(true) => ask_manifest(c, Vec::new()),
            Response::Exists(false) => go(c, Phase::OpeningBase, Vec::new(), Request::OpenBase),
            _ => disorder(c),
        },
        _ => download_base(c, response),
    }
}

/// The base game is unpacked, member by member.
pub(crate) fn unpack_base(c: Control, members: &Vec<ZipEntry>, response: &Response) -> (turn: Turn)
    requires
        c.phase == Phase::OpeningZip || c.phase == Phase::Unpacking || c.phase
            == Phase::Extracting,
        unpack_sound(c, members@),
    ensures
        turn.is(next_unpack(c, members@, *response)),
{
    match c.phase {
        Phase::OpeningZip => match response {
            Response::ZipListed(Ok(listed)) => go(
                Control { member: 0, unpacked: 0, unpack_total: total_size(listed), ..c },
                Phase::Unpacking,
                vec![Notice::ExtractingBase],
                Request::Continue,
            ),
            Response::ZipListed(Err(ListError::Open)) => fail(
                c,
                PatchError::Io,
                vec![Notice::Failed(Failure::ExtractBase)],
            ),
            Response::ZipListed(Err(ListError::Read)) => fail(
                c,
                PatchError::Io,
                vec![Notice::ExtractingBase, Notice::Failed(Failure::ReadBase)],
            ),
            _ => disorder(c),
        },
        Phase::Unpacking => match response {
            Response::Continued => if c.member >= members.len() {
                ask_manifest(c, vec![Notice::BaseInstalled])
            } else {
                let announce = Notice::ExtractingFile {
                    index: c.member,
                    count: members.len(),
                    done: c.unpacked,
                    total: c.unpack_total,
                };
                let member = &members[c.member];
                match extraction(member, c.style) {
                    Extraction::Refuse => fail(
                        c,
                        PatchError::UnsafeArchivePath,
                        vec![announce, Notice::Failed(Failure::InvalidFilePath)],
                    ),
                    Extraction::Directory => go(
                        c,
                        Phase::Extracting,
                        vec![announce],
                        Request::CreateDirectory { member: c.member, mode: member.unix_mode },
                    ),
                    Extraction::RegularFile => go(
                        c,
                        Phase::Extracting,
                        vec![announce],
                        Request::ExtractFile { member: c.member, mode: member.unix_mode },
                    ),
                }
            },
            _ => disorder(c),
        },
        _ => match response {
            Response::Done(true) => {
                assert(c.member < members.len());
                proof {
                    lemma_sizes_step(members@, c.member as int);
                    lemma_sizes_prefix(members@, c.member + 1);
                }
                go(
                    Control {
                        member: c.member + 1,
                        unpacked: c.unpacked + members[c.member].size as u128,
                        ..c
                    },
                    Phase::Unpacking,
                    Vec::new(),
                    Request::Continue,
                )
            },
            Response::Done(false) => fail(
                c,
                PatchError::Io,
                vec![Notice::Failed(Failure::ExtractBase)],
            ),
            _ => disorder(c),
        },
    }
}

pub(crate) fn leaf_total(plan: &Vec<Entry>) -> (total: usize)
    ensures
        total == leaves(views(plan@)),
{
    let mut total: usize = 0;
    let mut i: usize = 0;
    assert(views(plan@).take(0) =~= Seq::<EntryView>::empty());
    while i < plan.len()
        invariant
            i <= plan@.len(),
            total == leaves(views(plan@).take(i as int)),
            total <= i,
        decreases plan@.len() - i,
    {
        proof {
            lemma_leaves_step(views(plan@), i as int);
        }
        match &plan[i] {
            Entry::File { .. } => {
                total += 1;
            },
            Entry::Member { .. } => {
                total += 1;
            },
            _ => {},
        }
        i += 1;
    }
    assert(views(plan@).take(i as int) =~= views(plan@));
    total
}

/// The manifest has come back.
pub(crate) fn download_patch_metadata(c: Control, response: &Response) -> (turn: Turn)
    requires
        c.phase == Phase::AwaitManifest,
    ensures
        forall|upcoming: Walk| turn.is(#[trigger] next_plan(c, upcoming, *response)),
{
    match response {
        Response::Manifest(Fetched::Failed(error)) => fail(
            c,
            patch_error(error),
            vec![Notice::Failed(Failure::GetPatchData)],
        ),
        Response::Manifest(Fetched::Undecodable(_)) => fail(
            c,
            PatchError::Parse,
            vec![Notice::Failed(Failure::ParsePatchData)],
        ),
        Response::Manifest(Fetched::Decoded(_)) => go(
            Control { platform: Platform::All, checked: 0, ..c },
            Phase::Planning,
            Vec::new(),
            Request::Continue,
        ),
        _ => disorder(c),
    }
}

/// The walk of the next platform begins, if the manifest has one for it.
pub(crate) fn check_platform_patches(
    c: Control,
    upcoming: &Layout,
    response: &Response,
) -> (turn: Turn)
    requires
        c.phase == Phase::Planning,
    ensures
        turn.is(next_plan(c, upcoming@, *response)),
{
    match response {
        Response::Continued => match upcoming {
            Layout::Missing => advance(c, Vec::new()),
            Layout::Unrooted => fail_walk(c, PatchError::Url),
            Layout::Planned(plan) => go(
                Control { cursor: 0, completed: 0, total: leaf_total(plan), dirty: false, ..c },
                Phase::Walking,
                Vec::new(),
                Request::Continue,
            ),
        },
        _ => disorder(c),
    }
}

/// The walk turns to its next entry.
pub(crate) fn walk(c: Control, plan: &Vec<Entry>) -> (turn: Turn)
    requires
        c.phase == Phase::Walking,
        walk_sound(c, views(plan@)),
        c.checked <= usize::MAX,
    ensures
        turn.is(next_entry(c, views(plan@))),
{
    if c.cursor >= plan.len() {
        advance(
            Control { checked: c.checked + c.completed as u128, ..c },
            vec![Notice::FilesChecked { total: c.total }],
        )
    } else {
        match &plan[c.cursor] {
            Entry::Enter { url } => if url.is_none() {
                fail_walk(c, PatchError::Url)
            } else {
                entry_done(c)
            },
            Entry::File { url, .. } => if url.is_none() {
                fail_walk(c, PatchError::Url)
            } else {
                go(c, Phase::Probing, vec![checking(c)], Request::ProbeFile { entry: c.cursor })
            },
            Entry::Open { url, .. } => if url.is_none() {
                fail_walk(c, PatchError::Url)
            } else {
                go(
                    Control { dirty: false, opened: c.cursor, ..c },
                    Phase::OpeningArchive,
                    Vec::new(),
                    Request::OpenArchive { entry: c.cursor },
                )
            },
            Entry::Member { .. } => go(
                c,
                Phase::ReadingMember,
                vec![checking(c)],
                Request::ReadMember { entry: c.cursor },
            ),
            Entry::Close => if c.dirty {
                go(c, Phase::Finalizing, Vec::new(), Request::Finalize)
            } else {
                entry_done(c)
            },
        }
    }
}

/// A file of the walk is checked, and fetched and written where it is not
/// what it must be.
pub(crate) fn check_patches_file(c: Control, entry: &Entry, response: &Response) -> (turn: Turn)
    requires
        at_file(c.phase),
        c.completed < usize::MAX,
        c.cursor < usize::MAX,
    ensures
        turn.is(next_file(c, entry@, *response)),
{
    match entry {
        Entry::File { digest, is_self, .. } => match c.phase {
            Phase::Probing => match response {
                Response::Probed(Probe::Missing) => go(
                    c,
                    Phase::Fetching(Target::InPlace),
                    Vec::new(),
                    Request::Download { entry: c.cursor },
                ),
                Response::Probed(Probe::Unreadable) => fail_walk(c, PatchError::Io),
                Response::Probed(Probe::Present(found)) => if same_bytes(found, digest) {
                    leaf_done(c)
                } else {
                    let target = if *is_self {
                        Target::Sidecar
                    } else {
                        Target::InPlace
                    };
                    go(
                        c,
                        Phase::Fetching(target),
                        Vec::new(),
                        Request::Download { entry: c.cursor },
                    )
                },
                _ => disorder(c),
            },
            Phase::Fetching(target) => match response {
                Response::Fetched(Ok(_)) => go(
                    c,
                    Phase::Writing(target),
                    Vec::new(),
                    Request::WriteFile { entry: c.cursor, target },
                ),
                Response::Fetched(Err(error)) => download_patched_file(c, error),
                _ => disorder(c),
            },
            Phase::Writing(target) => match response {
                Response::Done(true) => leaf_done(
                    Control { updated: c.updated || target == Target::Sidecar, ..c },
                ),
                Response::Done(false) => fail_walk(c, PatchError::Io),
                _ => disorder(c),
            },
            _ => disorder(c),
        },
        _ => disorder(c),
    }
}

pub(crate) fn replace(c: Control, url: &Option<String>) -> (turn: Turn)
    ensures
        turn.is(replace_member(c, text_of(*url))),
{
    if url.is_none() {
        fail_walk(c, PatchError::Url)
    } else {
        go(c, Phase::FetchingMember, Vec::new(), Request::Download { entry: c.cursor })
    }
}

/// An archive of the walk is opened, its members are checked and replaced
/// where they are not what they must be, and it is written out if that
/// changed it.
pub(crate) fn check_patches_archive(c: Control, entry: &Entry, response: &Response) -> (turn: Turn)
    requires
        c.phase == Phase::OpeningArchive || at_member(c.phase) || at_close(c.phase),
        c.completed < usize::MAX,
        c.cursor < usize::MAX,
    ensures
        turn.is(next_archive(c, entry@, *response)),
{
    match entry {
        Entry::Open { .. } => match (c.phase, response) {
            (Phase::OpeningArchive, Response::Done(true)) => entry_done(c),
            (Phase::OpeningArchive, Response::Done(false)) => fail_walk(
                c,
                PatchError::ArchiveRead { archive: c.opened },
            ),
            _ => disorder(c),
        },
        Entry::Member { digest, url, .. } => match c.phase {
            Phase::ReadingMember => match response {
                Response::Probed(Probe::Present(found)) => if same_bytes(found, digest) {
                    leaf_done(c)
                } else {
                    replace(c, url)
                },
                Response::Probed(Probe::Missing) => replace(c, url),
                Response::Probed(Probe::Unreadable) => fail_walk(
                    c,
                    PatchError::ArchiveRead { archive: c.opened },
                ),
                _ => disorder(c),
            },
            Phase::FetchingMember => match response {
                Response::Fetched(Ok(_)) => go(
                    c,
                    Phase::AddingMember,
                    Vec::new(),
                    Request::AddMember { entry: c.cursor },
                ),
                Response::Fetched(Err(error)) => download_patched_file(c, error),
                _ => disorder(c),
            },
            Phase::AddingMember => match response {
                Response::Done(true) => leaf_done(Control { dirty: true, ..c }),
                Response::Done(false) => fail_walk(
                    c,
                    PatchError::ArchiveWrite { archive: c.opened },
                ),
                _ => disorder(c),
            },
            _ => disorder(c),
        },
        Entry::Close => match (c.phase, response) {
            (Phase::Finalizing, Response::Done(true)) => go(
                c,
                Phase::Defragging,
                Vec::new(),
                Request::Defrag,
            ),
            (Phase::Finalizing, Response::Done(false)) => fail_walk(
                c,
                PatchError::ArchiveWrite { archive: c.opened },
            ),
            (Phase::Defragging, Response::Done(true)) => entry_done(
                Control { dirty: false, ..c },
            ),
            (Phase::Defragging, Response::Done(false)) => fail_walk(
                c,
                PatchError::ArchiveWrite { archive: c.opened },
            ),
            _ => disorder(c),
        },
        _ => disorder(c),
    }
}

/// A binary or the game is started.
pub(crate) fn start_game(c: Control, response: &Response) -> (turn: Turn)
    requires
        c.phase == Phase::StartingUpdated || c.phase == Phase::Launching || c.phase
            == Phase::LaunchPause,
    ensures
        turn.is(next_launch(c, *response)),
{
    match (c.phase, response) {
        (Phase::StartingUpdated, Response::Done(true)) => go(
            c,
            Phase::Exited,
            Vec::new(),
            Request::Exit,
        ),
        (Phase::StartingUpdated, Response::Done(false)) => fail(
            c,
            PatchError::Launch,
            vec![Notice::Failed(Failure::StartUpdatedLauncher)],
        ),
        (Phase::Launching, Response::Done(true)) => go(
            c,
            Phase::LaunchPause,
            Vec::new(),
            Request::Sleep { millis: LAUNCH_PAUSE },
        ),
        (Phase::Launching, Response::Done(false)) => fail(c, PatchError::Launch, Vec::new()),
        (Phase::LaunchPause, Response::Continued) => go(
            c,
            Phase::Stopped,
            vec![Notice::Status(PatchStatus::GameLaunched)],
            Request::Stop,
        ),
        _ => disorder(c),
    }
}

} // verus!
