//! The worker's transitions.
//!
//! A worker is in one [`Phase`] at a time and keeps a handful of counters
//! beside it: together they are its [`Control`]. [`next`] says where a
//! response takes it: the control after the response, the notices for the
//! front end, and the request for the driver. Nothing else decides what the
//! worker does.

use crate::installer::{extraction_of, sizes_sum, Extraction, ZipEntry};
use crate::manifest::ServerStatus;
use crate::message::{Failure, GUIMessage, Notice, PatchStatus, Platform, Subject};
use crate::installer::{lemma_sizes_fit, lemma_sizes_prefix, lemma_sizes_step};
use crate::paths::PathStyle;
use crate::plan::{archives_in_a_row, in_archive, leaves, lemma_follows, members_follow};
use crate::plan::{open_since, EntryView};
use crate::plan::{lemma_leaves_bound, lemma_leaves_prefix, lemma_leaves_step};
use crate::protocol::{
    error_of, Binary, ChunkError, Fetched, ListError, OpenError, PatchError, Probe, Request,
    Response, Target,
};
use vstd::prelude::*;

verus! {

/// Where the worker stands.
#[derive(Clone, Copy, Debug, PartialEq, Eq, Structural)]
pub enum Phase {
    /// Between routines: waiting for the front end.
    Idle,
    /// Asking whether a sidecar is left over.
    ProbingSidecar,
    /// Removing the sidecar that is left over.
    RemovingSidecar,
    /// Waiting before the sidecar's removal is tried again.
    RemovalPause,
    /// Running as the sidecar: copying itself over the regular binary.
    CopyingSelf,
    /// Waiting before the copy is tried again.
    CopyPause,
    /// Starting the regular binary that was just restored.
    StartingRestored,
    /// Waiting for the server's status.
    AwaitStatus,
    /// Asking whether the game is installed.
    AwaitGame,
    /// Waiting for the base game's transfer to begin.
    OpeningBase,
    /// Taking the base game chunk by chunk.
    Streaming,
    /// Waiting for the list of the base game's members.
    OpeningZip,
    /// About to turn to the next member of the base game.
    Unpacking,
    /// Waiting for a member to be unpacked.
    Extracting,
    /// Waiting for the manifest.
    AwaitManifest,
    /// About to lay out the walk of the next platform.
    Planning,
    /// About to turn to the next entry of the walk.
    Walking,
    /// Waiting to hear what is in a file's place.
    Probing,
    /// Waiting for a file's download, to be written to the target.
    Fetching(Target),
    /// Waiting for a file to be written to the target.
    Writing(Target),
    /// Waiting for an archive to open.
    OpeningArchive,
    /// Waiting to hear what is in a member's place.
    ReadingMember,
    /// Waiting for a member's download.
    FetchingMember,
    /// Waiting for a member to be put into the archive.
    AddingMember,
    /// Waiting for the archive's changes to be written out.
    Finalizing,
    /// Waiting for the archive to be compacted.
    Defragging,
    /// Starting the updated binary from its sidecar.
    StartingUpdated,
    /// Waiting for the game to start.
    Launching,
    /// Giving the started game time to take over.
    LaunchPause,
    /// The process is to end: another binary has taken over.
    Exited,
    /// The worker is to end.
    Stopped,
}

/// The phase and the counters that a worker decides by.
#[derive(Clone, Copy, Debug, PartialEq, Eq, Structural)]
pub struct Control {
    pub phase: Phase,
    /// Whether the running binary is a sidecar.
    pub replacement: bool,
    /// How the host reads paths.
    pub style: PathStyle,
    /// How often the current removal or copy has been tried.
    pub attempt: u8,
    /// Bytes of the base game that have arrived.
    pub downloaded: u64,
    /// The length that the server announced for the base game.
    pub announced: Option<u64>,
    /// The member of the base game that is next.
    pub member: usize,
    /// Bytes of the base game that have been unpacked.
    pub unpacked: u128,
    /// Bytes of the base game in all.
    pub unpack_total: u128,
    /// The platform whose subtree is walked.
    pub platform: Platform,
    /// The entry of the walk that is next.
    pub cursor: usize,
    /// Leaves of the walk that have been checked.
    pub completed: usize,
    /// Leaves of the walk in all.
    pub total: usize,
    /// Whether the open archive has been changed.
    pub dirty: bool,
    /// The entry that opened the open archive.
    pub opened: usize,
    /// Leaves checked in the walks of this routine that are over.
    pub checked: u128,
    /// Whether a walk has written a new binary to the sidecar.
    pub updated: bool,
    /// Why the last routine ended early, if it did.
    pub error: Option<PatchError>,
}

/// Where a response takes the worker.
pub struct Outcome {
    /// The control after the response.
    pub control: Control,
    /// What the front end is told, in order.
    pub notices: Seq<Notice>,
    /// What the driver is asked to do next.
    pub request: Request,
}

/// What a manifest holds for a platform.
pub enum Walk {
    /// No subtree of that name: the platform is passed over.
    Missing,
    /// A subtree whose URL does not resolve.
    Unrooted,
    /// A subtree, laid out as these entries.
    Planned(Seq<EntryView>),
}

impl Walk {
    /// The entries of the walk; none where there is no walk.
    pub open spec fn entries(self) -> Seq<EntryView> {
        match self {
            Walk::Planned(entries) => entries,
            _ => Seq::empty(),
        }
    }
}

/// What a transition reads beside the control and the response.
pub struct Facts {
    /// The members of the base game's archive.
    pub members: Seq<ZipEntry>,
    /// What the manifest holds for every platform.
    pub all: Walk,
    /// What the manifest holds for the host's platform.
    pub host: Walk,
}

impl Facts {
    /// What the manifest holds for `platform`.
    pub open spec fn walk(self, platform: Platform) -> Walk {
        match platform {
            Platform::All => self.all,
            Platform::Host => self.host,
        }
    }

    /// The entries of the walk of `platform`.
    pub open spec fn plan(self, platform: Platform) -> Seq<EntryView> {
        self.walk(platform).entries()
    }
}

/// How often a removal or a copy is tried.
pub const RETRIES: u8 = 5;

/// Milliseconds between two tries.
pub const RETRY_PAUSE: u64 = 250;

/// Milliseconds that a started game is given.
pub const LAUNCH_PAUSE: u64 = 3000;

impl Control {
    /// The control of a worker that has not begun, for a binary that is a
    /// sidecar or not, on a host that reads paths in the given style.
    pub open spec fn initial(replacement: bool, style: PathStyle) -> Control {
        Control {
            phase: Phase::Idle,
            replacement,
            style,
            attempt: 0,
            downloaded: 0,
            announced: None,
            member: 0,
            unpacked: 0,
            unpack_total: 0,
            platform: Platform::All,
            cursor: 0,
            completed: 0,
            total: 0,
            dirty: false,
            opened: 0,
            checked: 0,
            updated: false,
            error: None,
        }
    }

    /// The worker moves to `phase`, tells the front end `notices` and asks
    /// for `request`.
    pub open spec fn go(self, phase: Phase, notices: Seq<Notice>, request: Request) -> Outcome {
        Outcome { control: Control { phase, ..self }, notices, request }
    }

    /// The routine ends early: after `notices` the front end is told that it
    /// failed, and the worker waits for the front end again.
    pub open spec fn fail(self, error: PatchError, notices: Seq<Notice>) -> Outcome {
        Outcome {
            control: Control { phase: Phase::Idle, error: Some(error), ..self },
            notices: notices.push(Notice::Status(PatchStatus::Error)),
            request: Request::Receive,
        }
    }

    /// The walk ends early.
    pub open spec fn fail_walk(self, error: PatchError) -> Outcome {
        self.fail(error, seq![Notice::Failed(Failure::CheckLocalFiles)])
    }

    /// A download of the walk did not arrive.
    pub open spec fn fail_download(self, error: PatchError) -> Outcome {
        self.fail(
            error,
            seq![Notice::Failed(Failure::GetPatchedFile), Notice::Failed(Failure::CheckLocalFiles)],
        )
    }

    /// A patch routine begins. A sidecar first copies itself over the
    /// regular binary; a regular binary first looks for a sidecar that is
    /// left over.
    pub open spec fn start(self) -> Outcome {
        let fresh = Control { error: None, checked: 0, attempt: 1, ..self };
        if self.replacement {
            fresh.go(
                Phase::CopyingSelf,
                seq![Notice::Status(PatchStatus::Working)],
                Request::CopySelf,
            )
        } else {
            fresh.go(
                Phase::ProbingSidecar,
                seq![Notice::Status(PatchStatus::Working)],
                Request::ProbeSidecar,
            )
        }
    }

    /// The sidecar is dealt with: the server is asked for its status.
    pub open spec fn ask_status(self) -> Outcome {
        self.go(Phase::AwaitStatus, seq![Notice::CheckingServer], Request::FetchStatus)
    }

    /// The game is installed: the manifest is fetched.
    pub open spec fn ask_manifest(self, notices: Seq<Notice>) -> Outcome {
        self.go(Phase::AwaitManifest, notices, Request::FetchManifest)
    }

    /// A leaf is done: it counts, and the walk turns to the next entry.
    pub open spec fn leaf_done(self) -> Outcome {
        Control {
            completed: (self.completed + 1) as usize,
            cursor: (self.cursor + 1) as usize,
            ..self
        }.go(Phase::Walking, seq![], Request::Continue)
    }

    /// An entry that is no leaf is done: the walk turns to the next entry.
    pub open spec fn entry_done(self) -> Outcome {
        Control { cursor: (self.cursor + 1) as usize, ..self }.go(
            Phase::Walking,
            seq![],
            Request::Continue,
        )
    }

    /// All walks are over: the routine has finished. Where a walk has
    /// written a new binary to the sidecar, that binary is started.
    pub open spec fn finish(self, notices: Seq<Notice>) -> Outcome {
        if self.updated {
            self.go(
                Phase::StartingUpdated,
                notices.push(Notice::Status(PatchStatus::Finished)),
                Request::Spawn { binary: Binary::Updated },
            )
        } else {
            self.go(
                Phase::Idle,
                notices.push(Notice::Status(PatchStatus::Finished)),
                Request::Receive,
            )
        }
    }

    /// The walk of a platform is over or was passed over: the next platform
    /// is laid out, or the routine finishes.
    pub open spec fn advance(self, notices: Seq<Notice>) -> Outcome {
        match self.platform {
            Platform::All => Control { platform: Platform::Host, ..self }.go(
                Phase::Planning,
                notices,
                Request::Continue,
            ),
            Platform::Host => self.finish(notices),
        }
    }

    /// The notice that a leaf is about to be checked.
    pub open spec fn checking(self) -> Notice {
        Notice::CheckingFile {
            completed: self.completed,
            total: self.total,
            platform: self.platform,
        }
    }
}

/// Where the front end's message takes an idle worker.
pub open spec fn next_idle(c: Control, response: Response) -> Outcome {
    match response {
        Response::Inbox(Some(GUIMessage::Retry)) => c.start(),
        Response::Inbox(Some(GUIMessage::Play)) => c.go(
            Phase::Launching,
            seq![Notice::LaunchingGame],
            Request::LaunchGame,
        ),
        Response::Inbox(None) => c.go(Phase::Stopped, seq![], Request::Stop),
        _ => c.fail(PatchError::Disorder, seq![]),
    }
}

/// Where a response takes a worker that is dealing with its sidecar.
///
/// A regular binary removes a sidecar that is left over; a sidecar copies
/// itself over the regular binary, starts that one and ends. Removal and
/// copy are tried up to `RETRIES` times with a pause between two tries.
pub open spec fn next_sidecar(c: Control, response: Response) -> Outcome {
    match (c.phase, response) {
        (Phase::ProbingSidecar, Response::Exists(false)) => c.ask_status(),
        (Phase::ProbingSidecar, Response::Exists(true)) => c.go(
            Phase::RemovingSidecar,
            seq![],
            Request::RemoveSidecar,
        ),
        (Phase::RemovingSidecar, Response::Done(true)) => c.ask_status(),
        (Phase::RemovingSidecar, Response::Done(false)) => if c.attempt >= RETRIES {
            c.fail(PatchError::SelfReplace, seq![Notice::Failed(Failure::RemoveTemporaryLauncher)])
        } else {
            c.go(Phase::RemovalPause, seq![], Request::Sleep { millis: RETRY_PAUSE })
        },
        (Phase::RemovalPause, Response::Continued) => Control {
            attempt: (c.attempt + 1) as u8,
            ..c
        }.go(Phase::RemovingSidecar, seq![], Request::RemoveSidecar),
        (Phase::CopyingSelf, Response::Done(true)) => c.go(
            Phase::StartingRestored,
            seq![],
            Request::Spawn { binary: Binary::Restored },
        ),
        (Phase::CopyingSelf, Response::Done(false)) => if c.attempt >= RETRIES {
            c.fail(PatchError::SelfReplace, seq![Notice::Failed(Failure::OverwritePatcher)])
        } else {
            c.go(Phase::CopyPause, seq![], Request::Sleep { millis: RETRY_PAUSE })
        },
        (Phase::CopyPause, Response::Continued) => Control {
            attempt: (c.attempt + 1) as u8,
            ..c
        }.go(Phase::CopyingSelf, seq![], Request::CopySelf),
        (Phase::StartingRestored, Response::Done(true)) => c.go(
            Phase::Exited,
            seq![],
            Request::Exit,
        ),
        (Phase::StartingRestored, Response::Done(false)) => c.fail(
            PatchError::Launch,
            seq![Notice::Failed(Failure::StartOverwrittenLauncher)],
        ),
        _ => c.fail(PatchError::Disorder, seq![]),
    }
}

/// Where the server's status takes the worker: on to the game's
/// installation where the server is online, to the end of the routine
/// where it is under maintenance or did not answer.
pub open spec fn next_status(c: Control, response: Response) -> Outcome {
    match response {
        Response::Status(Fetched::Failed(error)) => c.fail(
            error_of(error),
            seq![Notice::Failed(Failure::GetServerStatus)],
        ),
        Response::Status(Fetched::Undecodable(_)) => c.fail(
            PatchError::Parse,
            seq![Notice::Failed(Failure::ParseServerStatus)],
        ),
        Response::Status(Fetched::Decoded(ServerStatus::Online)) => c.go(
            Phase::AwaitGame,
            seq![Notice::ServerOnline, Notice::CheckingInstallation],
            Request::ProbeGame,
        ),
        Response::Status(Fetched::Decoded(ServerStatus::Maintenance)) => c.fail(
            PatchError::ServerMaintenance,
            seq![Notice::ServerDown],
        ),
        _ => c.fail(PatchError::Disorder, seq![]),
    }
}

/// Where a response takes a worker that is fetching the base game.
pub open spec fn next_base(c: Control, response: Response) -> Outcome {
    match (c.phase, response) {
        (Phase::AwaitGame, Response::Exists(true)) => c.ask_manifest(seq![]),
        (Phase::AwaitGame, Response::Exists(false)) => c.go(
            Phase::OpeningBase,
            seq![],
            Request::OpenBase,
        ),
        (Phase::OpeningBase, Response::BaseOpened(Ok(announced))) => Control {
            downloaded: 0,
            announced,
            ..c
        }.go(Phase::Streaming, seq![], Request::NextChunk),
        (Phase::OpeningBase, Response::BaseOpened(Err(OpenError::Send))) => c.fail(
            PatchError::Transport,
            seq![Notice::Failed(Failure::DownloadGameBase)],
        ),
        (Phase::OpeningBase, Response::BaseOpened(Err(OpenError::Status(code)))) => c.fail(
            PatchError::HttpStatus(code),
            seq![Notice::Failed(Failure::DownloadGameBase)],
        ),
        (Phase::OpeningBase, Response::BaseOpened(Err(OpenError::TempFile))) => c.fail(
            PatchError::Io,
            seq![Notice::Failed(Failure::CreateGameBase)],
        ),
        (Phase::Streaming, Response::Chunk(Ok(Some(len)))) => if c.downloaded + len > u64::MAX {
            c.fail(PatchError::SizeOverflow, seq![Notice::Failed(Failure::ReadBaseStream)])
        } else {
            Control { downloaded: (c.downloaded + len) as u64, ..c }.go(
                Phase::Streaming,
                seq![
                    Notice::Transfer {
                        subject: Subject::BaseGame,
                        downloaded: (c.downloaded + len) as u64,
                        total: c.announced,
                    },
                ],
                Request::NextChunk,
            )
        },
        (Phase::Streaming, Response::Chunk(Ok(None))) => c.go(
            Phase::OpeningZip,
            seq![Notice::BaseDownloaded],
            Request::OpenZip,
        ),
        (Phase::Streaming, Response::Chunk(Err(ChunkError::Stream))) => c.fail(
            PatchError::Transport,
            seq![Notice::Failed(Failure::ReadBaseStream)],
        ),
        (Phase::Streaming, Response::Chunk(Err(ChunkError::Write))) => c.fail(
            PatchError::Io,
            seq![Notice::Failed(Failure::WriteBase)],
        ),
        _ => c.fail(PatchError::Disorder, seq![]),
    }
}

/// The request that unpacks member `at` of `members` on a host that reads
/// paths in the given style.
pub open spec fn unpack_request(members: Seq<ZipEntry>, at: usize, style: PathStyle) -> Request {
    if extraction_of(members[at as int].name@, style) == Extraction::Directory {
        Request::CreateDirectory { member: at, mode: members[at as int].unix_mode }
    } else {
        Request::ExtractFile { member: at, mode: members[at as int].unix_mode }
    }
}

/// Where a response takes a worker that is unpacking the base game.
///
/// The members are unpacked in the archive's order. Before each the front
/// end hears how many bytes have been unpacked. A member whose path leads
/// out of the install directory, as the host reads paths, ends the routine;
/// every other member is unpacked.
pub open spec fn next_unpack(c: Control, members: Seq<ZipEntry>, response: Response) -> Outcome {
    match (c.phase, response) {
        (Phase::OpeningZip, Response::ZipListed(Ok(listed))) => Control {
            member: 0,
            unpacked: 0,
            unpack_total: sizes_sum(listed@) as u128,
            ..c
        }.go(Phase::Unpacking, seq![Notice::ExtractingBase], Request::Continue),
        (Phase::OpeningZip, Response::ZipListed(Err(ListError::Open))) => c.fail(
            PatchError::Io,
            seq![Notice::Failed(Failure::ExtractBase)],
        ),
        (Phase::OpeningZip, Response::ZipListed(Err(ListError::Read))) => c.fail(
            PatchError::Io,
            seq![Notice::ExtractingBase, Notice::Failed(Failure::ReadBase)],
        ),
        (Phase::Unpacking, Response::Continued) => if c.member >= members.len() {
            c.ask_manifest(seq![Notice::BaseInstalled])
        } else {
            let announce = Notice::ExtractingFile {
                index: c.member,
                count: members.len() as usize,
                done: c.unpacked,
                total: c.unpack_total,
            };
            if extraction_of(members[c.member as int].name@, c.style) == Extraction::Refuse {
                c.fail(
                    PatchError::UnsafeArchivePath,
                    seq![announce, Notice::Failed(Failure::InvalidFilePath)],
                )
            } else {
                c.go(
                    Phase::Extracting,
                    seq![announce],
                    unpack_request(members, c.member, c.style),
                )
            }
        },
        (Phase::Extracting, Response::Done(true)) => if c.member < members.len() {
            Control {
                member: (c.member + 1) as usize,
                unpacked: (c.unpacked + members[c.member as int].size) as u128,
                ..c
            }.go(Phase::Unpacking, seq![], Request::Continue)
        } else {
            c.fail(PatchError::Disorder, seq![])
        },
        (Phase::Extracting, Response::Done(false)) => c.fail(
            PatchError::Io,
            seq![Notice::Failed(Failure::ExtractBase)],
        ),
        _ => c.fail(PatchError::Disorder, seq![]),
    }
}

/// Where a response takes a worker that is waiting for the manifest or
/// laying out a walk.
///
/// The subtree `all` is walked first, then the subtree of the host's
/// platform. A platform without a subtree is passed over. A subtree whose
/// URL does not resolve ends the routine as a failed walk does.
pub open spec fn next_plan(c: Control, upcoming: Walk, response: Response) -> Outcome {
    match (c.phase, response) {
        (Phase::AwaitManifest, Response::Manifest(Fetched::Failed(error))) => c.fail(
            error_of(error),
            seq![Notice::Failed(Failure::GetPatchData)],
        ),
        (Phase::AwaitManifest, Response::Manifest(Fetched::Undecodable(_))) => c.fail(
            PatchError::Parse,
            seq![Notice::Failed(Failure::ParsePatchData)],
        ),
        (Phase::AwaitManifest, Response::Manifest(Fetched::Decoded(_))) => Control {
            platform: Platform::All,
            checked: 0,
            ..c
        }.go(Phase::Planning, seq![], Request::Continue),
        (Phase::Planning, Response::Continued) => match upcoming {
            Walk::Missing => c.advance(seq![]),
            Walk::Unrooted => c.fail_walk(PatchError::Url),
            Walk::Planned(plan) => Control {
                cursor: 0,
                completed: 0,
                total: leaves(plan) as usize,
                dirty: false,
                ..c
            }.go(Phase::Walking, seq![], Request::Continue),
        },
        _ => c.fail(PatchError::Disorder, seq![]),
    }
}

/// Where the walk turns at the entry that is next.
///
/// A leaf is announced to the front end and then looked at. An entry whose
/// URL did not resolve ends the walk, except a member, whose URL is needed
/// only once it has to be fetched. At the end of the entries the front end
/// hears how many leaves were checked.
pub open spec fn next_entry(c: Control, plan: Seq<EntryView>) -> Outcome {
    if c.cursor >= plan.len() {
        Control { checked: (c.checked + c.completed) as u128, ..c }.advance(
            seq![Notice::FilesChecked { total: c.total }],
        )
    } else {
        match plan[c.cursor as int] {
            EntryView::Enter { url } => if url is None {
                c.fail_walk(PatchError::Url)
            } else {
                c.entry_done()
            },
            EntryView::File { url, .. } => if url is None {
                c.fail_walk(PatchError::Url)
            } else {
                c.go(Phase::Probing, seq![c.checking()], Request::ProbeFile { entry: c.cursor })
            },
            EntryView::Open { url, .. } => if url is None {
                c.fail_walk(PatchError::Url)
            } else {
                Control { dirty: false, opened: c.cursor, ..c }.go(
                    Phase::OpeningArchive,
                    seq![],
                    Request::OpenArchive { entry: c.cursor },
                )
            },
            EntryView::Member { .. } => c.go(
                Phase::ReadingMember,
                seq![c.checking()],
                Request::ReadMember { entry: c.cursor },
            ),
            EntryView::Close => if c.dirty {
                c.go(Phase::Finalizing, seq![], Request::Finalize)
            } else {
                c.entry_done()
            },
        }
    }
}

/// Where a response takes a worker that is checking a file.
///
/// A file that is missing is fetched and written. A file that is there is
/// left alone where its digest is the declared one, and fetched and written
/// over where it is not. The running binary is never written over: its new
/// content goes to the sidecar, and the worker remembers that it did.
pub open spec fn next_file(c: Control, entry: EntryView, response: Response) -> Outcome {
    match (c.phase, response, entry) {
        (Phase::Probing, Response::Probed(Probe::Missing), EntryView::File { .. }) => c.go(
            Phase::Fetching(Target::InPlace),
            seq![],
            Request::Download { entry: c.cursor },
        ),
        (
            Phase::Probing,
            Response::Probed(Probe::Unreadable),
            EntryView::File { .. },
        ) => c.fail_walk(PatchError::Io),
        (
            Phase::Probing,
            Response::Probed(Probe::Present(found)),
            EntryView::File { digest, is_self, .. },
        ) => if found@ == digest {
            c.leaf_done()
        } else {
            c.go(
                Phase::Fetching(
                    if is_self {
                        Target::Sidecar
                    } else {
                        Target::InPlace
                    },
                ),
                seq![],
                Request::Download { entry: c.cursor },
            )
        },
        (Phase::Fetching(target), Response::Fetched(Ok(_)), EntryView::File { .. }) => c.go(
            Phase::Writing(target),
            seq![],
            Request::WriteFile { entry: c.cursor, target },
        ),
        (
            Phase::Fetching(_),
            Response::Fetched(Err(error)),
            EntryView::File { .. },
        ) => c.fail_download(error_of(error)),
        (Phase::Writing(target), Response::Done(true), EntryView::File { .. }) => Control {
            updated: c.updated || target == Target::Sidecar,
            ..c
        }.leaf_done(),
        (Phase::Writing(_), Response::Done(false), EntryView::File { .. }) => c.fail_walk(
            PatchError::Io,
        ),
        _ => c.fail(PatchError::Disorder, seq![]),
    }
}

/// A member is not what it must be: it is fetched, if it has a URL.
pub open spec fn replace_member(c: Control, url: Option<Seq<char>>) -> Outcome {
    if url is None {
        c.fail_walk(PatchError::Url)
    } else {
        c.go(Phase::FetchingMember, seq![], Request::Download { entry: c.cursor })
    }
}

/// Where a response takes a worker that is checking an archive.
///
/// A member that the archive holds with the declared digest is left alone.
/// A member that it does not hold, or holds with another digest, is fetched
/// and put in, and the archive counts as changed. When all members are
/// done, a changed archive is written out and then compacted; an unchanged
/// one is not touched.
pub open spec fn next_archive(c: Control, entry: EntryView, response: Response) -> Outcome {
    match (c.phase, response, entry) {
        (Phase::OpeningArchive, Response::Done(true), EntryView::Open { .. }) => c.entry_done(),
        (Phase::OpeningArchive, Response::Done(false), EntryView::Open { .. }) => c.fail_walk(
            PatchError::ArchiveRead { archive: c.opened },
        ),
        (
            Phase::ReadingMember,
            Response::Probed(Probe::Present(found)),
            EntryView::Member { digest, url, .. },
        ) => if found@ == digest {
            c.leaf_done()
        } else {
            replace_member(c, url)
        },
        (
            Phase::ReadingMember,
            Response::Probed(Probe::Missing),
            EntryView::Member { url, .. },
        ) => replace_member(c, url),
        (
            Phase::ReadingMember,
            Response::Probed(Probe::Unreadable),
            EntryView::Member { .. },
        ) => c.fail_walk(PatchError::ArchiveRead { archive: c.opened }),
        (Phase::FetchingMember, Response::Fetched(Ok(_)), EntryView::Member { .. }) => c.go(
            Phase::AddingMember,
            seq![],
            Request::AddMember { entry: c.cursor },
        ),
        (
            Phase::FetchingMember,
            Response::Fetched(Err(error)),
            EntryView::Member { .. },
        ) => c.fail_download(error_of(error)),
        (Phase::AddingMember, Response::Done(true), EntryView::Member { .. }) => Control {
            dirty: true,
            ..c
        }.leaf_done(),
        (Phase::AddingMember, Response::Done(false), EntryView::Member { .. }) => c.fail_walk(
            PatchError::ArchiveWrite { archive: c.opened },
        ),
        (Phase::Finalizing, Response::Done(true), EntryView::Close) => c.go(
            Phase::Defragging,
            seq![],
            Request::Defrag,
        ),
        (Phase::Finalizing, Response::Done(false), EntryView::Close) => c.fail_walk(
            PatchError::ArchiveWrite { archive: c.opened },
        ),
        (Phase::Defragging, Response::Done(true), EntryView::Close) => Control {
            dirty: false,
            ..c
        }.entry_done(),
        (Phase::Defragging, Response::Done(false), EntryView::Close) => c.fail_walk(
            PatchError::ArchiveWrite { archive: c.opened },
        ),
        _ => c.fail(PatchError::Disorder, seq![]),
    }
}

/// Where a response takes a worker that is starting a binary or the game.
pub open spec fn next_launch(c: Control, response: Response) -> Outcome {
    match (c.phase, response) {
        (Phase::StartingUpdated, Response::Done(true)) => c.go(
            Phase::Exited,
            seq![],
            Request::Exit,
        ),
        (Phase::StartingUpdated, Response::Done(false)) => c.fail(
            PatchError::Launch,
            seq![Notice::Failed(Failure::StartUpdatedLauncher)],
        ),
        (Phase::Launching, Response::Done(true)) => c.go(
            Phase::LaunchPause,
            seq![],
            Request::Sleep { millis: LAUNCH_PAUSE },
        ),
        (Phase::Launching, Response::Done(false)) => c.fail(PatchError::Launch, seq![]),
        (Phase::LaunchPause, Response::Continued) => c.go(
            Phase::Stopped,
            seq![Notice::Status(PatchStatus::GameLaunched)],
            Request::Stop,
        ),
        _ => c.fail(PatchError::Disorder, seq![]),
    }
}

/// Where a response takes the worker.
#[verifier::opaque]
pub open spec fn next(c: Control, facts: Facts, response: Response) -> Outcome {
    match c.phase {
        Phase::Idle => next_idle(c, response),
        Phase::ProbingSidecar
        | Phase::RemovingSidecar
        | Phase::RemovalPause
        | Phase::CopyingSelf
        | Phase::CopyPause
        | Phase::StartingRestored => next_sidecar(c, response),
        Phase::AwaitStatus => next_status(c, response),
        Phase::AwaitGame | Phase::OpeningBase | Phase::Streaming => next_base(c, response),
        Phase::OpeningZip | Phase::Unpacking | Phase::Extracting => next_unpack(
            c,
            facts.members,
            response,
        ),
        Phase::AwaitManifest | Phase::Planning => next_plan(c, facts.walk(c.platform), response),
        Phase::Walking => match response {
            Response::Continued => next_entry(c, facts.plan(c.platform)),
            _ => c.fail(PatchError::Disorder, seq![]),
        },
        Phase::Probing | Phase::Fetching(_) | Phase::Writing(_) => if c.cursor < facts.plan(
            c.platform,
        ).len() {
            next_file(c, facts.plan(c.platform)[c.cursor as int], response)
        } else {
            c.fail(PatchError::Disorder, seq![])
        },
        Phase::OpeningArchive
        | Phase::ReadingMember
        | Phase::FetchingMember
        | Phase::AddingMember
        | Phase::Finalizing
        | Phase::Defragging => if c.cursor < facts.plan(c.platform).len() {
            next_archive(c, facts.plan(c.platform)[c.cursor as int], response)
        } else {
            c.fail(PatchError::Disorder, seq![])
        },
        Phase::StartingUpdated | Phase::Launching | Phase::LaunchPause => next_launch(
            c,
            response,
        ),
        Phase::Exited => c.go(Phase::Exited, seq![], Request::Exit),
        Phase::Stopped => c.go(Phase::Stopped, seq![], Request::Stop),
    }
}

/// Whether the worker is unpacking the base game.
pub open spec fn unpacking(phase: Phase) -> bool {
    phase == Phase::Unpacking || phase == Phase::Extracting
}

/// Whether the worker is busy with a file of the walk.
pub open spec fn at_file(phase: Phase) -> bool {
    phase == Phase::Probing || phase is Fetching || phase is Writing
}

/// Whether the worker is busy with a member of an archive.
pub open spec fn at_member(phase: Phase) -> bool {
    phase == Phase::ReadingMember || phase == Phase::FetchingMember || phase
        == Phase::AddingMember
}

/// Whether an entry is the file of the running binary.
pub open spec fn is_running_binary(entry: EntryView) -> bool {
    entry matches EntryView::File { is_self, .. } && is_self
}

/// Whether the worker is busy with a file whose new content goes to the
/// sidecar.
pub open spec fn redirected(phase: Phase) -> bool {
    phase == Phase::Fetching(Target::Sidecar) || phase == Phase::Writing(Target::Sidecar)
}

/// Whether the worker is writing an archive out.
pub open spec fn at_close(phase: Phase) -> bool {
    phase == Phase::Finalizing || phase == Phase::Defragging
}

/// Whether the worker is in a walk.
pub open spec fn walking(phase: Phase) -> bool {
    phase == Phase::Walking || phase == Phase::OpeningArchive || at_file(phase) || at_member(
        phase,
    ) || at_close(phase)
}

/// The leaves that the walks before that of `platform` hold.
pub open spec fn leaves_before(platform: Platform, facts: Facts) -> nat {
    match platform {
        Platform::All => 0,
        Platform::Host => leaves(facts.all.entries()),
    }
}

/// Whether the facts are such as a worker can hold: each list fits into
/// memory.
pub open spec fn holdable(facts: Facts) -> bool {
    &&& facts.members.len() <= usize::MAX
    &&& facts.all.entries().len() <= usize::MAX
    &&& facts.host.entries().len() <= usize::MAX
}

/// Whether the walks are such as a manifest lays out: every archive has
/// its entries in a row, and no member stands outside an archive.
pub open spec fn orderly(facts: Facts) -> bool {
    &&& archives_in_a_row(facts.all.entries())
    &&& archives_in_a_row(facts.host.entries())
    &&& members_follow(facts.all.entries())
    &&& members_follow(facts.host.entries())
}

/// What holds of the counters while the base game is unpacked: the bytes
/// counted as unpacked are those of the members before the one that is
/// next, and the total is that of all members.
pub open spec fn unpack_sound(c: Control, members: Seq<ZipEntry>) -> bool {
    unpacking(c.phase) ==> {
        &&& c.member <= members.len()
        &&& c.unpacked == sizes_sum(members.take(c.member as int))
        &&& c.unpack_total == sizes_sum(members)
        &&& c.phase == Phase::Extracting ==> c.member < members.len()
    }
}

/// Whether the walk stands inside an archive: the worker is busy with a
/// member or with writing the archive out, or the entry that is next is a
/// member or closes the archive.
pub open spec fn within_archive(c: Control, plan: Seq<EntryView>) -> bool {
    ||| at_member(c.phase)
    ||| at_close(c.phase)
    ||| (c.phase == Phase::Walking && c.cursor < plan.len() && in_archive(plan[c.cursor as int]))
}

/// Whether the worker is putting itself in the regular binary's place.
pub open spec fn replacing(phase: Phase) -> bool {
    phase == Phase::CopyingSelf || phase == Phase::CopyPause || phase == Phase::StartingRestored
}

/// Whether the worker is in a patch routine of the regular binary: from
/// the look for a leftover sidecar to the start of an updated binary.
pub open spec fn patching(phase: Phase) -> bool {
    ||| phase == Phase::ProbingSidecar
    ||| phase == Phase::RemovingSidecar
    ||| phase == Phase::RemovalPause
    ||| phase == Phase::AwaitStatus
    ||| phase == Phase::AwaitGame
    ||| phase == Phase::OpeningBase
    ||| phase == Phase::Streaming
    ||| phase == Phase::OpeningZip
    ||| unpacking(phase)
    ||| phase == Phase::AwaitManifest
    ||| phase == Phase::Planning
    ||| walking(phase)
    ||| phase == Phase::StartingUpdated
}

/// What holds of the counters in a walk: the leaves counted as checked are
/// those before the entry that is next, the total is the number of leaves
/// in the walk, and the phase fits the entry.
pub open spec fn walk_sound(c: Control, plan: Seq<EntryView>) -> bool {
    walking(c.phase) ==> {
        &&& c.cursor <= plan.len()
        &&& c.completed == leaves(plan.take(c.cursor as int))
        &&& c.total == leaves(plan)
        &&& c.phase != Phase::Walking ==> c.cursor < plan.len()
        &&& at_file(c.phase) ==> plan[c.cursor as int] is File
        &&& at_member(c.phase) ==> plan[c.cursor as int] is Member
        &&& c.phase == Phase::OpeningArchive ==> plan[c.cursor as int] is Open
        &&& at_close(c.phase) ==> plan[c.cursor as int] is Close
        &&& redirected(c.phase) ==> is_running_binary(plan[c.cursor as int])
    }
}

/// What holds of the open archive in a walk: while an archive is being
/// opened, the worker holds the entry that opens it; inside an archive it
/// holds the entry that opened it, and nothing but members of the archive
/// lies between that entry and the entry that is next.
#[verifier::opaque]
pub open spec fn archive_sound(c: Control, plan: Seq<EntryView>) -> bool {
    walking(c.phase) ==> {
        &&& c.phase == Phase::OpeningArchive ==> c.opened == c.cursor
        &&& within_archive(c, plan) ==> open_since(plan, c.opened as int, c.cursor as int)
    }
}

/// What holds of a worker's control at every moment: the counters are
/// those of the work done, the leaves counted for earlier walks are those
/// of the walks that are over, the open archive is known, a removal or a
/// copy is at one of its
/// `RETRIES` tries, a pause is followed by another try, only a sidecar
/// copies itself, and only a regular binary patches.
pub open spec fn sound(c: Control, facts: Facts) -> bool {
    &&& holdable(facts)
    &&& orderly(facts)
    &&& unpack_sound(c, facts.members)
    &&& (c.phase == Phase::Planning || walking(c.phase)) ==> c.checked == leaves_before(
        c.platform,
        facts,
    )
    &&& walking(c.phase) ==> facts.walk(c.platform) is Planned
    &&& walk_sound(c, facts.plan(c.platform))
    &&& archive_sound(c, facts.plan(c.platform))
    &&& (c.phase == Phase::RemovalPause || c.phase == Phase::CopyPause) ==> 1 <= c.attempt
        < RETRIES
    &&& (c.phase == Phase::RemovingSidecar || c.phase == Phase::CopyingSelf) ==> 1 <= c.attempt
        <= RETRIES
    &&& c.phase == Phase::ProbingSidecar ==> c.attempt == 1
    &&& replacing(c.phase) ==> c.replacement
    &&& patching(c.phase) ==> !c.replacement
}

/// Whether `after` are the facts that a worker holds once it has taken
/// `response`: a list of the base game's members replaces the members, a
/// manifest replaces the walks, and nothing else changes anything.
pub open spec fn follows(c: Control, facts: Facts, response: Response, after: Facts) -> bool {
    match (c.phase, response) {
        (Phase::OpeningZip, Response::ZipListed(Ok(listed))) => after == (Facts {
            members: listed@,
            ..facts
        }),
        (Phase::AwaitManifest, Response::Manifest(Fetched::Decoded(_))) => after.members
            == facts.members && holdable(after) && orderly(after),
        _ => after == facts,
    }
}

/// Every transition keeps the open archive known.
pub proof fn lemma_next_archive_sound(
    c: Control,
    facts: Facts,
    response: Response,
    after: Facts,
)
    requires
        walking(c.phase) ==> facts.walk(c.platform) is Planned,
        walk_sound(c, facts.plan(c.platform)),
        archive_sound(c, facts.plan(c.platform)),
        members_follow(facts.all.entries()),
        members_follow(facts.host.entries()),
        holdable(facts),
        follows(c, facts, response, after),
    ensures
        archive_sound(
            next(c, facts, response).control,
            after.plan(next(c, facts, response).control.platform),
        ),
{
    reveal(next);
    reveal(archive_sound);
    let post = next(c, facts, response).control;
    let plan = after.plan(post.platform);
    if walking(post.phase) {
        assert(after == facts);
        if post.phase == Phase::Walking && post.cursor < plan.len() && in_archive(
            plan[post.cursor as int],
        ) {
            lemma_follows(plan, post.cursor as int);
            if c.phase != Phase::Planning {
                let before = (post.cursor - 1) as int;
                assert(c.cursor == before);
                if c.phase == Phase::OpeningArchive {
                    assert(open_since(plan, post.opened as int, post.cursor as int));
                } else {
                    assert(plan[before] is Member);
                    assert(at_member(c.phase));
                    assert(open_since(plan, c.opened as int, before));
                    assert forall|j: int| post.opened < j < post.cursor implies (
                    #[trigger] plan[j]) is Member by {
                        if j < before {
                            assert(plan[j] is Member);
                        }
                    }
                }
            }
        }
    }
}

/// Every transition keeps the control sound.
pub proof fn lemma_next_sound(c: Control, facts: Facts, response: Response, after: Facts)
    requires
        sound(c, facts),
        follows(c, facts, response, after),
    ensures
        sound(next(c, facts, response).control, after),
{
    reveal(next);
    lemma_next_archive_sound(c, facts, response, after);
    let plan = facts.plan(c.platform);
    let post = next(c, facts, response).control;
    if c.phase == Phase::OpeningZip {
        if let Response::ZipListed(Ok(listed)) = response {
            assert(listed@.take(0) =~= Seq::<ZipEntry>::empty());
            lemma_sizes_fit(listed@);
            assert(listed@.len() == listed.len());
            assert(listed@.len() * u64::MAX <= usize::MAX * u64::MAX) by (nonlinear_arith)
                requires
                    listed@.len() <= usize::MAX,
            ;
            assert(usize::MAX * u64::MAX <= u64::MAX * u64::MAX) by (nonlinear_arith)
                requires
                    usize::MAX <= u64::MAX,
            ;
            assert(u64::MAX * u64::MAX < u128::MAX) by (nonlinear_arith);
        }
    } else if c.phase == Phase::Extracting {
        if c.member < facts.members.len() {
            lemma_sizes_step(facts.members, c.member as int);
            lemma_sizes_prefix(facts.members, c.member + 1);
        }
    } else if c.phase == Phase::Planning {
        if let Walk::Planned(entries) = facts.walk(c.platform) {
            assert(entries.take(0) =~= Seq::<EntryView>::empty());
            lemma_leaves_bound(entries);
        }
    } else if walking(c.phase) {
        lemma_leaves_bound(plan);
        if c.cursor < plan.len() {
            lemma_leaves_step(plan, c.cursor as int);
            lemma_leaves_prefix(plan, c.cursor + 1);
        } else {
            assert(plan.take(c.cursor as int) =~= plan);
        }
    }
}

} // verus!
