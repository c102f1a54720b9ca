//! What the patcher and its front end say to each other.
//!
//! The worker decides in terms of [`Notice`]: a small value that names a
//! message and carries its numbers. [`render`] turns a notice into the
//! [`PatchMessage`] that the front end shows, text and all.

use crate::text::{decimal, joined, push_decimal};
use crate::utils::{appropriate_unit_text, byte_string};
use vstd::prelude::*;
use vstd::string::*;

verus! {

/// How a patch routine or a launch ended, or that one has begun.
#[derive(Clone, Copy, Debug, PartialEq, Eq, Structural)]
pub enum PatchStatus {
    Working,
    Finished,
    Error,
    GameLaunched,
}

/// What the front end asks of the worker.
#[derive(Clone, Copy, Debug, PartialEq, Eq, Structural)]
pub enum GUIMessage {
    /// Run the patch routine.
    Retry,
    /// Launch the game.
    Play,
}

/// A share of work done, as a fraction: `done` parts of `total`. With a
/// `total` of zero it stands for nothing done.
#[derive(Clone, Copy, Debug, PartialEq, Eq, Structural)]
pub struct Progress {
    pub done: u128,
    pub total: u128,
}

impl Progress {
    /// The fraction's numerator.
    pub open spec fn numer(self) -> nat {
        if self.total == 0 {
            0
        } else {
            self.done as nat
        }
    }

    /// The fraction's denominator, never zero.
    pub open spec fn denom(self) -> nat {
        if self.total == 0 {
            1
        } else {
            self.total as nat
        }
    }

    /// Whether the fraction lies between 0 and 1.
    pub open spec fn bounded(self) -> bool {
        self.done <= self.total
    }

    /// Whether this fraction is no larger than `other`.
    pub open spec fn at_most(self, other: Progress) -> bool {
        self.numer() * other.denom() <= other.numer() * self.denom()
    }

    /// Everything done.
    pub fn full() -> (p: Progress)
        ensures
            p == (Progress { done: 1, total: 1 }),
    {
        Progress { done: 1, total: 1 }
    }

    /// Nothing done.
    pub fn none() -> (p: Progress)
        ensures
            p == (Progress { done: 0, total: 1 }),
    {
        Progress { done: 0, total: 1 }
    }

    /// `done` parts of `total`, and no more than all of them.
    pub fn of(done: u128, total: u128) -> (p: Progress)
        ensures
            p == Self::clamped(done, total),
    {
        Progress { done: if done <= total { done } else { total }, total }
    }

    /// `done` parts of `total`, held to `total` where it is more.
    pub open spec fn clamped(done: u128, total: u128) -> Progress {
        Progress {
            done: if done <= total {
                done
            } else {
                total
            },
            total,
        }
    }
}

/// A message for the front end.
#[derive(Clone, Debug, PartialEq, Eq)]
pub enum PatchMessage {
    /// The worker is talking to the server.
    Connecting(String),
    /// The worker is fetching, unpacking or checking; with the share done.
    Downloading(String, Progress),
    /// Something failed; the routine is about to end.
    Error(String),
    /// A routine began or ended.
    PatchStatus(PatchStatus),
}

/// A [`PatchMessage`] with its texts as sequences of characters.
pub enum MessageView {
    Connecting(Seq<char>),
    Downloading(Seq<char>, Progress),
    Error(Seq<char>),
    PatchStatus(PatchStatus),
}

impl View for PatchMessage {
    type V = MessageView;

    open spec fn view(&self) -> MessageView {
        match self {
            PatchMessage::Connecting(text) => MessageView::Connecting(text@),
            PatchMessage::Downloading(text, progress) => MessageView::Downloading(
                text@,
                *progress,
            ),
            PatchMessage::Error(text) => MessageView::Error(text@),
            PatchMessage::PatchStatus(status) => MessageView::PatchStatus(*status),
        }
    }
}

/// The manifest subtree that a walk goes through.
#[derive(Clone, Copy, Debug, PartialEq, Eq, Structural)]
pub enum Platform {
    /// The subtree `all`, for every platform.
    All,
    /// The subtree of the platform the patcher runs on.
    Host,
}

/// What a transfer brings.
#[derive(Clone, Copy, Debug, PartialEq, Eq, Structural)]
pub enum Subject {
    BaseGame,
    PatchInfo,
}

/// A failure that the front end is told of.
#[derive(Clone, Copy, Debug, PartialEq, Eq, Structural)]
pub enum Failure {
    StartUpdatedLauncher,
    DownloadGameBase,
    CreateGameBase,
    ReadBaseStream,
    WriteBase,
    ExtractBase,
    ReadBase,
    InvalidFilePath,
    GetServerStatus,
    ParseServerStatus,
    GetPatchData,
    ParsePatchData,
    CheckLocalFiles,
    GetPatchedFile,
    OverwritePatcher,
    StartOverwrittenLauncher,
    RemoveTemporaryLauncher,
    DownloadPatch,
    DownloadBaseGame,
    GetPatchInfo,
    ParsePatchInfo,
}

impl Failure {
    /// The text that the front end shows for this failure.
    pub open spec fn text(self) -> Seq<char> {
        match self {
            Failure::StartUpdatedLauncher => "Could not start updated launcher"@,
            Failure::DownloadGameBase => "Failed to download game base"@,
            Failure::CreateGameBase => "Failed to create game base"@,
            Failure::ReadBaseStream => "Failed while reading game base stream"@,
            Failure::WriteBase => "Failed while writing base game to disk"@,
            Failure::ExtractBase => "Failed to extract base game"@,
            Failure::ReadBase => "Failed to read base game"@,
            Failure::InvalidFilePath => "Failed to extract base game:\nInvalid file path"@,
            Failure::GetServerStatus => "Failed to get server status"@,
            Failure::ParseServerStatus => "Failed to parse server status"@,
            Failure::GetPatchData => "Failed to get patch data"@,
            Failure::ParsePatchData => "Failed to parse patch data"@,
            Failure::CheckLocalFiles => "Failed to check local files"@,
            Failure::GetPatchedFile => "Failed to get patched file"@,
            Failure::OverwritePatcher => "Failed to overwrite old patcher"@,
            Failure::StartOverwrittenLauncher => "Could not start overwritten launcher"@,
            Failure::RemoveTemporaryLauncher => "Failed to remove temporary launcher."@,
            Failure::DownloadPatch => "Failed to download patch"@,
            Failure::DownloadBaseGame => "Failed to download base game"@,
            Failure::GetPatchInfo => "Failed to get patch info"@,
            Failure::ParsePatchInfo => "Failed to parse patch info"@,
        }
    }

    /// The text that the front end shows for this failure.
    pub fn message(self) -> (text: &'static str)
        ensures
            text@ == self.text(),
    {
        match self {
            Failure::StartUpdatedLauncher => "Could not start updated launcher",
            Failure::DownloadGameBase => "Failed to download game base",
            Failure::CreateGameBase => "Failed to create game base",
            Failure::ReadBaseStream => "Failed while reading game base stream",
            Failure::WriteBase => "Failed while writing base game to disk",
            Failure::ExtractBase => "Failed to extract base game",
            Failure::ReadBase => "Failed to read base game",
            Failure::InvalidFilePath => "Failed to extract base game:\nInvalid file path",
            Failure::GetServerStatus => "Failed to get server status",
            Failure::ParseServerStatus => "Failed to parse server status",
            Failure::GetPatchData => "Failed to get patch data",
            Failure::ParsePatchData => "Failed to parse patch data",
            Failure::CheckLocalFiles => "Failed to check local files",
            Failure::GetPatchedFile => "Failed to get patched file",
            Failure::OverwritePatcher => "Failed to overwrite old patcher",
            Failure::StartOverwrittenLauncher => "Could not start overwritten launcher",
            Failure::RemoveTemporaryLauncher => "Failed to remove temporary launcher.",
            Failure::DownloadPatch => "Failed to download patch",
            Failure::DownloadBaseGame => "Failed to download base game",
            Failure::GetPatchInfo => "Failed to get patch info",
            Failure::ParsePatchInfo => "Failed to parse patch info",
        }
    }
}

/// A message in the making: which one, and its numbers.
#[allow(inconsistent_fields)]
#[derive(Clone, Copy, Debug, PartialEq, Eq, Structural)]
pub enum Notice {
    /// A routine began or ended.
    Status(PatchStatus),
    /// The server is being asked for its status.
    CheckingServer,
    /// The server takes patch requests.
    ServerOnline,
    /// The server is under maintenance.
    ServerDown,
    /// The directory is being searched for the game.
    CheckingInstallation,
    /// A chunk of a transfer has arrived: bytes so far, and the length that
    /// the server announced, if it did.
    Transfer { subject: Subject, downloaded: u64, total: Option<u64> },
    /// The base game has arrived in full.
    BaseDownloaded,
    /// The base game's archive has been opened.
    ExtractingBase,
    /// Member `index` of `count`, counted from zero, is about to be unpacked;
    /// `done` of `total` bytes have been.
    ExtractingFile { index: usize, count: usize, done: u128, total: u128 },
    /// The base game has been unpacked.
    BaseInstalled,
    /// A leaf is about to be checked; `completed` of `total` have been.
    CheckingFile { completed: usize, total: usize, platform: Platform },
    /// A walk has gone through all its leaves.
    FilesChecked { total: usize },
    /// The game is about to start.
    LaunchingGame,
    /// Something failed.
    Failed(Failure),
}

/// The tag of the platform that a walk is for, given the host's tag.
pub open spec fn tag_of(platform: Platform, host: Seq<char>) -> Seq<char> {
    match platform {
        Platform::All => "all"@,
        Platform::Host => host,
    }
}

/// The text of a transfer's progress message.
pub open spec fn transfer_text(subject: Subject, downloaded: u64, total: Option<u64>) -> Seq<char> {
    let head = match subject {
        Subject::BaseGame => "Downloading base game ("@,
        Subject::PatchInfo => "Downloading patch info ("@,
    };
    match total {
        Some(total) => head + appropriate_unit_text(downloaded as u128) + " / "@
            + appropriate_unit_text(total as u128) + ")"@,
        None => head + appropriate_unit_text(downloaded as u128) + ")"@,
    }
}

/// A transfer's progress: the share of the announced length that has
/// arrived, and no more than all of it; everything where no length was
/// announced.
pub open spec fn transfer_progress(downloaded: u64, total: Option<u64>) -> Progress {
    match total {
        Some(total) => Progress::clamped(downloaded as u128, total as u128),
        None => Progress { done: 1, total: 1 },
    }
}

/// The text that announces the unpacking of a member.
pub open spec fn extracting_text(index: usize, count: usize, done: u128, total: u128) -> Seq<
    char,
> {
    "Extracting file "@ + decimal(index as nat + 1) + " of "@ + decimal(count as nat) + " ("@
        + appropriate_unit_text(done) + " / "@ + appropriate_unit_text(total) + ")"@
}

/// The text that announces the check of a leaf.
pub open spec fn checking_text(completed: usize, total: usize, tag: Seq<char>) -> Seq<char> {
    "Checking file "@ + decimal(completed as nat + 1) + " / "@ + decimal(total as nat)
        + " for platform '"@ + tag + "'"@
}

/// The text that closes a walk.
pub open spec fn checked_text(total: usize) -> Seq<char> {
    decimal(total as nat) + " files checked."@
}

impl Notice {
    /// Whether the front end's inbox is emptied once it has this notice: a
    /// status is followed by a clean slate, so that it takes a new message
    /// from the front end to go on.
    pub fn clears_inbox(self) -> (clears: bool)
        ensures
            clears == self is Status,
    {
        match self {
            Notice::Status(_) => true,
            _ => false,
        }
    }

    /// The message that the front end gets for this notice, on a host with
    /// the platform tag `host`.
    pub open spec fn message(self, host: Seq<char>) -> MessageView {
        match self {
            Notice::Status(status) => MessageView::PatchStatus(status),
            Notice::CheckingServer => MessageView::Connecting("Checking server status"@),
            Notice::ServerOnline => MessageView::Connecting("Server is online"@),
            Notice::ServerDown => MessageView::Connecting("Server is down for maintenance"@),
            Notice::CheckingInstallation => MessageView::Downloading(
                "Checking game installation"@,
                Progress { done: 1, total: 1 },
            ),
            Notice::Transfer { subject, downloaded, total } => MessageView::Downloading(
                transfer_text(subject, downloaded, total),
                transfer_progress(downloaded, total),
            ),
            Notice::BaseDownloaded => MessageView::Downloading(
                "Finished downloading base game"@,
                Progress { done: 1, total: 1 },
            ),
            Notice::ExtractingBase => MessageView::Downloading(
                "Extracting base game"@,
                Progress { done: 0, total: 1 },
            ),
            Notice::ExtractingFile { index, count, done, total } => MessageView::Downloading(
                extracting_text(index, count, done, total),
                Progress::clamped(done, total),
            ),
            Notice::BaseInstalled => MessageView::Downloading(
                "Finished installing base game"@,
                Progress { done: 1, total: 1 },
            ),
            Notice::CheckingFile { completed, total, platform } => MessageView::Downloading(
                checking_text(completed, total, tag_of(platform, host)),
                Progress::clamped(completed as u128, total as u128),
            ),
            Notice::FilesChecked { total } => MessageView::Downloading(
                checked_text(total),
                Progress { done: 1, total: 1 },
            ),
            Notice::LaunchingGame => MessageView::Downloading(
                "Let's play the game!"@,
                Progress { done: 1, total: 1 },
            ),
            Notice::Failed(failure) => MessageView::Error(failure.text()),
        }
    }

    /// The share of work done that this notice reports, if it reports one.
    pub open spec fn progress(self) -> Option<Progress> {
        match self.message(Seq::empty()) {
            MessageView::Downloading(_, progress) => Some(progress),
            _ => None,
        }
    }
}

fn transfer_message(subject: Subject, downloaded: u64, total: Option<u64>) -> (text: String)
    ensures
        text@ == transfer_text(subject, downloaded, total),
{
    let head = match subject {
        Subject::BaseGame => "Downloading base game (",
        Subject::PatchInfo => "Downloading patch info (",
    };
    let mut text = joined(head, byte_string(downloaded as u128).as_str());
    if let Some(total) = total {
        text.append(" / ");
        text.append(byte_string(total as u128).as_str());
    }
    text.append(")");
    assert(text@ =~= transfer_text(subject, downloaded, total));
    text
}

fn extracting_message(index: usize, count: usize, done: u128, total: u128) -> (text: String)
    ensures
        text@ == extracting_text(index, count, done, total),
{
    let mut text = "Extracting file ".to_owned();
    push_decimal(&mut text, index as u128 + 1);
    text.append(" of ");
    push_decimal(&mut text, count as u128);
    text.append(" (");
    text.append(byte_string(done).as_str());
    text.append(" / ");
    text.append(byte_string(total).as_str());
    text.append(")");
    assert(text@ =~= extracting_text(index, count, done, total));
    text
}

fn checking_message(completed: usize, total: usize, tag: &str) -> (text: String)
    ensures
        text@ == checking_text(completed, total, tag@),
{
    let mut text = "Checking file ".to_owned();
    push_decimal(&mut text, completed as u128 + 1);
    text.append(" / ");
    push_decimal(&mut text, total as u128);
    text.append(" for platform '");
    text.append(tag);
    text.append("'");
    assert(text@ =~= checking_text(completed, total, tag@));
    text
}

fn checked_message(total: usize) -> (text: String)
    ensures
        text@ == checked_text(total),
{
    let mut text = String::new();
    push_decimal(&mut text, total as u128);
    text.append(" files checked.");
    assert(text@ =~= checked_text(total));
    text
}

/// The message that the front end gets for `notice`, on a host with the
/// platform tag `host`.
pub fn render(notice: Notice, host: &str) -> (message: PatchMessage)
    ensures
        message@ == notice.message(host@),
{
    match notice {
        Notice::Status(status) => PatchMessage::PatchStatus(status),
        Notice::CheckingServer => PatchMessage::Connecting("Checking server status".to_owned()),
        Notice::ServerOnline => PatchMessage::Connecting("Server is online".to_owned()),
        Notice::ServerDown => PatchMessage::Connecting(
            "Server is down for maintenance".to_owned(),
        ),
        Notice::CheckingInstallation => PatchMessage::Downloading(
            "Checking game installation".to_owned(),
            Progress::full(),
        ),
        Notice::Transfer { subject, downloaded, total } => {
            let progress = match total {
                Some(total) => Progress::of(downloaded as u128, total as u128),
                None => Progress::full(),
            };
            PatchMessage::Downloading(transfer_message(subject, downloaded, total), progress)
        },
        Notice::BaseDownloaded => PatchMessage::Downloading(
            "Finished downloading base game".to_owned(),
            Progress::full(),
        ),
        Notice::ExtractingBase => PatchMessage::Downloading(
            "Extracting base game".to_owned(),
            Progress::none(),
        ),
        Notice::ExtractingFile { index, count, done, total } => PatchMessage::Downloading(
            extracting_message(index, count, done, total),
            Progress::of(done, total),
        ),
        Notice::BaseInstalled => PatchMessage::Downloading(
            "Finished installing base game".to_owned(),
            Progress::full(),
        ),
        Notice::CheckingFile { completed, total, platform } => {
            let tag = match platform {
                Platform::All => "all",
                Platform::Host => host,
            };
            PatchMessage::Downloading(
                checking_message(completed, total, tag),
                Progress::of(completed as u128, total as u128),
            )
        },
        Notice::FilesChecked { total } => PatchMessage::Downloading(
            checked_message(total),
            Progress::full(),
        ),
        Notice::LaunchingGame => PatchMessage::Downloading(
            "Let's play the game!".to_owned(),
            Progress::full(),
        ),
        Notice::Failed(failure) => PatchMessage::Error(failure.message().to_owned()),
    }
}

} // verus!
