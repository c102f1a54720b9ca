//! What passes between the worker and the code that drives it.
//!
//! The worker never touches the outside world. It hands out a [`Request`],
//! the driver carries it out and hands back a [`Response`], and the worker
//! decides what comes next.

use crate::installer::ZipEntry;
use crate::manifest::{Directory, ServerStatus};
use crate::message::GUIMessage;
use vstd::prelude::*;

verus! {

/// Where downloaded bytes of a file are written.
#[derive(Clone, Copy, Debug, PartialEq, Eq, Structural)]
pub enum Target {
    /// Over the file that was checked.
    InPlace,
    /// Beside the running binary, as its sidecar.
    Sidecar,
}

/// A binary that the worker has started in its own place.
#[derive(Clone, Copy, Debug, PartialEq, Eq, Structural)]
pub enum Binary {
    /// The binary under its regular name, just copied from the sidecar.
    Restored,
    /// The sidecar that a walk has just written.
    Updated,
}

/// Work for the driver.
#[derive(Clone, Copy, Debug, PartialEq, Eq, Structural)]
pub enum Request {
    /// Wait for the front end's next message.
    Receive,
    /// Nothing to do outside: ask again.
    Continue,
    /// Wait for so many milliseconds.
    Sleep { millis: u64 },
    /// Tell whether the running binary has a sidecar on disk.
    ProbeSidecar,
    /// Remove the sidecar.
    RemoveSidecar,
    /// Copy the running binary over the binary of its regular name.
    CopySelf,
    /// Start a binary, detached.
    Spawn { binary: Binary },
    /// End the process with exit code 0.
    Exit,
    /// End the worker.
    Stop,
    /// Fetch the server's status and decode it.
    FetchStatus,
    /// Tell whether the game's executable is in the install directory.
    ProbeGame,
    /// Ask the server for the base game and create the temporary file that
    /// takes it.
    OpenBase,
    /// Take the next chunk of the base game and write it to the temporary
    /// file.
    NextChunk,
    /// Open the temporary file as a ZIP archive and list its members.
    OpenZip,
    /// Create the directory that member `member` stands for, and set the
    /// Unix mode `mode` on it where there is one and the host knows modes.
    CreateDirectory { member: usize, mode: Option<u32> },
    /// Unpack member `member` to its place, and set the mode likewise.
    ExtractFile { member: usize, mode: Option<u32> },
    /// Fetch the manifest and decode it.
    FetchManifest,
    /// Tell whether the file of entry `entry` is on disk, and with what
    /// digest.
    ProbeFile { entry: usize },
    /// Fetch what entry `entry` must hold into memory.
    Download { entry: usize },
    /// Write what was fetched last to the file of entry `entry`, or to the
    /// sidecar.
    WriteFile { entry: usize, target: Target },
    /// Open the archive of entry `entry`.
    OpenArchive { entry: usize },
    /// Tell whether the open archive holds the member of entry `entry`, and
    /// with what digest.
    ReadMember { entry: usize },
    /// Put what was fetched last into the open archive as the member of
    /// entry `entry`.
    AddMember { entry: usize },
    /// Write the open archive's changes out.
    Finalize,
    /// Compact the open archive.
    Defrag,
    /// Start the game.
    LaunchGame,
}

/// Why a transfer failed.
#[derive(Clone, Debug, PartialEq, Eq)]
pub enum FetchError {
    /// The request could not be sent, or the body broke off.
    Transport(String),
    /// The server answered with a status that is no success.
    HttpStatus(u16),
    /// A file could not be created or written.
    Io(String),
    /// The server announced more bytes than memory can address.
    SizeOverflow,
}

/// What came of fetching a document and decoding it.
#[derive(Debug)]
pub enum Fetched<T> {
    /// It did not arrive.
    Failed(FetchError),
    /// It arrived and was not what it should be.
    Undecodable(String),
    /// It arrived and says this.
    Decoded(T),
}

/// Why the transfer of the base game did not begin.
#[derive(Clone, Copy, Debug, PartialEq, Eq, Structural)]
pub enum OpenError {
    /// The request could not be sent.
    Send,
    /// The server answered with this status, which is no success.
    Status(u16),
    /// The temporary file could not be created.
    TempFile,
}

/// Why a chunk of the base game was lost.
#[derive(Clone, Copy, Debug, PartialEq, Eq, Structural)]
pub enum ChunkError {
    /// The stream broke off.
    Stream,
    /// The chunk could not be written to the temporary file.
    Write,
}

/// Why the base game's archive could not be listed.
#[derive(Clone, Copy, Debug, PartialEq, Eq, Structural)]
pub enum ListError {
    /// It is no ZIP archive.
    Open,
    /// One of its members could not be read.
    Read,
}

/// What is found where a file or an archive member should be.
#[derive(Clone, Debug, PartialEq, Eq)]
pub enum Probe {
    /// Nothing.
    Missing,
    /// Content with this digest.
    Present(Vec<u8>),
    /// Something that cannot be read.
    Unreadable,
}

/// What the driver found or did.
#[derive(Debug)]
pub enum Response {
    /// The front end's message, or `None` where the front end is gone.
    Inbox(Option<GUIMessage>),
    /// The answer to `Continue` and to `Sleep`.
    Continued,
    /// Whether what was asked for is there.
    Exists(bool),
    /// Whether the work was done.
    Done(bool),
    /// The server's status.
    Status(Fetched<ServerStatus>),
    /// The manifest.
    Manifest(Fetched<Directory>),
    /// The transfer of the base game has begun; with the length that the
    /// server announced, if it did.
    BaseOpened(Result<Option<u64>, OpenError>),
    /// A chunk of so many bytes is in the temporary file; `None` at the end
    /// of the stream.
    Chunk(Result<Option<u64>, ChunkError>),
    /// The members of the base game's archive.
    ZipListed(Result<Vec<ZipEntry>, ListError>),
    /// What is in a file's or a member's place.
    Probed(Probe),
    /// Whether the download arrived.
    Fetched(Result<(), FetchError>),
}

/// Why a patch routine or a launch ended early.
#[derive(Clone, Copy, Debug, PartialEq, Eq, Structural)]
pub enum PatchError {
    /// A request could not be sent, or a body broke off.
    Transport,
    /// The server answered a request with this status.
    HttpStatus(u16),
    /// The status or the manifest could not be decoded.
    Parse,
    /// The server is under maintenance.
    ServerMaintenance,
    /// A file could not be read, created or written.
    Io,
    /// A member of the base game's archive leads out of the install
    /// directory.
    UnsafeArchivePath,
    /// The archive of entry `archive` could not be opened or read.
    ArchiveRead { archive: usize },
    /// The archive of entry `archive` could not be written.
    ArchiveWrite { archive: usize },
    /// The running binary could not be replaced, or its sidecar not be
    /// removed.
    SelfReplace,
    /// A URL did not resolve.
    Url,
    /// More bytes arrived than can be counted.
    SizeOverflow,
    /// A binary or the game could not be started.
    Launch,
    /// The response does not answer the request.
    Disorder,
}

/// The error that stands for a failed transfer.
pub open spec fn error_of(error: FetchError) -> PatchError {
    match error {
        FetchError::Transport(_) => PatchError::Transport,
        FetchError::HttpStatus(code) => PatchError::HttpStatus(code),
        FetchError::Io(_) => PatchError::Io,
        FetchError::SizeOverflow => PatchError::SizeOverflow,
    }
}

/// The error that stands for a failed transfer.
pub fn patch_error(error: &FetchError) -> (e: PatchError)
    ensures
        e == error_of(*error),
{
    match error {
        FetchError::Transport(_) => PatchError::Transport,
        FetchError::HttpStatus(code) => PatchError::HttpStatus(*code),
        FetchError::Io(_) => PatchError::Io,
        FetchError::SizeOverflow => PatchError::SizeOverflow,
    }
}

} // verus!
