//! The fetcher's bookkeeping, and what each kind of download tells the
//! front end.
//!
//! A transfer begins with the server's answer: its status and the length
//! it announces, if it does. After that the body arrives chunk by chunk.
//! The driver sends the request and takes the chunks; what is kept, what is
//! counted and what is reported after each chunk is decided here.

use crate::manifest::{Directory, ServerStatus};
use crate::message::{Failure, Notice, Subject};
use crate::protocol::{error_of, patch_error, FetchError, Fetched, PatchError};
use vstd::prelude::*;

verus! {

/// Whether an HTTP status is a success: one of the 2xx.
pub open spec fn is_success(status: u16) -> bool {
    200 <= status < 300
}

/// A download that is kept in memory.
#[derive(Debug)]
pub struct MemoryFile {
    announced: Option<u64>,
    data: Vec<u8>,
}

/// A download that goes to a temporary file.
#[derive(Debug)]
pub struct TempFile {
    announced: Option<u64>,
    downloaded: u64,
}

/// What a transfer reports after a chunk: the bytes that have arrived so
/// far, and the length that the server announced, if it did.
#[derive(Clone, Copy, Debug, PartialEq, Eq, Structural)]
pub struct Report {
    pub downloaded: u64,
    pub total: Option<u64>,
}

/// Whether a transfer begins, given the server's answer: not where the
/// status is no success, and not into memory where the announced length is
/// more than memory can address.
pub open spec fn refusal(status: u16, announced: Option<u64>, in_memory: bool) -> Option<
    FetchError,
> {
    if !is_success(status) {
        Some(FetchError::HttpStatus(status))
    } else if in_memory && announced is Some && announced->0 > usize::MAX {
        Some(FetchError::SizeOverflow)
    } else {
        None
    }
}

/// Begins a download into memory, given the status of the server's answer
/// and the length it announces.
pub fn memory_file(status: u16, announced: Option<u64>) -> (begun: Result<MemoryFile, FetchError>)
    ensures
        match begun {
            Ok(file) => refusal(status, announced, true) is None && file.announced() == announced
                && file.body() == Seq::<u8>::empty(),
            Err(error) => refusal(status, announced, true) == Some(error),
        },
{
    if status < 200 || status >= 300 {
        return Err(FetchError::HttpStatus(status));
    }
    let data: Vec<u8> = match announced {
        Some(size) => {
            if size > usize::MAX as u64 {
                return Err(FetchError::SizeOverflow);
            }
            Vec::with_capacity(size as usize)
        },
        None => Vec::new(),
    };
    Ok(MemoryFile { announced, data })
}

impl MemoryFile {
    /// The length that the server announced.
    pub closed spec fn announced(&self) -> Option<u64> {
        self.announced
    }

    /// The bytes that have arrived.
    pub closed spec fn body(&self) -> Seq<u8> {
        self.data@
    }

    /// Whether another `len` bytes can be kept and counted.
    pub open spec fn has_room(&self, len: nat) -> bool {
        self.body().len() + len <= usize::MAX && self.body().len() + len <= u64::MAX
    }

    /// Whether another `len` bytes can be kept and counted.
    pub fn room_for(&self, len: usize) -> (room: bool)
        ensures
            room == self.has_room(len as nat),
    {
        let sum = self.data.len() as u128 + len as u128;
        sum <= usize::MAX as u128 && sum <= u64::MAX as u128
    }

    /// Takes a chunk: its bytes follow those that are there, and the report
    /// counts them all.
    pub fn chunk(&mut self, bytes: &[u8]) -> (report: Report)
        requires
            old(self).has_room(bytes@.len()),
        ensures
            final(self).body() == old(self).body() + bytes@,
            final(self).announced() == old(self).announced(),
            report == (Report {
                downloaded: final(self).body().len() as u64,
                total: old(self).announced(),
            }),
    {
        let ghost before = self.data@;
        self.data.extend_from_slice(bytes);
        assert(self.data@ =~= before + bytes@);
        Report { downloaded: self.data.len() as u64, total: self.announced }
    }

    /// Ends the download: the whole body.
    pub fn finish(self) -> (body: Vec<u8>)
        ensures
            body@ == self.body(),
    {
        self.data
    }
}

/// Begins a download to a temporary file, given the status of the server's
/// answer and the length it announces.
pub fn temp_file(status: u16, announced: Option<u64>) -> (begun: Result<TempFile, FetchError>)
    ensures
        match begun {
            Ok(file) => refusal(status, announced, false) is None && file.announced()
                == announced && file.downloaded() == 0,
            Err(error) => refusal(status, announced, false) == Some(error),
        },
{
    if status < 200 || status >= 300 {
        return Err(FetchError::HttpStatus(status));
    }
    Ok(TempFile { announced, downloaded: 0 })
}

impl TempFile {
    /// The length that the server announced.
    pub closed spec fn announced(&self) -> Option<u64> {
        self.announced
    }

    /// The number of bytes that have been written.
    pub closed spec fn downloaded(&self) -> u64 {
        self.downloaded
    }

    /// Whether another `len` bytes can be counted.
    pub fn room_for(&self, len: usize) -> (room: bool)
        ensures
            room == (self.downloaded() + len <= u64::MAX),
    {
        self.downloaded as u128 + len as u128 <= u64::MAX as u128
    }

    /// Counts a chunk of `len` bytes that has been written to the file.
    pub fn chunk(&mut self, len: usize) -> (report: Report)
        requires
            old(self).downloaded() + len <= u64::MAX,
        ensures
            final(self).downloaded() == old(self).downloaded() + len,
            final(self).announced() == old(self).announced(),
            report == (Report {
                downloaded: final(self).downloaded(),
                total: old(self).announced(),
            }),
    {
        self.downloaded = self.downloaded + len as u64;
        Report { downloaded: self.downloaded, total: self.announced }
    }
}

/// Why a download ended, and what the front end is told of it.
#[derive(Clone, Copy, Debug, PartialEq, Eq, Structural)]
pub struct Setback {
    pub error: PatchError,
    pub notice: Notice,
}

/// The setback of a document that did not arrive or could not be decoded.
pub open spec fn setback_of<T>(fetched: Fetched<T>, missing: Failure, garbled: Failure) -> Option<
    Setback,
> {
    match fetched {
        Fetched::Failed(error) => Some(
            Setback { error: error_of(error), notice: Notice::Failed(missing) },
        ),
        Fetched::Undecodable(_) => Some(
            Setback { error: PatchError::Parse, notice: Notice::Failed(garbled) },
        ),
        Fetched::Decoded(_) => None,
    }
}

/// The server's status, or what the front end is told where there is none.
pub fn server_status(fetched: Fetched<ServerStatus>) -> (status: Result<ServerStatus, Setback>)
    ensures
        match status {
            Ok(status) => fetched == Fetched::Decoded(status),
            Err(setback) => setback_of(
                fetched,
                Failure::GetServerStatus,
                Failure::ParseServerStatus,
            ) == Some(setback),
        },
{
    match fetched {
        Fetched::Failed(error) => Err(
            Setback {
                error: patch_error(&error),
                notice: Notice::Failed(Failure::GetServerStatus),
            },
        ),
        Fetched::Undecodable(_) => Err(
            Setback {
                error: PatchError::Parse,
                notice: Notice::Failed(Failure::ParseServerStatus),
            },
        ),
        Fetched::Decoded(status) => Ok(status),
    }
}

/// The manifest, or what the front end is told where there is none.
pub fn patch_metadata(fetched: Fetched<Directory>) -> (manifest: Result<Directory, Setback>)
    ensures
        match manifest {
            Ok(manifest) => fetched == Fetched::Decoded(manifest),
            Err(setback) => setback_of(fetched, Failure::GetPatchInfo, Failure::ParsePatchInfo)
                == Some(setback),
        },
{
    match fetched {
        Fetched::Failed(error) => Err(
            Setback { error: patch_error(&error), notice: Notice::Failed(Failure::GetPatchInfo) },
        ),
        Fetched::Undecodable(_) => Err(
            Setback { error: PatchError::Parse, notice: Notice::Failed(Failure::ParsePatchInfo) },
        ),
        Fetched::Decoded(manifest) => Ok(manifest),
    }
}

/// What the front end is told after a chunk of the manifest.
pub fn patch_metadata_progress(report: Report) -> (notice: Notice)
    ensures
        notice == (Notice::Transfer {
            subject: Subject::PatchInfo,
            downloaded: report.downloaded,
            total: report.total,
        }),
{
    Notice::Transfer {
        subject: Subject::PatchInfo,
        downloaded: report.downloaded,
        total: report.total,
    }
}

/// The bytes of a patched file, or what the front end is told where they
/// did not arrive.
pub fn patch(fetched: Result<Vec<u8>, FetchError>) -> (bytes: Result<Vec<u8>, Setback>)
    ensures
        match (fetched, bytes) {
            (Ok(body), Ok(bytes)) => bytes == body,
            (Err(error), Err(setback)) => setback == (Setback {
                error: error_of(error),
                notice: Notice::Failed(Failure::DownloadPatch),
            }),
            _ => false,
        },
{
    match fetched {
        Ok(body) => Ok(body),
        Err(error) => Err(
            Setback { error: patch_error(&error), notice: Notice::Failed(Failure::DownloadPatch) },
        ),
    }
}

/// What the front end is told while the base game arrives: after a chunk,
/// how far the transfer is; after a failure, that it failed.
pub fn game_base(event: Result<Report, FetchError>) -> (told: Result<Notice, Setback>)
    ensures
        match (event, told) {
            (Ok(report), Ok(notice)) => notice == (Notice::Transfer {
                subject: Subject::BaseGame,
                downloaded: report.downloaded,
                total: report.total,
            }),
            (Err(error), Err(setback)) => setback == (Setback {
                error: error_of(error),
                notice: Notice::Failed(Failure::DownloadBaseGame),
            }),
            _ => false,
        },
{
    match event {
        Ok(report) => Ok(
            Notice::Transfer {
                subject: Subject::BaseGame,
                downloaded: report.downloaded,
                total: report.total,
            },
        ),
        Err(error) => Err(
            Setback {
                error: patch_error(&error),
                notice: Notice::Failed(Failure::DownloadBaseGame),
            },
        ),
    }
}

} // verus!
