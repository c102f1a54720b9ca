//! A worker as the contracts see it.
//!
//! A [`Model`] holds what a worker decides by and what it was made with. A
//! step of the worker is [`Model::after`]; what the step tells and asks for
//! is [`Model::outcome`]; a run is one step after the other.

use crate::machine::{holdable, lemma_next_sound, next, sound};
use crate::machine::{Control, Facts, Outcome, Phase, Walk};
use crate::manifest::{subdir_position, Directory, FSObject};
use crate::paths::{is_sidecar, sidecar_of, style_of, without_extension};
use crate::plan::{archives_in_a_row, children_entries, lemma_entries_follow};
use crate::plan::{lemma_entries_rows, members_follow};
use crate::protocol::{Fetched, Response};
use crate::url::resolved;
use vstd::prelude::*;

verus! {

/// The URLs that a worker talks to.
pub struct Endpoints {
    pub server: Seq<char>,
    pub game_base: Seq<char>,
    pub game_zip: Seq<char>,
    pub patchlist: Seq<char>,
    pub status: Seq<char>,
    pub patch: Seq<char>,
}

/// What `manifest` holds for the platform `tag`, for a worker whose patches
/// lie below `patch_url` and whose binary is called `exe`: the first
/// directory of that name among the manifest's children, walked from the
/// install directory and from the URL of that name below `patch_url`.
pub open spec fn walk_of(
    manifest: Directory,
    tag: Seq<char>,
    patch_url: Seq<char>,
    exe: Seq<char>,
) -> Walk {
    let at = subdir_position(manifest.children@, tag);
    if at >= manifest.children@.len() {
        Walk::Missing
    } else {
        match manifest.children@[at as int] {
            FSObject::Directory(dir) => match resolved(Some(patch_url), tag + "/"@) {
                Some(root) => Walk::Planned(
                    children_entries(dir.children@, Seq::empty(), Some(root), exe),
                ),
                None => Walk::Unrooted,
            },
            _ => Walk::Missing,
        }
    }
}

/// A worker as the contracts see it: its control, the facts it holds, and
/// what it was made with.
pub struct Model {
    pub control: Control,
    pub facts: Facts,
    /// The URLs it talks to.
    pub urls: Endpoints,
    /// The file name of the running binary.
    pub exe: Seq<char>,
    /// The file name of the binary's counterpart: of its sidecar, or of the
    /// regular binary if it is a sidecar itself.
    pub counterpart: Seq<char>,
    /// The tag of the host's platform.
    pub host: Seq<char>,
    /// The game's executable, relative to the install directory.
    pub game_exe: Seq<char>,
}

impl Model {
    /// Where `response` takes the worker.
    pub open spec fn outcome(self, response: Response) -> Outcome {
        next(self.control, self.facts, response)
    }

    /// The facts that the worker holds once it has taken `response`: a list
    /// of the base game's members replaces the members, a manifest
    /// replaces the walks of both platforms, and nothing else changes
    /// anything.
    pub open spec fn facts_after(self, response: Response) -> Facts {
        match (self.control.phase, response) {
            (Phase::OpeningZip, Response::ZipListed(Ok(listed))) => Facts {
                members: listed@,
                ..self.facts
            },
            (Phase::AwaitManifest, Response::Manifest(Fetched::Decoded(manifest))) => Facts {
                members: self.facts.members,
                all: walk_of(manifest, "all"@, self.urls.patch, self.exe),
                host: walk_of(manifest, self.host, self.urls.patch, self.exe),
            },
            _ => self.facts,
        }
    }

    /// The worker once it has taken `response`.
    pub open spec fn after(self, response: Response) -> Model {
        Model {
            control: self.outcome(response).control,
            facts: self.facts_after(response),
            ..self
        }
    }

    /// What holds of a worker at every moment.
    pub open spec fn sound(self) -> bool {
        &&& sound(self.control, self.facts)
        &&& self.control.replacement == is_sidecar(self.exe)
        &&& self.control.style == style_of(self.host)
        &&& self.counterpart == if self.control.replacement {
            without_extension(self.exe)
        } else {
            sidecar_of(self.exe)
        }
    }

    /// The worker once it has taken `responses` one after the other.
    pub open spec fn after_all(self, responses: Seq<Response>) -> Model
        decreases responses.len(),
    {
        if responses.len() == 0 {
            self
        } else {
            self.after_all(responses.drop_last()).after(responses.last())
        }
    }

    /// What a worker tells and asks for while it takes `responses` one after
    /// the other: for each response the outcome of the step that takes it.
    pub open spec fn run(self, responses: Seq<Response>) -> Seq<Outcome>
        decreases responses.len(),
    {
        if responses.len() == 0 {
            Seq::empty()
        } else {
            self.run(responses.drop_last()).push(
                self.after_all(responses.drop_last()).outcome(responses.last()),
            )
        }
    }

    /// Whether everything that the worker lays out while it takes
    /// `responses` fits into memory.
    pub open spec fn fits(self, responses: Seq<Response>) -> bool
        decreases responses.len(),
    {
        if responses.len() == 0 {
            true
        } else {
            self.fits(responses.drop_last()) && holdable(self.after_all(responses).facts)
        }
    }
}

/// A step keeps a worker sound, as long as what it lays out fits into
/// memory.
pub proof fn lemma_after_sound(m: Model, response: Response)
    requires
        m.sound(),
        holdable(m.facts_after(response)),
    ensures
        m.after(response).sound(),
{
    reveal(next);
    if let Response::Manifest(Fetched::Decoded(manifest)) = response {
        lemma_walk_rows(manifest, "all"@, m.urls.patch, m.exe);
        lemma_walk_rows(manifest, m.host, m.urls.patch, m.exe);
    }
    lemma_next_sound(m.control, m.facts, response, m.facts_after(response));
}

/// Every archive of a walk that a manifest holds has its entries in a row,
/// and no member of the walk stands outside an archive.
pub proof fn lemma_walk_rows(
    manifest: Directory,
    tag: Seq<char>,
    patch_url: Seq<char>,
    exe: Seq<char>,
)
    ensures
        archives_in_a_row(walk_of(manifest, tag, patch_url, exe).entries()),
        members_follow(walk_of(manifest, tag, patch_url, exe).entries()),
{
    reveal(members_follow);
    let at = subdir_position(manifest.children@, tag);
    if at < manifest.children@.len() {
        if let FSObject::Directory(dir) = manifest.children@[at as int] {
            if let Some(root) = resolved(Some(patch_url), tag + "/"@) {
                lemma_entries_rows(dir.children@, Seq::empty(), Some(root), exe);
                lemma_entries_follow(dir.children@, Seq::empty(), Some(root), exe);
            }
        }
    }
}

/// A run has one outcome for each response.
pub proof fn lemma_run_len(m: Model, responses: Seq<Response>)
    ensures
        m.run(responses).len() == responses.len(),
    decreases responses.len(),
{
    if responses.len() > 0 {
        lemma_run_len(m, responses.drop_last());
    }
}

/// The outcome at a place in a run is that of the step which takes the
/// response at that place, after all the responses before it.
pub proof fn lemma_run_at(m: Model, responses: Seq<Response>, at: int)
    requires
        0 <= at < responses.len(),
    ensures
        m.run(responses).len() == responses.len(),
        m.run(responses)[at] == m.after_all(responses.take(at)).outcome(responses[at]),
    decreases responses.len(),
{
    lemma_run_len(m, responses);
    lemma_run_len(m, responses.drop_last());
    if at == responses.len() - 1 {
        assert(responses.take(at) =~= responses.drop_last());
    } else {
        lemma_run_at(m, responses.drop_last(), at);
        assert(responses.drop_last().take(at) =~= responses.take(at));
    }
}

} // verus!
