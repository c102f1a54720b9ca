//! The worker: the patcher's state, and the step that moves it.
//!
//! A [`PatchWorker`] is made once from the build's settings and the running
//! binary's name. The driver starts it with [`PatchWorker::begin`] and then
//! answers each request with [`PatchWorker::step`]. What a step decides is
//! what [`crate::machine::next`] says, and nothing else.

use crate::installer::ZipEntry;
use crate::machine::{archive_sound, next, sound, walking};
use crate::machine::{Control, Facts, Outcome, Phase, Walk};
use crate::manifest::{subdir_by_name, Directory};
use crate::message::{render, GUIMessage, Notice, PatchMessage, Platform};
use crate::model::{lemma_after_sound, lemma_run_at, lemma_walk_rows, walk_of, Endpoints, Model};
use crate::paths::{identify, is_sidecar, path_style, sidecar_of, style_of};
use crate::paths::{without_extension, Identity};
use crate::plan::{check_patches_dir, children_entries, members_follow, texts, views};
use crate::plan::{Entry, EntryView};
use crate::plan::{lemma_leaves_bound, lemma_leaves_prefix, lemma_leaves_step};
use crate::protocol::{Fetched, PatchError, Request, Response};
use crate::steps::{
    check_patcher_aecoupdate, check_patches_archive, check_patches_file,
    check_platform_patches, disorder, download_patch_metadata, download_server_status,
    ensure_game_installed, go, main_loop, start_game, unpack_base, walk, Turn,
};
use crate::text::joined;
use crate::url::{join_url, parse_url, text_of, url_joined, url_parsed};
use vstd::prelude::*;
use vstd::string::*;

verus! {

/// What a build fixes: where the patch server is, what lies where on it,
/// and what the game's executable is called.
#[derive(Clone, Debug)]
pub struct Settings {
    /// The server's root URL.
    pub patch_server: String,
    /// The directory of the base game, relative to the root.
    pub base_dir: String,
    /// The base game's archive, relative to its directory.
    pub base_zip: String,
    /// The directory of the metadata, relative to the root.
    pub meta_dir: String,
    /// The manifest, relative to the metadata's directory.
    pub patchlist: String,
    /// The status document, relative to the metadata's directory.
    pub status: String,
    /// The directory of the patches, relative to the root.
    pub patch_dir: String,
    /// The game's executable, relative to the install directory.
    pub game_exe: String,
}

/// The URLs that `settings` lead to: the root is parsed, and every other
/// URL is resolved against the one above it. The first URL that cannot be
/// had decides the error.
pub open spec fn endpoints(settings: Settings) -> Result<Endpoints, Seq<char>> {
    match url_parsed(settings.patch_server@) {
        Err(why) => Err(why),
        Ok(server) => match url_joined(server, settings.base_dir@) {
            Err(why) => Err(why),
            Ok(game_base) => match url_joined(game_base, settings.base_zip@) {
                Err(why) => Err(why),
                Ok(game_zip) => match url_joined(server, settings.meta_dir@) {
                    Err(why) => Err(why),
                    Ok(meta) => match url_joined(meta, settings.patchlist@) {
                        Err(why) => Err(why),
                        Ok(patchlist) => match url_joined(meta, settings.status@) {
                            Err(why) => Err(why),
                            Ok(status) => match url_joined(server, settings.patch_dir@) {
                                Err(why) => Err(why),
                                Ok(patch) => Ok(
                                    Endpoints {
                                        server,
                                        game_base,
                                        game_zip,
                                        patchlist,
                                        status,
                                        patch,
                                    },
                                ),
                            },
                        },
                    },
                },
            },
        },
    }
}

/// What a manifest holds for a platform, laid out.
#[derive(Debug)]
pub enum Layout {
    /// No subtree of that name.
    Missing,
    /// A subtree whose URL does not resolve.
    Unrooted,
    /// A subtree, as the entries of its walk.
    Planned(Vec<Entry>),
}

impl View for Layout {
    type V = Walk;

    open spec fn view(&self) -> Walk {
        match self {
            Layout::Missing => Walk::Missing,
            Layout::Unrooted => Walk::Unrooted,
            Layout::Planned(entries) => Walk::Planned(views(entries@)),
        }
    }
}

/// What the worker tells the driver after a step.
#[derive(Debug)]
pub struct Reaction {
    /// What the front end is told, in order.
    pub notices: Vec<Notice>,
    /// What the driver does next.
    pub request: Request,
}

/// Lays out what `manifest` holds for the platform `tag`.
fn lay_out(manifest: &Directory, tag: &str, patch_url: &str, exe: &str) -> (layout: Layout)
    ensures
        layout@ == walk_of(*manifest, tag@, patch_url@, exe@),
        layout@.entries().len() <= usize::MAX,
{
    match subdir_by_name(manifest, tag) {
        None => Layout::Missing,
        Some(dir) => match join_url(patch_url, joined(tag, "/").as_str()) {
            Ok(root) => {
                let mut plan: Vec<Entry> = Vec::new();
                let dirs: Vec<String> = Vec::new();
                let root = Some(root);
                assert(views(plan@) =~= Seq::<EntryView>::empty());
                assert(texts(dirs@) =~= Seq::<Seq<char>>::empty());
                check_patches_dir(dir, &dirs, &root, exe, &mut plan);
                assert(views(plan@) =~= children_entries(
                    dir.children@,
                    Seq::empty(),
                    text_of(root),
                    exe@,
                ));
                assert(views(plan@).len() == plan.len());
                Layout::Planned(plan)
            },
            Err(_) => Layout::Unrooted,
        },
    }
}

/// The patcher's worker.
pub struct PatchWorker {
    exe: String,
    counterpart: String,
    host: String,
    game_exe: String,
    server_url: String,
    game_base_url: String,
    game_zip_url: String,
    patchlist_url: String,
    status_url: String,
    patch_url: String,
    control: Control,
    members: Vec<ZipEntry>,
    all: Layout,
    native: Layout,
}

impl View for PatchWorker {
    type V = Model;

    closed spec fn view(&self) -> Model {
        Model {
            control: self.control,
            facts: Facts { members: self.members@, all: self.all@, host: self.native@ },
            urls: Endpoints {
                server: self.server_url@,
                game_base: self.game_base_url@,
                game_zip: self.game_zip_url@,
                patchlist: self.patchlist_url@,
                status: self.status_url@,
                patch: self.patch_url@,
            },
            exe: self.exe@,
            counterpart: self.counterpart@,
            host: self.host@,
            game_exe: self.game_exe@,
        }
    }
}

impl PatchWorker {
    #[verifier::type_invariant]
    spec fn well_formed(&self) -> bool {
        self@.sound()
    }

    /// A worker for the binary called `exe` on the platform `host`, with the
    /// URLs that `settings` lead to. It has not begun. There is no worker
    /// where one of the URLs cannot be had: the error says why, in the
    /// words of the first that failed.
    pub fn new(settings: &Settings, exe: &str, host: &str) -> (made: Result<PatchWorker, String>)
        ensures
            match made {
                Ok(worker) => {
                    &&& endpoints(*settings) == Ok::<Endpoints, Seq<char>>(worker@.urls)
                    &&& worker@.control == Control::initial(is_sidecar(exe@), style_of(host@))
                    &&& worker@.facts == (Facts {
                        members: Seq::empty(),
                        all: Walk::Missing,
                        host: Walk::Missing,
                    })
                    &&& worker@.exe == exe@
                    &&& worker@.host == host@
                    &&& worker@.game_exe == settings.game_exe@
                    &&& worker@.sound()
                },
                Err(why) => endpoints(*settings) == Err::<Endpoints, Seq<char>>(why@),
            },
    {
        let server_url = match parse_url(settings.patch_server.as_str()) {
            Ok(url) => url,
            Err(why) => {
                return Err(why);
            },
        };
        let game_base_url = match join_url(server_url.as_str(), settings.base_dir.as_str()) {
            Ok(url) => url,
            Err(why) => {
                return Err(why);
            },
        };
        let game_zip_url = match join_url(game_base_url.as_str(), settings.base_zip.as_str()) {
            Ok(url) => url,
            Err(why) => {
                return Err(why);
            },
        };
        let meta_url = match join_url(server_url.as_str(), settings.meta_dir.as_str()) {
            Ok(url) => url,
            Err(why) => {
                return Err(why);
            },
        };
        let patchlist_url = match join_url(meta_url.as_str(), settings.patchlist.as_str()) {
            Ok(url) => url,
            Err(why) => {
                return Err(why);
            },
        };
        let status_url = match join_url(meta_url.as_str(), settings.status.as_str()) {
            Ok(url) => url,
            Err(why) => {
                return Err(why);
            },
        };
        let patch_url = match join_url(server_url.as_str(), settings.patch_dir.as_str()) {
            Ok(url) => url,
            Err(why) => {
                return Err(why);
            },
        };
        let (replacement, counterpart) = match identify(exe) {
            Identity::Regular { sidecar } => (false, sidecar),
            Identity::Replacement { target } => (true, target),
        };
        let control = Control {
            phase: Phase::Idle,
            replacement,
            style: path_style(host),
            attempt: 0,
            downloaded: 0,
            announced: None,
            member: 0,
            unpacked: 0,
            unpack_total: 0,
            platform: Platform::All,
            cursor: 0,
            completed: 0,
            total: 0,
            dirty: false,
            opened: 0,
            checked: 0,
            updated: false,
            error: None,
        };
        let members: Vec<ZipEntry> = Vec::new();
        proof {
            reveal(members_follow);
            reveal(archive_sound);
        }
        Ok(
            PatchWorker {
                exe: exe.to_owned(),
                counterpart,
                host: host.to_owned(),
                game_exe: settings.game_exe.clone(),
                server_url,
                game_base_url,
                game_zip_url,
                patchlist_url,
                status_url,
                patch_url,
                control,
                members,
                all: Layout::Missing,
                native: Layout::Missing,
            },
        )
    }

    fn layout(&self, platform: Platform) -> (layout: &Layout)
        ensures
            layout@ == self@.facts.walk(platform),
    {
        match platform {
            Platform::All => &self.all,
            Platform::Host => &self.native,
        }
    }

    fn decide(&self, response: &Response) -> (turn: Turn)
        ensures
            turn.is(self@.outcome(*response)),
    {
        proof {
            use_type_invariant(self);
            reveal(next);
        }
        let c = self.control;
        match c.phase {
            Phase::Idle => main_loop(c, response),
            Phase::ProbingSidecar
            | Phase::RemovingSidecar
            | Phase::RemovalPause
            | Phase::CopyingSelf
            | Phase::CopyPause
            | Phase::StartingRestored => check_patcher_aecoupdate(c, response),
            Phase::AwaitStatus => download_server_status(c, response),
            Phase::AwaitGame | Phase::OpeningBase | Phase::Streaming => ensure_game_installed(
                c,
                response,
            ),
            Phase::OpeningZip | Phase::Unpacking | Phase::Extracting => unpack_base(
                c,
                &self.members,
                response,
            ),
            Phase::AwaitManifest => download_patch_metadata(c, response),
            Phase::Planning => check_platform_patches(c, self.layout(c.platform), response),
            Phase::Exited => go(c, Phase::Exited, Vec::new(), Request::Exit),
            Phase::Stopped => go(c, Phase::Stopped, Vec::new(), Request::Stop),
            Phase::StartingUpdated | Phase::Launching | Phase::LaunchPause => start_game(
                c,
                response,
            ),
            _ => match self.layout(c.platform) {
                Layout::Planned(plan) => {
                    proof {
                        lemma_leaves_bound(views(plan@));
                        lemma_leaves_bound(views(plan@).take(c.cursor as int));
                        lemma_leaves_prefix(views(plan@), c.cursor as int);
                        if c.cursor < plan@.len() {
                            lemma_leaves_step(views(plan@), c.cursor as int);
                            lemma_leaves_prefix(views(plan@), c.cursor + 1);
                        }
                        lemma_leaves_bound(self@.facts.all.entries());
                    }
                    match c.phase {
                        Phase::Walking => match response {
                            Response::Continued => walk(c, plan),
                            _ => disorder(c),
                        },
                        Phase::Probing | Phase::Fetching(_) | Phase::Writing(_) => {
                            check_patches_file(c, &plan[c.cursor], response)
                        },
                        _ => check_patches_archive(c, &plan[c.cursor], response),
                    }
                },
                _ => {
                    // A worker in a walk has laid the walk out.
                    assert(walking(c.phase) && self@.facts.walk(c.platform) is Planned);
                    disorder(c)
                },
            },
        }
    }

    /// Takes the driver's response and decides what comes next.
    pub fn step(&mut self, response: Response) -> (reaction: Reaction)
        ensures
            final(self)@ == old(self)@.after(response),
            reaction.notices@ == old(self)@.outcome(response).notices,
            reaction.request == old(self)@.outcome(response).request,
            final(self)@.sound(),
    {
        proof {
            use_type_invariant(&*self);
        }
        let turn = self.decide(&response);
        let phase = self.control.phase;
        let ghost before = self@;
        match response {
            Response::ZipListed(Ok(listed)) => {
                if phase == Phase::OpeningZip {
                    assert(listed@.len() == listed.len());
                    proof {
                        reveal(archive_sound);
                    }
                    assert(sound(self.control, Facts { members: listed@, ..self@.facts }));
                    self.members = listed;
                }
            },
            Response::Manifest(Fetched::Decoded(manifest)) => {
                if phase == Phase::AwaitManifest {
                    let all = lay_out(&manifest, "all", self.patch_url.as_str(), self.exe.as_str());
                    let native = lay_out(
                        &manifest,
                        self.host.as_str(),
                        self.patch_url.as_str(),
                        self.exe.as_str(),
                    );
                    proof {
                        reveal(archive_sound);
                        lemma_walk_rows(manifest, "all"@, self.patch_url@, self.exe@);
                        lemma_walk_rows(manifest, self.host@, self.patch_url@, self.exe@);
                    }
                    self.all = all;
                    self.native = native;
                }
            },
            _ => {},
        }
        proof {
            assert(self@.facts == before.facts_after(response));
            lemma_after_sound(before, response);
        }
        self.control = turn.control;
        Reaction { notices: turn.notices, request: turn.request }
    }

    /// Starts the worker: the first patch routine begins as if the front end
    /// had asked for it.
    pub fn begin(&mut self) -> (reaction: Reaction)
        ensures
            final(self)@ == old(self)@.after(Response::Inbox(Some(GUIMessage::Retry))),
            reaction.notices@ == old(self)@.outcome(
                Response::Inbox(Some(GUIMessage::Retry)),
            ).notices,
            reaction.request == old(self)@.outcome(
                Response::Inbox(Some(GUIMessage::Retry)),
            ).request,
            final(self)@.sound(),
    {
        self.step(Response::Inbox(Some(GUIMessage::Retry)))
    }

    /// Runs the worker on a script: it begins, and then takes `responses`
    /// one after the other. The reactions come back in order, the first of
    /// them for the beginning.
    pub fn run(&mut self, responses: Vec<Response>) -> (reactions: Vec<Reaction>)
        ensures
            final(self)@ == old(self)@.after_all(script(responses@)),
            reactions@.len() == responses@.len() + 1,
            forall|i: int|
                0 <= i < reactions@.len() ==> reacts(
                    #[trigger] reactions@[i],
                    old(self)@.run(script(responses@))[i],
                ),
            final(self)@.sound(),
    {
        let ghost start = self@;
        let ghost all = script(responses@);
        let mut reactions: Vec<Reaction> = Vec::new();
        let first = self.begin();
        reactions.push(first);
        proof {
            assert(all.take(1) =~= seq![Response::Inbox(Some(GUIMessage::Retry))]);
            assert(all.take(1).drop_last() =~= Seq::<Response>::empty());
            lemma_run_at(start, all, 0);
            assert(all.take(0) =~= Seq::<Response>::empty());
        }
        let ghost given = responses@;
        for response in it: responses.into_iter()
            invariant
                it.seq() == given,
                all == script(given),
                self@ == start.after_all(all.take(it.index() + 1)),
                reactions@.len() == it.index() + 1,
                forall|i: int|
                    0 <= i < reactions@.len() ==> reacts(
                        #[trigger] reactions@[i],
                        start.run(all)[i],
                    ),
        {
            let ghost at = it.index() + 1;
            let ghost before = self@;
            let reaction = self.step(response);
            proof {
                assert(all[at] == response);
                assert(all.take(at + 1).drop_last() =~= all.take(at));
                assert(all.take(at + 1).last() == all[at]);
                lemma_run_at(start, all, at);
            }
            reactions.push(reaction);
        }
        proof {
            assert(all.take(given.len() as int + 1) =~= all);
            use_type_invariant(&*self);
        }
        reactions
    }

    /// The front end's message for `notice`.
    pub fn message(&self, notice: Notice) -> (message: PatchMessage)
        ensures
            message@ == notice.message(self@.host),
    {
        render(notice, self.host.as_str())
    }

    /// The phase and the counters.
    pub fn control(&self) -> (control: Control)
        ensures
            control == self@.control,
    {
        self.control
    }

    /// Why the last routine ended early, if it did.
    pub fn error(&self) -> (error: Option<PatchError>)
        ensures
            error == self@.control.error,
    {
        self.control.error
    }

    /// The entry of the current walk at `index`, if the walk is that long.
    pub fn entry(&self, index: usize) -> (entry: Option<&Entry>)
        ensures
            match entry {
                Some(entry) => index < self@.facts.plan(self@.control.platform).len() && entry@
                    == self@.facts.plan(self@.control.platform)[index as int],
                None => index >= self@.facts.plan(self@.control.platform).len(),
            },
    {
        match self.layout(self.control.platform) {
            Layout::Planned(plan) => if index < plan.len() {
                Some(&plan[index])
            } else {
                None
            },
            _ => None,
        }
    }

    /// The member of the base game's archive at `index`, if it has that
    /// many.
    pub fn member(&self, index: usize) -> (member: Option<&ZipEntry>)
        ensures
            match member {
                Some(member) => index < self@.facts.members.len() && *member
                    == self@.facts.members[index as int],
                None => index >= self@.facts.members.len(),
            },
    {
        if index < self.members.len() {
            Some(&self.members[index])
        } else {
            None
        }
    }

    /// The file name of the running binary.
    pub fn exe_name(&self) -> (name: &str)
        ensures
            name@ == self@.exe,
    {
        self.exe.as_str()
    }

    /// The file name of the binary's counterpart: of its sidecar, or of the
    /// regular binary where the running binary is a sidecar itself.
    pub fn counterpart(&self) -> (name: &str)
        ensures
            name@ == self@.counterpart,
            self@.control.replacement == is_sidecar(self@.exe),
            self@.control.replacement ==> name@ == without_extension(self@.exe),
            !self@.control.replacement ==> name@ == sidecar_of(self@.exe),
    {
        proof {
            use_type_invariant(self);
        }
        self.counterpart.as_str()
    }

    /// The sidecar that a walk has written and that is to take over, if
    /// there is one.
    pub fn updated_patcher(&self) -> (sidecar: Option<&str>)
        ensures
            match sidecar {
                Some(name) => self@.control.updated && name@ == sidecar_of(self@.exe),
                None => !self@.control.updated || self@.control.replacement,
            },
    {
        proof {
            use_type_invariant(self);
        }
        if self.control.updated && !self.control.replacement {
            Some(self.counterpart.as_str())
        } else {
            None
        }
    }

    /// The tag of the host's platform.
    pub fn host(&self) -> (tag: &str)
        ensures
            tag@ == self@.host,
    {
        self.host.as_str()
    }

    /// The game's executable, relative to the install directory.
    pub fn game_exe(&self) -> (path: &str)
        ensures
            path@ == self@.game_exe,
    {
        self.game_exe.as_str()
    }

    /// The server's root URL.
    pub fn server_url(&self) -> (url: &str)
        ensures
            url@ == self@.urls.server,
    {
        self.server_url.as_str()
    }

    /// The URL of the base game's directory.
    pub fn game_base_url(&self) -> (url: &str)
        ensures
            url@ == self@.urls.game_base,
    {
        self.game_base_url.as_str()
    }

    /// The URL of the base game's archive.
    pub fn game_zip_url(&self) -> (url: &str)
        ensures
            url@ == self@.urls.game_zip,
    {
        self.game_zip_url.as_str()
    }

    /// The URL of the manifest.
    pub fn patchlist_url(&self) -> (url: &str)
        ensures
            url@ == self@.urls.patchlist,
    {
        self.patchlist_url.as_str()
    }

    /// The URL of the status document.
    pub fn status_url(&self) -> (url: &str)
        ensures
            url@ == self@.urls.status,
    {
        self.status_url.as_str()
    }

    /// The URL below which the patches lie.
    pub fn patch_url(&self) -> (url: &str)
        ensures
            url@ == self@.urls.patch,
    {
        self.patch_url.as_str()
    }
}

/// What a scripted run takes: the request for the first routine, then the
/// script.
pub open spec fn script(responses: Seq<Response>) -> Seq<Response> {
    seq![Response::Inbox(Some(GUIMessage::Retry))] + responses
}

/// Whether `reaction` tells and asks for what `outcome` says.
pub open spec fn reacts(reaction: Reaction, outcome: Outcome) -> bool {
    reaction.notices@ == outcome.notices && reaction.request == outcome.request
}

} // verus!
