use std::collections::HashMap;

use aeco_patcher::installer::ZipEntry;
use aeco_patcher::machine::Phase;
use aeco_patcher::manifest::{Archive, Directory, FSObject, File, ServerStatus};
use aeco_patcher::message::{
    Failure, GUIMessage, Notice, PatchMessage, PatchStatus, Platform, Progress, Subject,
};
use aeco_patcher::plan::Entry;
use aeco_patcher::protocol::{
    Binary, ChunkError, FetchError, Fetched, ListError, OpenError, PatchError, Probe, Request,
    Response, Target,
};
use aeco_patcher::worker::{PatchWorker, Reaction, Settings};

const HOST: &str = "linux-x86_64";

fn settings() -> Settings {
    Settings {
        patch_server: "https://patch.example.com/".to_string(),
        base_dir: "base/".to_string(),
        base_zip: "game.zip".to_string(),
        meta_dir: "meta/".to_string(),
        patchlist: "patchlist.json".to_string(),
        status: "status.json".to_string(),
        patch_dir: "patch/".to_string(),
        game_exe: "game.exe".to_string(),
    }
}

fn worker(exe: &str) -> PatchWorker {
    PatchWorker::new(&settings(), exe, HOST).expect("worker")
}

fn digest_of(content: &str) -> Vec<u8> {
    let mut sum: u32 = 17;
    for byte in content.bytes() {
        sum = sum.wrapping_mul(31).wrapping_add(byte as u32);
    }
    sum.to_be_bytes().to_vec()
}

fn file(name: &str, content: &str) -> FSObject {
    FSObject::File(File { name: name.to_string(), digest: digest_of(content) })
}

fn member(name: &str, content: &str) -> File {
    File { name: name.to_string(), digest: digest_of(content) }
}

fn dir(name: &str, children: Vec<FSObject>) -> FSObject {
    FSObject::Directory(Directory { name: name.to_string(), children })
}

fn archive(name: &str, files: Vec<File>) -> FSObject {
    FSObject::Archive(Archive { name: name.to_string(), files })
}

/// all/{a, sub/{b}, data{x, y}} and linux-x86_64/{c}
fn manifest() -> Directory {
    Directory {
        name: "root".to_string(),
        children: vec![
            dir(
                "all",
                vec![
                    file("a", "alpha"),
                    dir("sub", vec![file("b", "beta")]),
                    archive("data", vec![member("x", "xray"), member("y", "yankee")]),
                ],
            ),
            dir(HOST, vec![file("c", "charlie")]),
            dir("windows-x86_64", vec![file("d", "delta")]),
        ],
    }
}

/// The outside world of a worker, in memory.
struct World {
    manifest: fn() -> Directory,
    status: ServerStatus,
    sidecar: bool,
    game: bool,
    chunks: Vec<u64>,
    announced: Option<u64>,
    zip: Vec<ZipEntry>,
    files: HashMap<String, Vec<u8>>,
    archives: HashMap<String, HashMap<String, Vec<u8>>>,
    open: Option<String>,
    fetched: Option<Vec<u8>>,
    requests: Vec<Request>,
    notices: Vec<Notice>,
    downloads: Vec<String>,
    writes: Vec<String>,
    finalized: Vec<String>,
    defragged: Vec<String>,
    unpacked: Vec<String>,
    spawned: Vec<Binary>,
    inbox: Vec<GUIMessage>,
}

impl World {
    fn new(manifest: fn() -> Directory) -> World {
        World {
            manifest,
            status: ServerStatus::Online,
            sidecar: false,
            game: true,
            chunks: vec![],
            announced: None,
            zip: vec![],
            files: HashMap::new(),
            archives: HashMap::new(),
            open: None,
            fetched: None,
            requests: vec![],
            notices: vec![],
            downloads: vec![],
            writes: vec![],
            finalized: vec![],
            defragged: vec![],
            unpacked: vec![],
            spawned: vec![],
            inbox: vec![],
        }
    }

    fn in_agreement(manifest: fn() -> Directory) -> World {
        let mut world = World::new(manifest);
        world.files.insert("a".to_string(), digest_of("alpha"));
        world.files.insert("sub/b".to_string(), digest_of("beta"));
        world.files.insert("c".to_string(), digest_of("charlie"));
        let mut data = HashMap::new();
        data.insert("x".to_string(), digest_of("xray"));
        data.insert("y".to_string(), digest_of("yankee"));
        world.archives.insert("data.hed".to_string(), data);
        world
    }

    fn answer(&mut self, worker: &PatchWorker, request: Request) -> Option<Response> {
        self.requests.push(request);
        Some(match request {
            Request::Receive => {
                if self.inbox.is_empty() {
                    return None;
                }
                Response::Inbox(Some(self.inbox.remove(0)))
            }
            Request::Exit | Request::Stop => return None,
            Request::Continue | Request::Sleep { .. } => Response::Continued,
            Request::ProbeSidecar => Response::Exists(self.sidecar),
            Request::RemoveSidecar => {
                self.sidecar = false;
                Response::Done(true)
            }
            Request::CopySelf => Response::Done(true),
            Request::Spawn { binary } => {
                self.spawned.push(binary);
                Response::Done(true)
            }
            Request::FetchStatus => Response::Status(Fetched::Decoded(self.status)),
            Request::ProbeGame => Response::Exists(self.game),
            Request::OpenBase => Response::BaseOpened(Ok(self.announced)),
            Request::NextChunk => {
                if self.chunks.is_empty() {
                    Response::Chunk(Ok(None))
                } else {
                    Response::Chunk(Ok(Some(self.chunks.remove(0))))
                }
            }
            Request::OpenZip => Response::ZipListed(Ok(self.zip.clone())),
            Request::CreateDirectory { member, .. } | Request::ExtractFile { member, .. } => {
                let entry = worker.member(member).expect("member");
                self.unpacked.push(entry.name.clone());
                if entry.name == "game.exe" {
                    self.game = true;
                }
                Response::Done(true)
            }
            Request::FetchManifest => Response::Manifest(Fetched::Decoded((self.manifest)())),
            Request::ProbeFile { entry } => match worker.entry(entry).expect("entry") {
                Entry::File { path, .. } => match self.files.get(&path.join("/")) {
                    Some(digest) => Response::Probed(Probe::Present(digest.clone())),
                    None => Response::Probed(Probe::Missing),
                },
                other => panic!("probe of {:?}", other),
            },
            Request::Download { entry } => match worker.entry(entry).expect("entry") {
                Entry::File { url, digest, .. } | Entry::Member { url, digest, .. } => {
                    self.downloads.push(url.clone().expect("url"));
                    self.fetched = Some(digest.clone());
                    Response::Fetched(Ok(()))
                }
                other => panic!("download of {:?}", other),
            },
            Request::WriteFile { entry, target } => match worker.entry(entry).expect("entry") {
                Entry::File { path, .. } => {
                    let place = match target {
                        Target::InPlace => path.join("/"),
                        Target::Sidecar => worker.counterpart().to_string(),
                    };
                    self.writes.push(place.clone());
                    self.files.insert(place, self.fetched.take().expect("fetched"));
                    Response::Done(true)
                }
                other => panic!("write of {:?}", other),
            },
            Request::OpenArchive { entry } => match worker.entry(entry).expect("entry") {
                Entry::Open { hed, .. } => {
                    let key = hed.join("/");
                    self.archives.entry(key.clone()).or_default();
                    self.open = Some(key);
                    Response::Done(true)
                }
                other => panic!("open of {:?}", other),
            },
            Request::ReadMember { entry } => match worker.entry(entry).expect("entry") {
                Entry::Member { name, .. } => {
                    let archive = &self.archives[self.open.as_ref().expect("open")];
                    match archive.get(name) {
                        Some(digest) => Response::Probed(Probe::Present(digest.clone())),
                        None => Response::Probed(Probe::Missing),
                    }
                }
                other => panic!("read of {:?}", other),
            },
            Request::AddMember { entry } => match worker.entry(entry).expect("entry") {
                Entry::Member { name, .. } => {
                    let key = self.open.clone().expect("open");
                    let content = self.fetched.take().expect("fetched");
                    self.writes.push(format!("{}:{}", key, name));
                    self.archives.get_mut(&key).expect("archive").insert(name.clone(), content);
                    Response::Done(true)
                }
                other => panic!("add of {:?}", other),
            },
            Request::Finalize => {
                self.finalized.push(self.open.clone().expect("open"));
                Response::Done(true)
            }
            Request::Defrag => {
                self.defragged.push(self.open.clone().expect("open"));
                Response::Done(true)
            }
            Request::LaunchGame => Response::Done(true),
        })
    }

    /// Drives the worker until it waits for the front end with an empty
    /// inbox, or ends.
    fn drive(&mut self, worker: &mut PatchWorker, first: Reaction) -> Request {
        let mut reaction = first;
        for _ in 0..10_000 {
            self.notices.extend(reaction.notices.iter().copied());
            match self.answer(worker, reaction.request) {
                Some(response) => reaction = worker.step(response),
                None => return reaction.request,
            }
        }
        panic!("the worker does not come to rest");
    }

    fn routine(&mut self, worker: &mut PatchWorker) -> Request {
        let first = worker.begin();
        self.drive(worker, first)
    }

    fn retry(&mut self, worker: &mut PatchWorker) -> Request {
        let first = worker.step(Response::Inbox(Some(GUIMessage::Retry)));
        self.drive(worker, first)
    }

    fn texts(&self, worker: &PatchWorker) -> Vec<PatchMessage> {
        self.notices.iter().map(|n| worker.message(*n)).collect()
    }
}

fn downloading(text: &str, done: u128, total: u128) -> PatchMessage {
    PatchMessage::Downloading(text.to_string(), Progress { done, total })
}

fn checking(completed: usize, total: usize, platform: Platform) -> Notice {
    Notice::CheckingFile { completed, total, platform }
}

#[test]
fn new_resolves_the_urls() {
    let worker = worker("patcher.exe");
    assert_eq!(worker.server_url(), "https://patch.example.com/");
    assert_eq!(worker.game_base_url(), "https://patch.example.com/base/");
    assert_eq!(worker.game_zip_url(), "https://patch.example.com/base/game.zip");
    assert_eq!(worker.patchlist_url(), "https://patch.example.com/meta/patchlist.json");
    assert_eq!(worker.status_url(), "https://patch.example.com/meta/status.json");
    assert_eq!(worker.patch_url(), "https://patch.example.com/patch/");
    assert_eq!(worker.exe_name(), "patcher.exe");
    assert_eq!(worker.counterpart(), "patcher.exe.aecoupdate");
    assert_eq!(worker.host(), HOST);
    assert_eq!(worker.game_exe(), "game.exe");
    assert_eq!(worker.control().phase, Phase::Idle);
    assert!(!worker.control().replacement);
    assert_eq!(worker.updated_patcher(), None);
    assert_eq!(worker.error(), None);
}

#[test]
fn new_passes_on_why_a_url_cannot_be_had() {
    let mut bad = settings();
    bad.patch_server = "patch.example.com".to_string();
    match PatchWorker::new(&bad, "patcher", HOST) {
        Err(why) => assert_eq!(why, "relative URL without a base"),
        Ok(_) => panic!("a worker without a server"),
    }
    let mut bad = settings();
    bad.meta_dir = "https://[".to_string();
    match PatchWorker::new(&bad, "patcher", HOST) {
        Err(why) => assert_eq!(why, "invalid IPv6 address"),
        Ok(_) => panic!("a worker without metadata"),
    }
}

#[test]
fn scenario_maintenance() {
    let mut worker = worker("patcher.exe");
    let reactions = worker.run(vec![
        Response::Exists(false),
        Response::Status(Fetched::Decoded(ServerStatus::Maintenance)),
    ]);
    assert_eq!(reactions.len(), 3);
    assert_eq!(reactions[0].notices, vec![Notice::Status(PatchStatus::Working)]);
    assert_eq!(reactions[0].request, Request::ProbeSidecar);
    assert_eq!(reactions[1].notices, vec![Notice::CheckingServer]);
    assert_eq!(reactions[1].request, Request::FetchStatus);
    assert_eq!(
        reactions[2].notices,
        vec![Notice::ServerDown, Notice::Status(PatchStatus::Error)]
    );
    assert_eq!(reactions[2].request, Request::Receive);
    assert_eq!(
        worker.message(reactions[2].notices[0]),
        PatchMessage::Connecting("Server is down for maintenance".to_string())
    );
    assert_eq!(
        worker.message(reactions[2].notices[1]),
        PatchMessage::PatchStatus(PatchStatus::Error)
    );
    assert_eq!(worker.error(), Some(PatchError::ServerMaintenance));
    assert!(reactions.iter().all(|r| r.request != Request::FetchManifest));
}

#[test]
fn scenario_no_op() {
    let mut worker = worker("patcher.exe");
    let mut world = World::in_agreement(manifest);
    assert_eq!(world.routine(&mut worker), Request::Receive);
    assert!(world.downloads.is_empty());
    assert!(world.writes.is_empty());
    assert!(world.finalized.is_empty());
    assert!(world.defragged.is_empty());
    assert_eq!(
        world.notices,
        vec![
            Notice::Status(PatchStatus::Working),
            Notice::CheckingServer,
            Notice::ServerOnline,
            Notice::CheckingInstallation,
            checking(0, 4, Platform::All),
            checking(1, 4, Platform::All),
            checking(2, 4, Platform::All),
            checking(3, 4, Platform::All),
            Notice::FilesChecked { total: 4 },
            checking(0, 1, Platform::Host),
            Notice::FilesChecked { total: 1 },
            Notice::Status(PatchStatus::Finished),
        ]
    );
    let texts = world.texts(&worker);
    assert_eq!(texts[4], downloading("Checking file 1 / 4 for platform 'all'", 0, 4));
    assert_eq!(texts[7], downloading("Checking file 4 / 4 for platform 'all'", 3, 4));
    assert_eq!(texts[8], downloading("4 files checked.", 1, 1));
    assert_eq!(
        texts[9],
        downloading("Checking file 1 / 1 for platform 'linux-x86_64'", 0, 1)
    );
    assert_eq!(texts[10], downloading("1 files checked.", 1, 1));
    assert_eq!(worker.control().checked, 5);
    assert_eq!(worker.control().phase, Phase::Idle);
    assert_eq!(worker.error(), None);
}

#[test]
fn scenario_single_mismatch() {
    let mut worker = worker("patcher.exe");
    let mut world = World::in_agreement(manifest);
    world.files.insert("sub/b".to_string(), digest_of("betb"));
    assert_eq!(world.routine(&mut worker), Request::Receive);
    assert_eq!(world.downloads, vec!["https://patch.example.com/patch/all/sub/b".to_string()]);
    assert_eq!(world.writes, vec!["sub/b".to_string()]);
    assert_eq!(world.files["sub/b"], digest_of("beta"));
    assert!(world.finalized.is_empty());
    assert_eq!(worker.control().checked, 5);
    assert_eq!(worker.updated_patcher(), None);
    assert_eq!(*world.notices.last().unwrap(), Notice::Status(PatchStatus::Finished));
}

#[test]
fn scenario_self_update() {
    fn with_patcher() -> Directory {
        Directory {
            name: "root".to_string(),
            children: vec![dir(
                HOST,
                vec![file("patcher.exe", "new patcher"), dir("sub", vec![file("patcher.exe", "other")])],
            )],
        }
    }
    let mut worker = worker("patcher.exe");
    let mut world = World::new(with_patcher);
    world.files.insert("patcher.exe".to_string(), digest_of("old patcher"));
    world.files.insert("sub/patcher.exe".to_string(), digest_of("another"));
    assert_eq!(world.routine(&mut worker), Request::Exit);
    assert_eq!(
        world.writes,
        vec!["patcher.exe.aecoupdate".to_string(), "sub/patcher.exe".to_string()]
    );
    assert_eq!(world.files["patcher.exe"], digest_of("old patcher"));
    assert_eq!(world.files["patcher.exe.aecoupdate"], digest_of("new patcher"));
    assert_eq!(world.spawned, vec![Binary::Updated]);
    assert_eq!(worker.updated_patcher(), Some("patcher.exe.aecoupdate"));
    assert_eq!(worker.control().phase, Phase::Exited);
    let finished = world
        .notices
        .iter()
        .position(|n| *n == Notice::Status(PatchStatus::Finished))
        .expect("finished");
    assert_eq!(finished, world.notices.len() - 1);
    let spawn = world
        .requests
        .iter()
        .position(|r| *r == Request::Spawn { binary: Binary::Updated })
        .expect("spawn");
    assert_eq!(world.requests[spawn + 1], Request::Exit);
}

#[test]
fn a_matching_binary_is_left_alone() {
    fn with_patcher() -> Directory {
        Directory {
            name: "root".to_string(),
            children: vec![dir("all", vec![file("patcher.exe", "patcher")])],
        }
    }
    let mut worker = worker("patcher.exe");
    let mut world = World::new(with_patcher);
    world.files.insert("patcher.exe".to_string(), digest_of("patcher"));
    assert_eq!(world.routine(&mut worker), Request::Receive);
    assert!(world.writes.is_empty());
    assert!(world.spawned.is_empty());
    assert_eq!(worker.updated_patcher(), None);
}

#[test]
fn scenario_archive_repair() {
    fn two_archives() -> Directory {
        Directory {
            name: "root".to_string(),
            children: vec![dir(
                "all",
                vec![
                    archive("data", vec![member("x", "xray"), member("y", "yankee")]),
                    archive("sound", vec![member("s", "sierra")]),
                ],
            )],
        }
    }
    let mut worker = worker("patcher");
    let mut world = World::new(two_archives);
    let mut data = HashMap::new();
    data.insert("x".to_string(), digest_of("xray"));
    world.archives.insert("data.hed".to_string(), data);
    let mut sound = HashMap::new();
    sound.insert("s".to_string(), digest_of("sierra"));
    world.archives.insert("sound.hed".to_string(), sound);
    assert_eq!(world.routine(&mut worker), Request::Receive);
    assert_eq!(
        world.downloads,
        vec!["https://patch.example.com/patch/all/data.archive/y".to_string()]
    );
    assert_eq!(world.writes, vec!["data.hed:y".to_string()]);
    assert_eq!(world.finalized, vec!["data.hed".to_string()]);
    assert_eq!(world.defragged, vec!["data.hed".to_string()]);
    assert_eq!(world.archives["data.hed"]["y"], digest_of("yankee"));
    let finalize = world.requests.iter().position(|r| *r == Request::Finalize).unwrap();
    assert_eq!(world.requests[finalize + 1], Request::Defrag);
    assert_eq!(worker.control().checked, 3);
    assert!(!worker.control().dirty);
}

#[test]
fn scenario_cold_install() {
    let mut worker = worker("patcher");
    let mut world = World::new(manifest);
    world.game = false;
    world.announced = Some(3072);
    world.chunks = vec![1024, 2048];
    world.zip = vec![
        ZipEntry { name: "data/".to_string(), size: 0, unix_mode: Some(0o755) },
        ZipEntry { name: "game.exe".to_string(), size: 2048, unix_mode: Some(0o755) },
        ZipEntry { name: "data/readme.txt".to_string(), size: 1024, unix_mode: None },
    ];
    assert_eq!(world.routine(&mut worker), Request::Receive);
    assert_eq!(
        world.unpacked,
        vec!["data/".to_string(), "game.exe".to_string(), "data/readme.txt".to_string()]
    );
    assert!(world.requests.contains(&Request::CreateDirectory { member: 0, mode: Some(0o755) }));
    assert!(world.requests.contains(&Request::ExtractFile { member: 1, mode: Some(0o755) }));
    assert!(world.requests.contains(&Request::ExtractFile { member: 2, mode: None }));
    let texts = world.texts(&worker);
    let expected = vec![
        PatchMessage::PatchStatus(PatchStatus::Working),
        PatchMessage::Connecting("Checking server status".to_string()),
        PatchMessage::Connecting("Server is online".to_string()),
        downloading("Checking game installation", 1, 1),
        downloading("Downloading base game (1024 B / 3.00 KiB)", 1024, 3072),
        downloading("Downloading base game (3.00 KiB / 3.00 KiB)", 3072, 3072),
        downloading("Finished downloading base game", 1, 1),
        downloading("Extracting base game", 0, 1),
        downloading("Extracting file 1 of 3 (0 B / 3.00 KiB)", 0, 3072),
        downloading("Extracting file 2 of 3 (0 B / 3.00 KiB)", 0, 3072),
        downloading("Extracting file 3 of 3 (2.00 KiB / 3.00 KiB)", 2048, 3072),
        downloading("Finished installing base game", 1, 1),
    ];
    assert_eq!(texts[..expected.len()], expected[..]);
    assert_eq!(*world.notices.last().unwrap(), Notice::Status(PatchStatus::Finished));
    assert_eq!(world.writes.len(), 5);
    assert_eq!(worker.control().checked, 5);
    for (path, content) in [("a", "alpha"), ("sub/b", "beta"), ("c", "charlie")] {
        assert_eq!(world.files[path], digest_of(content));
    }
    assert_eq!(world.archives["data.hed"]["x"], digest_of("xray"));
    assert_eq!(world.archives["data.hed"]["y"], digest_of("yankee"));
}

#[test]
fn a_second_routine_tells_the_same_and_writes_nothing() {
    let mut worker = worker("patcher");
    let mut world = World::new(manifest);
    world.routine(&mut worker);
    let first: Vec<Notice> = world.notices.drain(..).collect();
    let written = world.writes.len();
    assert_eq!(written, 5);
    world.requests.clear();
    world.downloads.clear();
    world.finalized.clear();
    world.defragged.clear();
    world.retry(&mut worker);
    assert_eq!(world.notices, first);
    assert_eq!(world.writes.len(), written);
    assert!(world.downloads.is_empty());
    assert!(world.finalized.is_empty());
    assert!(world.defragged.is_empty());
    assert!(world.requests.iter().all(|r| !matches!(
        r,
        Request::Download { .. }
            | Request::WriteFile { .. }
            | Request::AddMember { .. }
            | Request::Finalize
            | Request::Defrag
    )));
}

#[test]
fn a_routine_leaves_the_disk_as_the_manifest_declares_it() {
    let mut worker = worker("patcher");
    let mut world = World::new(manifest);
    world.files.insert("a".to_string(), digest_of("stale"));
    let mut data = HashMap::new();
    data.insert("x".to_string(), digest_of("stale"));
    data.insert("extra".to_string(), digest_of("kept"));
    world.archives.insert("data.hed".to_string(), data);
    assert_eq!(world.routine(&mut worker), Request::Receive);
    assert_eq!(world.files["a"], digest_of("alpha"));
    assert_eq!(world.files["sub/b"], digest_of("beta"));
    assert_eq!(world.files["c"], digest_of("charlie"));
    assert!(!world.files.contains_key("d"));
    assert_eq!(world.archives["data.hed"]["x"], digest_of("xray"));
    assert_eq!(world.archives["data.hed"]["y"], digest_of("yankee"));
    assert_eq!(world.archives["data.hed"]["extra"], digest_of("kept"));
    assert_eq!(world.finalized.len(), 1);
    assert_eq!(world.defragged.len(), 1);
}

#[test]
fn leaves_are_announced_in_declaration_order() {
    fn deep() -> Directory {
        Directory {
            name: "root".to_string(),
            children: vec![dir(
                "all",
                vec![
                    dir("z", vec![file("2", "two"), dir("y", vec![file("1", "one")]), file("0", "zero")]),
                    file("m", "mike"),
                    archive("ar", vec![member("q", "quebec"), member("p", "papa")]),
                    dir("a", vec![file("9", "nine")]),
                ],
            )],
        }
    }
    let mut worker = worker("patcher");
    let mut world = World::new(deep);
    world.routine(&mut worker);
    assert_eq!(
        world.downloads,
        vec![
            "https://patch.example.com/patch/all/z/2",
            "https://patch.example.com/patch/all/z/y/1",
            "https://patch.example.com/patch/all/z/0",
            "https://patch.example.com/patch/all/m",
            "https://patch.example.com/patch/all/ar.archive/q",
            "https://patch.example.com/patch/all/ar.archive/p",
            "https://patch.example.com/patch/all/a/9",
        ]
    );
    assert_eq!(
        world.writes,
        vec!["z/2", "z/y/1", "z/0", "m", "ar.hed:q", "ar.hed:p", "a/9"]
    );
    let announced: Vec<usize> = world
        .notices
        .iter()
        .filter_map(|n| match n {
            Notice::CheckingFile { completed, total: 7, platform: Platform::All } => Some(*completed),
            _ => None,
        })
        .collect();
    assert_eq!(announced, vec![0, 1, 2, 3, 4, 5, 6]);
}

#[test]
fn progress_never_falls_within_a_walk_and_stays_within_bounds() {
    let mut worker = worker("patcher");
    let mut world = World::new(manifest);
    world.game = false;
    world.announced = Some(100);
    world.chunks = vec![60, 60];
    world.zip = vec![ZipEntry { name: "game.exe".to_string(), size: 10, unix_mode: None }];
    world.routine(&mut worker);
    let mut last: Option<(Platform, Progress)> = None;
    for notice in &world.notices {
        if let PatchMessage::Downloading(_, progress) = worker.message(*notice) {
            assert!(progress.done <= progress.total);
            assert!(progress.total > 0);
        }
        match notice {
            Notice::CheckingFile { platform, .. } => {
                let progress = match worker.message(*notice) {
                    PatchMessage::Downloading(_, progress) => progress,
                    other => panic!("unexpected {:?}", other),
                };
                if let Some((before, earlier)) = last {
                    if before == *platform {
                        assert!(
                            earlier.done * progress.total <= progress.done * earlier.total
                        );
                    }
                }
                last = Some((*platform, progress));
            }
            _ => {}
        }
    }
    assert!(world.notices.contains(&Notice::Transfer {
        subject: Subject::BaseGame,
        downloaded: 120,
        total: Some(100),
    }));
    assert_eq!(
        worker.message(Notice::Transfer {
            subject: Subject::BaseGame,
            downloaded: 120,
            total: Some(100),
        }),
        downloading("Downloading base game (120 B / 100 B)", 100, 100)
    );
}

#[test]
fn the_count_at_the_end_is_the_number_of_leaves() {
    fn only_host() -> Directory {
        Directory {
            name: "root".to_string(),
            children: vec![dir(
                HOST,
                vec![file("c", "charlie"), archive("data", vec![member("x", "xray")])],
            )],
        }
    }
    fn nothing() -> Directory {
        Directory { name: "root".to_string(), children: vec![] }
    }
    let mut first = worker("patcher");
    let mut world = World::new(manifest);
    world.routine(&mut first);
    assert_eq!(first.control().checked, 5);
    let mut second = worker("patcher");
    let mut world = World::new(only_host);
    world.routine(&mut second);
    assert_eq!(second.control().checked, 2);
    assert_eq!(
        world.notices.iter().filter(|n| matches!(n, Notice::FilesChecked { .. })).count(),
        1
    );
    let mut third = worker("patcher");
    let mut world = World::new(nothing);
    assert_eq!(world.routine(&mut third), Request::Receive);
    assert_eq!(third.control().checked, 0);
    assert_eq!(
        world.notices,
        vec![
            Notice::Status(PatchStatus::Working),
            Notice::CheckingServer,
            Notice::ServerOnline,
            Notice::CheckingInstallation,
            Notice::Status(PatchStatus::Finished),
        ]
    );
}

#[test]
fn a_sidecar_restores_the_binary_and_ends() {
    let mut worker = worker("patcher.exe.aecoupdate");
    assert!(worker.control().replacement);
    assert_eq!(worker.counterpart(), "patcher.exe");
    let reactions = worker.run(vec![Response::Done(true), Response::Done(true)]);
    assert_eq!(reactions[0].notices, vec![Notice::Status(PatchStatus::Working)]);
    assert_eq!(reactions[0].request, Request::CopySelf);
    assert_eq!(reactions[1].request, Request::Spawn { binary: Binary::Restored });
    assert_eq!(reactions[2].request, Request::Exit);
    assert!(reactions[1].notices.is_empty() && reactions[2].notices.is_empty());
    assert_eq!(worker.control().phase, Phase::Exited);
    assert_eq!(worker.step(Response::Continued).request, Request::Exit);
}

#[test]
fn a_copy_is_tried_five_times() {
    let mut worker = worker("patcher.aecoupdate");
    let mut responses = vec![];
    for _ in 0..4 {
        responses.push(Response::Done(false));
        responses.push(Response::Continued);
    }
    responses.push(Response::Done(false));
    let reactions = worker.run(responses);
    let requests: Vec<Request> = reactions.iter().map(|r| r.request).collect();
    assert_eq!(
        requests,
        vec![
            Request::CopySelf,
            Request::Sleep { millis: 250 },
            Request::CopySelf,
            Request::Sleep { millis: 250 },
            Request::CopySelf,
            Request::Sleep { millis: 250 },
            Request::CopySelf,
            Request::Sleep { millis: 250 },
            Request::CopySelf,
            Request::Receive,
        ]
    );
    assert_eq!(
        reactions[9].notices,
        vec![Notice::Failed(Failure::OverwritePatcher), Notice::Status(PatchStatus::Error)]
    );
    assert_eq!(worker.error(), Some(PatchError::SelfReplace));
    assert_eq!(
        worker.message(Notice::Failed(Failure::OverwritePatcher)),
        PatchMessage::Error("Failed to overwrite old patcher".to_string())
    );
}

#[test]
fn a_copy_that_works_on_the_third_try_goes_on() {
    let mut worker = worker("patcher.aecoupdate");
    let reactions = worker.run(vec![
        Response::Done(false),
        Response::Continued,
        Response::Done(false),
        Response::Continued,
        Response::Done(true),
        Response::Done(false),
    ]);
    assert_eq!(reactions[5].request, Request::Spawn { binary: Binary::Restored });
    assert_eq!(
        reactions[6].notices,
        vec![
            Notice::Failed(Failure::StartOverwrittenLauncher),
            Notice::Status(PatchStatus::Error)
        ]
    );
    assert_eq!(worker.error(), Some(PatchError::Launch));
}

#[test]
fn a_leftover_sidecar_is_removed_with_retries() {
    let mut worker = worker("patcher.exe");
    let reactions = worker.run(vec![
        Response::Exists(true),
        Response::Done(false),
        Response::Continued,
        Response::Done(true),
    ]);
    let requests: Vec<Request> = reactions.iter().map(|r| r.request).collect();
    assert_eq!(
        requests,
        vec![
            Request::ProbeSidecar,
            Request::RemoveSidecar,
            Request::Sleep { millis: 250 },
            Request::RemoveSidecar,
            Request::FetchStatus,
        ]
    );
    let mut worker = worker_with_failed_removal();
    assert_eq!(worker.error(), Some(PatchError::SelfReplace));
    assert_eq!(worker.step(Response::Inbox(None)).request, Request::Stop);
}

fn worker_with_failed_removal() -> PatchWorker {
    let mut worker = worker("patcher.exe");
    let mut responses = vec![Response::Exists(true)];
    for _ in 0..4 {
        responses.push(Response::Done(false));
        responses.push(Response::Continued);
    }
    responses.push(Response::Done(false));
    let reactions = worker.run(responses);
    let last = reactions.last().unwrap();
    assert_eq!(
        last.notices,
        vec![
            Notice::Failed(Failure::RemoveTemporaryLauncher),
            Notice::Status(PatchStatus::Error)
        ]
    );
    assert_eq!(last.request, Request::Receive);
    assert_eq!(
        reactions.iter().filter(|r| r.request == Request::RemoveSidecar).count(),
        5
    );
    worker
}

fn at_status() -> PatchWorker {
    let mut worker = worker("patcher");
    worker.run(vec![Response::Exists(false)]);
    assert_eq!(worker.control().phase, Phase::AwaitStatus);
    worker
}

fn at_game_probe() -> PatchWorker {
    let mut worker = at_status();
    let reaction = worker.step(Response::Status(Fetched::Decoded(ServerStatus::Online)));
    assert_eq!(reaction.notices, vec![Notice::ServerOnline, Notice::CheckingInstallation]);
    assert_eq!(reaction.request, Request::ProbeGame);
    worker
}

fn failed(reaction: &Reaction, failure: Failure) {
    assert_eq!(
        reaction.notices,
        vec![Notice::Failed(failure), Notice::Status(PatchStatus::Error)]
    );
    assert_eq!(reaction.request, Request::Receive);
}

#[test]
fn a_status_that_does_not_arrive_ends_the_routine() {
    let mut worker = at_status();
    let reaction = worker.step(Response::Status(Fetched::Failed(FetchError::HttpStatus(503))));
    failed(&reaction, Failure::GetServerStatus);
    assert_eq!(worker.error(), Some(PatchError::HttpStatus(503)));
    let mut worker = at_status();
    let reaction =
        worker.step(Response::Status(Fetched::Failed(FetchError::Transport("reset".to_string()))));
    failed(&reaction, Failure::GetServerStatus);
    assert_eq!(worker.error(), Some(PatchError::Transport));
    let mut worker = at_status();
    let reaction = worker.step(Response::Status(Fetched::Undecodable("eof".to_string())));
    failed(&reaction, Failure::ParseServerStatus);
    assert_eq!(worker.error(), Some(PatchError::Parse));
}

#[test]
fn the_base_download_reports_each_failure() {
    let mut worker = at_game_probe();
    assert_eq!(worker.step(Response::Exists(false)).request, Request::OpenBase);
    failed(
        &worker.step(Response::BaseOpened(Err(OpenError::Status(404)))),
        Failure::DownloadGameBase,
    );
    assert_eq!(worker.error(), Some(PatchError::HttpStatus(404)));

    let mut worker = at_game_probe();
    worker.step(Response::Exists(false));
    failed(&worker.step(Response::BaseOpened(Err(OpenError::Send))), Failure::DownloadGameBase);
    assert_eq!(worker.error(), Some(PatchError::Transport));

    let mut worker = at_game_probe();
    worker.step(Response::Exists(false));
    failed(&worker.step(Response::BaseOpened(Err(OpenError::TempFile))), Failure::CreateGameBase);
    assert_eq!(worker.error(), Some(PatchError::Io));

    let mut worker = at_game_probe();
    worker.step(Response::Exists(false));
    assert_eq!(worker.step(Response::BaseOpened(Ok(None))).request, Request::NextChunk);
    let reaction = worker.step(Response::Chunk(Ok(Some(10))));
    assert_eq!(
        reaction.notices,
        vec![Notice::Transfer { subject: Subject::BaseGame, downloaded: 10, total: None }]
    );
    assert_eq!(
        worker.message(reaction.notices[0]),
        downloading("Downloading base game (10 B)", 1, 1)
    );
    failed(&worker.step(Response::Chunk(Err(ChunkError::Stream))), Failure::ReadBaseStream);
    assert_eq!(worker.error(), Some(PatchError::Transport));

    let mut worker = at_game_probe();
    worker.step(Response::Exists(false));
    worker.step(Response::BaseOpened(Ok(Some(5))));
    failed(&worker.step(Response::Chunk(Err(ChunkError::Write))), Failure::WriteBase);
    assert_eq!(worker.error(), Some(PatchError::Io));

    let mut worker = at_game_probe();
    worker.step(Response::Exists(false));
    worker.step(Response::BaseOpened(Ok(None)));
    worker.step(Response::Chunk(Ok(Some(u64::MAX))));
    assert_eq!(worker.control().downloaded, u64::MAX);
    failed(&worker.step(Response::Chunk(Ok(Some(1)))), Failure::ReadBaseStream);
    assert_eq!(worker.error(), Some(PatchError::SizeOverflow));
}

fn at_zip() -> PatchWorker {
    let mut worker = at_game_probe();
    worker.step(Response::Exists(false));
    worker.step(Response::BaseOpened(Ok(None)));
    let reaction = worker.step(Response::Chunk(Ok(None)));
    assert_eq!(reaction.notices, vec![Notice::BaseDownloaded]);
    assert_eq!(reaction.request, Request::OpenZip);
    worker
}

#[test]
fn a_member_that_leads_outside_ends_the_routine() {
    let mut worker = at_zip();
    let reaction = worker.step(Response::ZipListed(Ok(vec![
        ZipEntry { name: "ok.txt".to_string(), size: 7, unix_mode: None },
        ZipEntry { name: "../evil".to_string(), size: 9, unix_mode: None },
        ZipEntry { name: "never.txt".to_string(), size: 1, unix_mode: None },
    ])));
    assert_eq!(reaction.notices, vec![Notice::ExtractingBase]);
    assert_eq!(reaction.request, Request::Continue);
    assert_eq!(worker.control().unpack_total, 17);
    let reaction = worker.step(Response::Continued);
    assert_eq!(reaction.request, Request::ExtractFile { member: 0, mode: None });
    assert_eq!(worker.step(Response::Done(true)).request, Request::Continue);
    let reaction = worker.step(Response::Continued);
    assert_eq!(
        reaction.notices,
        vec![
            Notice::ExtractingFile { index: 1, count: 3, done: 7, total: 17 },
            Notice::Failed(Failure::InvalidFilePath),
            Notice::Status(PatchStatus::Error),
        ]
    );
    assert_eq!(reaction.request, Request::Receive);
    assert_eq!(worker.error(), Some(PatchError::UnsafeArchivePath));
    assert_eq!(
        worker.message(Notice::Failed(Failure::InvalidFilePath)),
        PatchMessage::Error("Failed to extract base game:\nInvalid file path".to_string())
    );
}

#[test]
fn unpacking_reports_each_failure() {
    let mut worker = at_zip();
    failed(&worker.step(Response::ZipListed(Err(ListError::Open))), Failure::ExtractBase);
    assert_eq!(worker.error(), Some(PatchError::Io));

    let mut worker = at_zip();
    let reaction = worker.step(Response::ZipListed(Err(ListError::Read)));
    assert_eq!(
        reaction.notices,
        vec![
            Notice::ExtractingBase,
            Notice::Failed(Failure::ReadBase),
            Notice::Status(PatchStatus::Error)
        ]
    );

    let mut worker = at_zip();
    worker.step(Response::ZipListed(Ok(vec![ZipEntry {
        name: "dir/".to_string(),
        size: 0,
        unix_mode: None,
    }])));
    assert_eq!(
        worker.step(Response::Continued).request,
        Request::CreateDirectory { member: 0, mode: None }
    );
    failed(&worker.step(Response::Done(false)), Failure::ExtractBase);

    let mut worker = at_zip();
    worker.step(Response::ZipListed(Ok(vec![])));
    let reaction = worker.step(Response::Continued);
    assert_eq!(reaction.notices, vec![Notice::BaseInstalled]);
    assert_eq!(reaction.request, Request::FetchManifest);
}

fn at_manifest() -> PatchWorker {
    let mut worker = at_game_probe();
    assert_eq!(worker.step(Response::Exists(true)).request, Request::FetchManifest);
    worker
}

#[test]
fn a_manifest_that_does_not_arrive_ends_the_routine() {
    let mut worker = at_manifest();
    failed(
        &worker.step(Response::Manifest(Fetched::Failed(FetchError::SizeOverflow))),
        Failure::GetPatchData,
    );
    assert_eq!(worker.error(), Some(PatchError::SizeOverflow));
    let mut worker = at_manifest();
    failed(
        &worker.step(Response::Manifest(Fetched::Undecodable("bad".to_string()))),
        Failure::ParsePatchData,
    );
    assert_eq!(worker.error(), Some(PatchError::Parse));
}

fn walking(manifest: Directory) -> PatchWorker {
    let mut worker = at_manifest();
    assert_eq!(worker.step(Response::Manifest(Fetched::Decoded(manifest))).request, Request::Continue);
    assert_eq!(worker.control().phase, Phase::Planning);
    assert_eq!(worker.step(Response::Continued).request, Request::Continue);
    assert_eq!(worker.control().phase, Phase::Walking);
    worker
}

fn walk_failed(reaction: &Reaction) {
    failed(reaction, Failure::CheckLocalFiles);
}

fn download_failed(reaction: &Reaction) {
    assert_eq!(
        reaction.notices,
        vec![
            Notice::Failed(Failure::GetPatchedFile),
            Notice::Failed(Failure::CheckLocalFiles),
            Notice::Status(PatchStatus::Error)
        ]
    );
    assert_eq!(reaction.request, Request::Receive);
}

#[test]
fn a_file_reports_each_failure() {
    let mut worker = walking(manifest());
    assert_eq!(worker.control().total, 4);
    let reaction = worker.step(Response::Continued);
    assert_eq!(reaction.notices, vec![checking(0, 4, Platform::All)]);
    assert_eq!(reaction.request, Request::ProbeFile { entry: 0 });
    walk_failed(&worker.step(Response::Probed(Probe::Unreadable)));
    assert_eq!(worker.error(), Some(PatchError::Io));

    let mut worker = walking(manifest());
    worker.step(Response::Continued);
    assert_eq!(worker.step(Response::Probed(Probe::Missing)).request, Request::Download { entry: 0 });
    download_failed(&worker.step(Response::Fetched(Err(FetchError::HttpStatus(404)))));
    assert_eq!(worker.error(), Some(PatchError::HttpStatus(404)));

    let mut worker = walking(manifest());
    worker.step(Response::Continued);
    worker.step(Response::Probed(Probe::Present(vec![0])));
    assert_eq!(
        worker.step(Response::Fetched(Ok(()))).request,
        Request::WriteFile { entry: 0, target: Target::InPlace }
    );
    walk_failed(&worker.step(Response::Done(false)));
    assert_eq!(worker.error(), Some(PatchError::Io));
    assert_eq!(worker.control().completed, 0);
}

#[test]
fn an_archive_reports_each_failure() {
    fn one_archive() -> Directory {
        Directory {
            name: "root".to_string(),
            children: vec![dir(
                "all",
                vec![file("a", "alpha"), archive("data", vec![member("x", "xray")])],
            )],
        }
    }
    fn opened() -> PatchWorker {
        let mut worker = walking(one_archive());
        worker.step(Response::Continued);
        worker.step(Response::Probed(Probe::Present(digest_of("alpha"))));
        assert_eq!(worker.step(Response::Continued).request, Request::OpenArchive { entry: 1 });
        worker
    }
    let mut worker = opened();
    walk_failed(&worker.step(Response::Done(false)));
    assert_eq!(worker.error(), Some(PatchError::ArchiveRead { archive: 1 }));

    let mut worker = opened();
    worker.step(Response::Done(true));
    let reaction = worker.step(Response::Continued);
    assert_eq!(reaction.notices, vec![checking(1, 2, Platform::All)]);
    assert_eq!(reaction.request, Request::ReadMember { entry: 2 });
    walk_failed(&worker.step(Response::Probed(Probe::Unreadable)));
    assert_eq!(worker.error(), Some(PatchError::ArchiveRead { archive: 1 }));

    let mut worker = opened();
    worker.step(Response::Done(true));
    worker.step(Response::Continued);
    assert_eq!(worker.step(Response::Probed(Probe::Missing)).request, Request::Download { entry: 2 });
    download_failed(&worker.step(Response::Fetched(Err(FetchError::Io("disk".to_string())))));
    assert_eq!(worker.error(), Some(PatchError::Io));

    let mut worker = opened();
    worker.step(Response::Done(true));
    worker.step(Response::Continued);
    worker.step(Response::Probed(Probe::Present(digest_of("stale"))));
    assert_eq!(worker.step(Response::Fetched(Ok(()))).request, Request::AddMember { entry: 2 });
    walk_failed(&worker.step(Response::Done(false)));
    assert_eq!(worker.error(), Some(PatchError::ArchiveWrite { archive: 1 }));

    let mut worker = opened();
    worker.step(Response::Done(true));
    worker.step(Response::Continued);
    worker.step(Response::Probed(Probe::Missing));
    worker.step(Response::Fetched(Ok(())));
    assert_eq!(worker.step(Response::Done(true)).request, Request::Continue);
    assert!(worker.control().dirty);
    assert_eq!(worker.step(Response::Continued).request, Request::Finalize);
    walk_failed(&worker.step(Response::Done(false)));
    assert_eq!(worker.error(), Some(PatchError::ArchiveWrite { archive: 1 }));

    let mut worker = opened();
    worker.step(Response::Done(true));
    worker.step(Response::Continued);
    worker.step(Response::Probed(Probe::Missing));
    worker.step(Response::Fetched(Ok(())));
    worker.step(Response::Done(true));
    worker.step(Response::Continued);
    assert_eq!(worker.step(Response::Done(true)).request, Request::Defrag);
    walk_failed(&worker.step(Response::Done(false)));
    assert_eq!(worker.error(), Some(PatchError::ArchiveWrite { archive: 1 }));
}

#[test]
fn a_name_that_does_not_resolve_ends_the_walk() {
    fn odd() -> Directory {
        Directory {
            name: "root".to_string(),
            children: vec![dir("all", vec![file("a", "alpha"), dir("http:", vec![])])],
        }
    }
    let mut worker = walking(odd());
    worker.step(Response::Continued);
    worker.step(Response::Probed(Probe::Present(digest_of("alpha"))));
    walk_failed(&worker.step(Response::Continued));
    assert_eq!(worker.error(), Some(PatchError::Url));
    assert_eq!(worker.control().completed, 1);
}

#[test]
fn a_file_in_a_subdirectory_is_not_the_running_binary() {
    fn nested() -> Directory {
        Directory {
            name: "root".to_string(),
            children: vec![dir("all", vec![dir("bin", vec![file("patcher", "new")])])],
        }
    }
    let mut worker = walking(nested());
    worker.step(Response::Continued);
    worker.step(Response::Continued);
    worker.step(Response::Probed(Probe::Present(digest_of("old"))));
    assert_eq!(
        worker.step(Response::Fetched(Ok(()))).request,
        Request::WriteFile { entry: 1, target: Target::InPlace }
    );
    match worker.entry(1) {
        Some(Entry::File { path, url, is_self, .. }) => {
            assert_eq!(path, &vec!["bin".to_string(), "patcher".to_string()]);
            assert_eq!(url.as_deref(), Some("https://patch.example.com/patch/all/bin/patcher"));
            assert!(!is_self);
        }
        other => panic!("unexpected {:?}", other),
    }
    assert!(worker.entry(2).is_none());
}

#[test]
fn the_walk_lists_archives_with_both_files() {
    let worker = walking(manifest());
    match worker.entry(3) {
        Some(Entry::Open { name, hed, dat, url }) => {
            assert_eq!(name, "data");
            assert_eq!(hed, &vec!["data.hed".to_string()]);
            assert_eq!(dat, &vec!["data.dat".to_string()]);
            assert_eq!(url.as_deref(), Some("https://patch.example.com/patch/all/data.archive/"));
        }
        other => panic!("unexpected {:?}", other),
    }
    match worker.entry(4) {
        Some(Entry::Member { name, url, digest }) => {
            assert_eq!(name, "x");
            assert_eq!(url.as_deref(), Some("https://patch.example.com/patch/all/data.archive/x"));
            assert_eq!(digest, &digest_of("xray"));
        }
        other => panic!("unexpected {:?}", other),
    }
    assert!(matches!(worker.entry(1), Some(Entry::Enter { url: Some(_) })));
    assert!(matches!(worker.entry(6), Some(Entry::Close)));
    assert!(worker.entry(7).is_none());
}

#[test]
fn play_launches_the_game_and_ends_the_worker() {
    let mut worker = worker("patcher");
    let mut world = World::in_agreement(manifest);
    world.inbox.push(GUIMessage::Play);
    assert_eq!(world.routine(&mut worker), Request::Stop);
    let tail = &world.notices[world.notices.len() - 3..];
    assert_eq!(
        tail,
        &[
            Notice::Status(PatchStatus::Finished),
            Notice::LaunchingGame,
            Notice::Status(PatchStatus::GameLaunched)
        ]
    );
    let tail = &world.requests[world.requests.len() - 4..];
    assert_eq!(
        tail,
        &[Request::Receive, Request::LaunchGame, Request::Sleep { millis: 3000 }, Request::Stop]
    );
    assert_eq!(
        worker.message(Notice::LaunchingGame),
        downloading("Let's play the game!", 1, 1)
    );
    assert_eq!(worker.step(Response::Continued).request, Request::Stop);
}

#[test]
fn a_game_that_does_not_start_leaves_the_worker_waiting() {
    let mut worker = worker("patcher");
    let mut world = World::in_agreement(manifest);
    world.routine(&mut worker);
    assert_eq!(worker.step(Response::Inbox(Some(GUIMessage::Play))).request, Request::LaunchGame);
    let reaction = worker.step(Response::Done(false));
    assert_eq!(reaction.notices, vec![Notice::Status(PatchStatus::Error)]);
    assert_eq!(reaction.request, Request::Receive);
    assert_eq!(worker.error(), Some(PatchError::Launch));
    let reaction = worker.step(Response::Inbox(Some(GUIMessage::Retry)));
    assert_eq!(reaction.notices, vec![Notice::Status(PatchStatus::Working)]);
    assert_eq!(worker.error(), None);
}

#[test]
fn a_response_out_of_turn_ends_the_routine() {
    let mut worker = at_status();
    let reaction = worker.step(Response::Done(true));
    assert_eq!(reaction.notices, vec![Notice::Status(PatchStatus::Error)]);
    assert_eq!(reaction.request, Request::Receive);
    assert_eq!(worker.error(), Some(PatchError::Disorder));
}

#[test]
fn an_update_that_does_not_start_is_reported() {
    fn with_patcher() -> Directory {
        Directory {
            name: "root".to_string(),
            children: vec![dir("all", vec![file("patcher", "new")])],
        }
    }
    let mut worker = walking(with_patcher());
    worker.step(Response::Continued);
    worker.step(Response::Probed(Probe::Present(digest_of("old"))));
    assert_eq!(
        worker.step(Response::Fetched(Ok(()))).request,
        Request::WriteFile { entry: 0, target: Target::Sidecar }
    );
    worker.step(Response::Done(true));
    assert_eq!(worker.updated_patcher(), Some("patcher.aecoupdate"));
    let reaction = worker.step(Response::Continued);
    assert_eq!(reaction.notices, vec![Notice::FilesChecked { total: 1 }]);
    let reaction = worker.step(Response::Continued);
    assert_eq!(reaction.notices, vec![Notice::Status(PatchStatus::Finished)]);
    assert_eq!(reaction.request, Request::Spawn { binary: Binary::Updated });
    failed(&worker.step(Response::Done(false)), Failure::StartUpdatedLauncher);
    assert_eq!(worker.error(), Some(PatchError::Launch));
    assert_eq!(
        worker.message(Notice::Failed(Failure::StartUpdatedLauncher)),
        PatchMessage::Error("Could not start updated launcher".to_string())
    );
}

fn at_zip_on(host: &str) -> PatchWorker {
    let mut worker = PatchWorker::new(&settings(), "patcher", host).expect("worker");
    worker.run(vec![
        Response::Exists(false),
        Response::Status(Fetched::Decoded(ServerStatus::Online)),
        Response::Exists(false),
        Response::BaseOpened(Ok(None)),
        Response::Chunk(Ok(None)),
    ]);
    assert_eq!(worker.control().phase, Phase::OpeningZip);
    worker
}

fn named(name: &str) -> ZipEntry {
    ZipEntry { name: name.to_string(), size: 1, unix_mode: None }
}

#[test]
fn a_member_that_stays_inside_is_unpacked_whatever_its_name_holds() {
    for host in ["linux-x86_64", "macos-aarch64", "windows-x86_64"] {
        let mut worker = at_zip_on(host);
        worker.step(Response::ZipListed(Ok(vec![named("1:x"), named("a/b:c")])));
        assert_eq!(
            worker.step(Response::Continued).request,
            Request::ExtractFile { member: 0, mode: None }
        );
        assert_eq!(worker.step(Response::Done(true)).request, Request::Continue);
        assert_eq!(
            worker.step(Response::Continued).request,
            Request::ExtractFile { member: 1, mode: None }
        );
        worker.step(Response::Done(true));
        let reaction = worker.step(Response::Continued);
        assert_eq!(reaction.notices, vec![Notice::BaseInstalled]);
        assert_eq!(worker.error(), None);
    }
}

#[test]
fn a_drive_or_a_backslash_path_is_refused_on_a_windows_host_only() {
    for name in ["C:evil", "a\\..\\..\\b", "\\share"] {
        let mut worker = at_zip_on("windows-x86_64");
        worker.step(Response::ZipListed(Ok(vec![named(name)])));
        let reaction = worker.step(Response::Continued);
        assert_eq!(
            reaction.notices,
            vec![
                Notice::ExtractingFile { index: 0, count: 1, done: 0, total: 1 },
                Notice::Failed(Failure::InvalidFilePath),
                Notice::Status(PatchStatus::Error),
            ]
        );
        assert_eq!(worker.error(), Some(PatchError::UnsafeArchivePath));

        let mut worker = at_zip_on("linux-x86_64");
        worker.step(Response::ZipListed(Ok(vec![named(name)])));
        assert_eq!(
            worker.step(Response::Continued).request,
            Request::ExtractFile { member: 0, mode: None }
        );
        assert_eq!(worker.error(), None);
    }
}

#[test]
fn a_platform_whose_url_does_not_resolve_is_told_as_a_failed_walk() {
    fn odd() -> Directory {
        Directory {
            name: "root".to_string(),
            children: vec![dir("all", vec![file("a", "alpha")]), dir("http:", vec![])],
        }
    }
    let mut worker = PatchWorker::new(&settings(), "patcher", "http:").expect("worker");
    let mut world = World::new(odd);
    world.files.insert("a".to_string(), digest_of("alpha"));
    assert_eq!(world.routine(&mut worker), Request::Receive);
    assert_eq!(
        world.notices,
        vec![
            Notice::Status(PatchStatus::Working),
            Notice::CheckingServer,
            Notice::ServerOnline,
            Notice::CheckingInstallation,
            checking(0, 1, Platform::All),
            Notice::FilesChecked { total: 1 },
            Notice::Failed(Failure::CheckLocalFiles),
            Notice::Status(PatchStatus::Error),
        ]
    );
    assert_eq!(worker.error(), Some(PatchError::Url));
    assert_eq!(
        worker.message(Notice::Failed(Failure::CheckLocalFiles)),
        PatchMessage::Error("Failed to check local files".to_string())
    );
}

#[test]
fn every_failure_of_a_routine_is_told_before_the_error_status() {
    fn told(reaction: &Reaction) {
        let n = reaction.notices.len();
        assert!(n >= 2, "{:?}", reaction.notices);
        assert_eq!(reaction.notices[n - 1], Notice::Status(PatchStatus::Error));
        assert!(
            matches!(reaction.notices[n - 2], Notice::Failed(_) | Notice::ServerDown),
            "{:?}",
            reaction.notices
        );
    }
    let mut worker = at_status();
    told(&worker.step(Response::Status(Fetched::Decoded(ServerStatus::Maintenance))));
    let mut worker = at_manifest();
    told(&worker.step(Response::Manifest(Fetched::Undecodable("x".to_string()))));
    let mut worker = at_zip();
    told(&worker.step(Response::ZipListed(Err(ListError::Read))));
    let mut worker = walking(manifest());
    worker.step(Response::Continued);
    told(&worker.step(Response::Probed(Probe::Unreadable)));
    let mut worker = worker_with_failed_removal();
    assert_eq!(worker.step(Response::Inbox(Some(GUIMessage::Retry))).request, Request::ProbeSidecar);
}

#[test]
fn an_archive_error_carries_the_entry_that_opened_the_archive() {
    fn two() -> Directory {
        Directory {
            name: "root".to_string(),
            children: vec![dir(
                "all",
                vec![
                    archive("first", vec![member("x", "xray")]),
                    file("between", "b"),
                    archive("second", vec![member("y", "yankee"), member("z", "zulu")]),
                ],
            )],
        }
    }
    // entries: 0 open first, 1 x, 2 close, 3 between, 4 open second, 5 y, 6 z, 7 close
    let mut worker = walking(two());
    assert_eq!(worker.step(Response::Continued).request, Request::OpenArchive { entry: 0 });
    worker.step(Response::Done(true));
    worker.step(Response::Continued);
    worker.step(Response::Probed(Probe::Present(digest_of("xray"))));
    assert_eq!(worker.step(Response::Continued).request, Request::Continue);
    worker.step(Response::Continued);
    worker.step(Response::Probed(Probe::Present(digest_of("b"))));
    assert_eq!(worker.step(Response::Continued).request, Request::OpenArchive { entry: 4 });
    worker.step(Response::Done(true));
    worker.step(Response::Continued);
    worker.step(Response::Probed(Probe::Present(digest_of("yankee"))));
    assert_eq!(worker.step(Response::Continued).request, Request::ReadMember { entry: 6 });
    walk_failed(&worker.step(Response::Probed(Probe::Unreadable)));
    assert_eq!(worker.error(), Some(PatchError::ArchiveRead { archive: 4 }));
    match worker.entry(4) {
        Some(Entry::Open { name, .. }) => assert_eq!(name, "second"),
        other => panic!("unexpected {:?}", other),
    }
}
