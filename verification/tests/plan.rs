use aeco_patcher::manifest::{Archive, Directory, FSObject, File};
use aeco_patcher::plan::{check_patches_dir, Entry};

fn file(name: &str, digest: u8) -> FSObject {
    FSObject::File(File { name: name.to_string(), digest: vec![digest] })
}

fn tree() -> Directory {
    Directory {
        name: "all".to_string(),
        children: vec![
            file("game.exe", 1),
            FSObject::Directory(Directory {
                name: "maps".to_string(),
                children: vec![
                    file("a.map", 2),
                    FSObject::Directory(Directory { name: "empty".to_string(), children: vec![] }),
                ],
            }),
            FSObject::Archive(Archive {
                name: "sound.v2".to_string(),
                files: vec![
                    File { name: "intro.ogg".to_string(), digest: vec![3] },
                    File { name: "outro.ogg".to_string(), digest: vec![4] },
                ],
            }),
            FSObject::Archive(Archive { name: "bare".to_string(), files: vec![] }),
            file("readme.txt", 5),
        ],
    }
}

fn describe(entry: &Entry) -> String {
    match entry {
        Entry::Enter { url } => format!("enter {}", url.as_deref().unwrap_or("-")),
        Entry::File { path, url, digest, is_self } => format!(
            "file {} {} {:?} {}",
            path.join("/"),
            url.as_deref().unwrap_or("-"),
            digest,
            is_self
        ),
        Entry::Open { name, hed, dat, url } => format!(
            "open {} {} {} {}",
            name,
            hed.join("/"),
            dat.join("/"),
            url.as_deref().unwrap_or("-")
        ),
        Entry::Member { name, url, digest } => {
            format!("member {} {} {:?}", name, url.as_deref().unwrap_or("-"), digest)
        }
        Entry::Close => "close".to_string(),
    }
}

#[test]
fn a_walk_lists_the_tree_in_declaration_order() {
    let mut plan = Vec::new();
    let url = Some("https://example.com/patch/all/".to_string());
    check_patches_dir(&tree(), &vec![], &url, "game.exe", &mut plan);
    let listed: Vec<String> = plan.iter().map(describe).collect();
    assert_eq!(
        listed,
        vec![
            "file game.exe https://example.com/patch/all/game.exe [1] true",
            "enter https://example.com/patch/all/maps/",
            "file maps/a.map https://example.com/patch/all/maps/a.map [2] false",
            "enter https://example.com/patch/all/maps/empty/",
            "open sound.v2 sound.v2.hed sound.v2.dat https://example.com/patch/all/sound.v2.archive/",
            "member intro.ogg https://example.com/patch/all/sound.v2.archive/intro.ogg [3]",
            "member outro.ogg https://example.com/patch/all/sound.v2.archive/outro.ogg [4]",
            "close",
            "open bare bare.hed bare.dat https://example.com/patch/all/bare.archive/",
            "close",
            "file readme.txt https://example.com/patch/all/readme.txt [5] false",
        ]
    );
}

#[test]
fn a_walk_is_appended_to_what_is_there() {
    let mut plan = vec![Entry::Close];
    let dirs = vec!["below".to_string()];
    let url = Some("https://example.com/x/".to_string());
    let tree = Directory { name: "t".to_string(), children: vec![file("game.exe", 9)] };
    check_patches_dir(&tree, &dirs, &url, "game.exe", &mut plan);
    let listed: Vec<String> = plan.iter().map(describe).collect();
    assert_eq!(
        listed,
        vec!["close", "file below/game.exe https://example.com/x/game.exe [9] false"]
    );
    let empty = Directory { name: "t".to_string(), children: vec![] };
    check_patches_dir(&empty, &dirs, &url, "game.exe", &mut plan);
    assert_eq!(plan.len(), 2);
}

#[test]
fn a_walk_without_a_url_has_none_below_it() {
    let mut plan = Vec::new();
    check_patches_dir(&tree(), &vec![], &None, "other", &mut plan);
    let listed: Vec<String> = plan.iter().map(describe).collect();
    assert_eq!(listed[0], "file game.exe - [1] false");
    assert_eq!(listed[1], "enter -");
    assert_eq!(listed[4], "open sound.v2 sound.v2.hed sound.v2.dat -");
    assert_eq!(listed[5], "member intro.ogg - [3]");
    assert_eq!(plan.len(), 11);
}

#[test]
fn a_name_that_does_not_resolve_leaves_its_subtree_without_urls() {
    let tree = Directory {
        name: "all".to_string(),
        children: vec![
            FSObject::Directory(Directory {
                name: "http:".to_string(),
                children: vec![file("inner", 1)],
            }),
            file("after", 2),
        ],
    };
    let mut plan = Vec::new();
    let url = Some("https://example.com/patch/all/".to_string());
    check_patches_dir(&tree, &vec![], &url, "exe", &mut plan);
    let listed: Vec<String> = plan.iter().map(describe).collect();
    assert_eq!(
        listed,
        vec![
            "enter -",
            "file http:/inner - [1] false",
            "file after https://example.com/patch/all/after [2] false",
        ]
    );
}
