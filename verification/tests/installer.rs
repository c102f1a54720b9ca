use aeco_patcher::installer::{extraction, total_size, Extraction, ZipEntry};
use aeco_patcher::paths::{names_directory, PathStyle};

fn entry(name: &str, size: u64) -> ZipEntry {
    ZipEntry { name: name.to_string(), size, unix_mode: None }
}

#[test]
fn total_size_adds_the_sizes_up() {
    assert_eq!(total_size(&vec![]), 0);
    assert_eq!(total_size(&vec![entry("a", 5)]), 5);
    assert_eq!(total_size(&vec![entry("a", 5), entry("b/", 0), entry("c", 1000)]), 1005);
}

#[test]
fn total_size_goes_beyond_what_one_size_can_say() {
    let members = vec![entry("a", u64::MAX), entry("b", u64::MAX), entry("c", 2)];
    assert_eq!(total_size(&members), 2 * (u64::MAX as u128) + 2);
}

#[test]
fn extraction_tells_directories_from_files() {
    for style in [PathStyle::Posix, PathStyle::Windows] {
        assert_eq!(extraction(&entry("data/", 0), style), Extraction::Directory);
        assert_eq!(extraction(&entry("data/maps/", 0), style), Extraction::Directory);
        assert_eq!(extraction(&entry("data/maps/a.map", 3), style), Extraction::RegularFile);
        assert_eq!(extraction(&entry("game.exe", 3), style), Extraction::RegularFile);
        assert_eq!(extraction(&entry("", 0), style), Extraction::RegularFile);
        assert_eq!(extraction(&entry("1:x", 1), style), Extraction::RegularFile);
    }
}

#[test]
fn extraction_refuses_what_leads_outside() {
    for style in [PathStyle::Posix, PathStyle::Windows] {
        assert_eq!(extraction(&entry("../game.exe", 3), style), Extraction::Refuse);
        assert_eq!(extraction(&entry("data/../../x/", 0), style), Extraction::Refuse);
        assert_eq!(extraction(&entry("/abs", 1), style), Extraction::Refuse);
        assert_eq!(extraction(&entry("/", 0), style), Extraction::Refuse);
        assert_eq!(extraction(&entry("..", 1), style), Extraction::Refuse);
        assert_eq!(extraction(&entry("a/..", 1), style), Extraction::RegularFile);
        assert_eq!(extraction(&entry("a/b/../../c", 1), style), Extraction::RegularFile);
        assert_eq!(extraction(&entry("a/b/../../../c", 1), style), Extraction::Refuse);
        assert_eq!(extraction(&entry("...", 1), style), Extraction::RegularFile);
    }
}

#[test]
fn extraction_follows_the_host() {
    assert_eq!(extraction(&entry("d:\\x", 1), PathStyle::Windows), Extraction::Refuse);
    assert_eq!(extraction(&entry("d:\\x", 1), PathStyle::Posix), Extraction::RegularFile);
    assert_eq!(extraction(&entry("a\\..\\..\\b", 1), PathStyle::Windows), Extraction::Refuse);
    assert_eq!(extraction(&entry("a\\..\\..\\b", 1), PathStyle::Posix), Extraction::RegularFile);
    assert_eq!(extraction(&entry("dir\\", 0), PathStyle::Windows), Extraction::RegularFile);
}

#[test]
fn a_name_stands_for_a_directory_if_it_ends_in_a_slash() {
    assert!(names_directory("a/"));
    assert!(names_directory("/"));
    assert!(!names_directory("a"));
    assert!(!names_directory(""));
    assert!(!names_directory("a\\"));
}
