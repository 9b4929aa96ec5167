use wpass::paths::{file_stem_of, is_absolute_path, parent_dir, path_join};
use wpass::volumes::{find_all_volumes, FileEntry};

fn entry(path: &str, is_file: bool) -> FileEntry {
    FileEntry { path: path.to_string(), is_file }
}

#[test]
fn resolves_multi_volume_set_in_order() {
    let listing = vec![entry("a.7z.002", true), entry("b.txt", true), entry("a.7z.001", true)];
    let volumes = find_all_volumes("a.7z.001", Some(&listing));
    assert_eq!(volumes, vec!["a.7z.001", "a.7z.002"]);
}

#[test]
fn lone_volume_resolves_to_itself() {
    let listing = vec![entry("a.7z.001", true), entry("b.txt", true)];
    let volumes = find_all_volumes("a.7z.001", Some(&listing));
    assert_eq!(volumes, vec!["a.7z.001"]);
}

#[test]
fn unlistable_directory_falls_back_to_the_target() {
    let volumes = find_all_volumes("dir/a.7z.001", None);
    assert_eq!(volumes, vec!["dir/a.7z.001"]);
}

#[test]
fn empty_match_falls_back_to_the_target() {
    let listing = vec![entry("b.txt", true)];
    let volumes = find_all_volumes("a.7z.001", Some(&listing));
    assert_eq!(volumes, vec!["a.7z.001"]);
}

#[test]
fn directories_are_not_volumes() {
    let listing = vec![entry("a.7z.001", true), entry("a.7z.002", false)];
    let volumes = find_all_volumes("a.7z.001", Some(&listing));
    assert_eq!(volumes, vec!["a.7z.001"]);
}

#[test]
fn zero_padded_suffixes_sort_textually() {
    let listing = vec![
        entry("x.7z.010", true),
        entry("x.7z.002", true),
        entry("x.7z.001", true),
    ];
    let volumes = find_all_volumes("x.7z.001", Some(&listing));
    assert_eq!(volumes, vec!["x.7z.001", "x.7z.002", "x.7z.010"]);
}

#[test]
fn stem_strips_only_the_final_extension() {
    assert_eq!(file_stem_of("a.7z.001"), "a.7z");
    assert_eq!(file_stem_of("archive.7z"), "archive");
    assert_eq!(file_stem_of("plain"), "plain");
    assert_eq!(file_stem_of(".hidden"), ".hidden");
    assert_eq!(file_stem_of("dir/a.7z.001"), "a.7z");
}

#[test]
fn parent_of_bare_name_is_empty() {
    assert_eq!(parent_dir("a.txt"), "");
    assert_eq!(parent_dir("dir/a.txt"), "dir");
    assert_eq!(parent_dir("d1/d2/a.txt"), "d1/d2");
}

#[test]
fn join_and_absolute_follow_the_path_model() {
    assert_eq!(path_join("dir", "a.txt"), "dir/a.txt");
    assert_eq!(path_join("", "a.txt"), "a.txt");
    assert_eq!(path_join("dir/", "a.txt"), "dir/a.txt");
    assert!(is_absolute_path("/tmp/x"));
    assert!(is_absolute_path("C:/tools"));
    assert!(!is_absolute_path("tools/7za"));
}
