//! Checks of the directory-tree discovery: traversal order, logical path
//! normalization, and the filter flags.

use static_files::resource::{collect_resources, sort_resources, FsEntry, ResourceFile};

fn plain_file(name: &str, path: &str, modified: u64) -> FsEntry {
    FsEntry::File {
        name: String::from(name),
        path: String::from(path),
        modified,
        excluded: false,
    }
}

#[test]
fn logical_paths_join_directories_with_forward_slashes() {
    let entries = vec![FsEntry::Dir {
        name: String::from("a"),
        entries: vec![FsEntry::Dir {
            name: String::from("b"),
            entries: vec![plain_file("c.txt", "/root/a/b/c.txt", 5)],
            excluded: false,
        }],
        excluded: false,
    }];
    let resources = collect_resources(entries);
    assert_eq!(resources.len(), 1);
    assert_eq!(resources[0].url, "a/b/c.txt");
    assert_eq!(resources[0].path, "/root/a/b/c.txt");
    assert_eq!(resources[0].modified, 5);
}

#[test]
fn directories_are_expanded_where_they_are_met() {
    let entries = vec![
        FsEntry::Dir {
            name: String::from("sub"),
            entries: vec![plain_file("inner.txt", "/r/sub/inner.txt", 1)],
            excluded: false,
        },
        plain_file("late.txt", "/r/late.txt", 2),
    ];
    let resources = collect_resources(entries);
    let urls: Vec<&str> = resources.iter().map(|r| r.url.as_str()).collect();
    assert_eq!(urls, vec!["sub/inner.txt", "late.txt"]);
}

#[test]
fn all_files_appear_exactly_once() {
    let entries = vec![
        plain_file("a", "/r/a", 1),
        plain_file("b", "/r/b", 2),
        FsEntry::Dir {
            name: String::from("d"),
            entries: vec![plain_file("a", "/r/d/a", 3)],
            excluded: false,
        },
    ];
    let resources = collect_resources(entries);
    let mut urls: Vec<String> = resources.iter().map(|r| r.url.clone()).collect();
    assert_eq!(urls.len(), 3);
    urls.sort();
    urls.dedup();
    assert_eq!(urls, vec!["a", "b", "d/a"]);
}

#[test]
fn excluded_files_are_skipped() {
    let entries = vec![
        plain_file("keep.txt", "/r/keep.txt", 1),
        FsEntry::File {
            name: String::from("drop.txt"),
            path: String::from("/r/drop.txt"),
            modified: 2,
            excluded: true,
        },
    ];
    let resources = collect_resources(entries);
    assert_eq!(resources.len(), 1);
    assert_eq!(resources[0].url, "keep.txt");
}

#[test]
fn excluded_directories_are_not_descended_into() {
    let entries = vec![
        FsEntry::Dir {
            name: String::from("node_modules"),
            entries: vec![plain_file("dep.js", "/r/node_modules/dep.js", 1)],
            excluded: true,
        },
        plain_file("app.js", "/r/app.js", 2),
    ];
    let resources = collect_resources(entries);
    assert_eq!(resources.len(), 1);
    assert_eq!(resources[0].url, "app.js");
}

#[test]
fn empty_tree_discovers_nothing() {
    let resources = collect_resources(vec![]);
    assert!(resources.is_empty());
}

fn resource(url: &str) -> ResourceFile {
    ResourceFile {
        url: String::from(url),
        path: format!("/r/{}", url),
        modified: 0,
    }
}

#[test]
fn sorting_orders_by_logical_path() {
    let resources = vec![
        resource("zebra.txt"),
        resource("a/deep/file"),
        resource("a.txt"),
        resource("a/b"),
        resource(""),
    ];
    let sorted = sort_resources(resources);
    let urls: Vec<&str> = sorted.iter().map(|r| r.url.as_str()).collect();
    assert_eq!(urls, vec!["", "a.txt", "a/b", "a/deep/file", "zebra.txt"]);
}

#[test]
fn sorting_keeps_every_resource() {
    let resources = vec![resource("b"), resource("a"), resource("b")];
    let sorted = sort_resources(resources);
    let urls: Vec<&str> = sorted.iter().map(|r| r.url.as_str()).collect();
    assert_eq!(urls, vec!["a", "b", "b"]);
}
