//! End-to-end checks of the split generation pipeline.

use static_files::pipeline::ResourceError;
use static_files::resource::{collect_resources, FsEntry, ResourceFile};
use static_files::resource_dir;
use static_files::sets::{generate_resources_sets, SplitByCount};

fn file(url: &str, path: &str, modified: u64) -> ResourceFile {
    ResourceFile {
        url: String::from(url),
        path: String::from(path),
        modified,
    }
}

fn mime_of(path: &str) -> String {
    mime_guess::MimeGuess::from_path(path)
        .first_or_octet_stream()
        .to_string()
}

fn insert_line(url: &str, path: &str, modified: u64) -> String {
    format!(
        "r.insert(\"{}\",n(i!(\"{}\"),{},\"{}\"));\n",
        url,
        path,
        modified,
        mime_of(path)
    )
}

const USES: &str =
    "use ::static_files::resource::new_resource as n;\nuse ::std::include_bytes as i;\n";
const HEADER: &str = "#[allow(clippy::unreadable_literal)] pub fn generate() -> ::std::collections::HashMap<&'static str, ::static_files::Resource> {\n";
const VAR_HEADER: &str = "let mut r = ::std::collections::HashMap::new();\n";
const SET_HEADER: &str =
    "use super::*;\npub(crate) fn generate(r: &mut HashMap<&'static str, Resource>) {\n";

#[test]
fn two_files_threshold_two_make_one_sub_unit() {
    let resources = vec![
        file("a.txt", "/base/a.txt", 1),
        file("sub/b.txt", "/base/sub/b.txt", 2),
    ];
    let mut strategy = SplitByCount::new(2);
    let out = generate_resources_sets(&resources, "generate_sets", "generate", &mut strategy);
    assert_eq!(out.set_files.len(), 1);
    let expected_set = format!(
        "{}{}{}}}\n",
        SET_HEADER,
        insert_line("a.txt", "/base/a.txt", 1),
        insert_line("sub/b.txt", "/base/sub/b.txt", 2)
    );
    assert_eq!(out.set_files[0], expected_set);
    let module_file = out.module_file.expect("module file");
    assert!(module_file.contains("mod set_1;\n"));
    assert!(!module_file.contains("mod set_2;"));
    assert!(module_file.contains("set_1::generate(&mut r);\n"));
    assert_eq!(
        out.generated_file,
        "mod generate_sets;\npub use generate_sets::generate;\n"
    );
}

#[test]
fn five_files_threshold_two_make_three_sub_units() {
    let resources = vec![
        file("f1", "/b/f1", 1),
        file("f2", "/b/f2", 2),
        file("f3", "/b/f3", 3),
        file("f4", "/b/f4", 4),
        file("f5", "/b/f5", 5),
    ];
    let mut strategy = SplitByCount::new(2);
    let out = generate_resources_sets(&resources, "sets", "generate", &mut strategy);
    assert_eq!(out.set_files.len(), 3);
    let counts: Vec<usize> = out
        .set_files
        .iter()
        .map(|s| s.matches(".insert(").count())
        .collect();
    assert_eq!(counts, vec![2, 2, 1]);
    // Discovery order is kept across the split boundary.
    assert!(out.set_files[0].contains("\"f1\""));
    assert!(out.set_files[0].contains("\"f2\""));
    assert!(out.set_files[1].contains("\"f3\""));
    assert!(out.set_files[1].contains("\"f4\""));
    assert!(out.set_files[2].contains("\"f5\""));
    let module_file = out.module_file.expect("module file");
    assert!(module_file.contains("mod set_1;\nmod set_2;\nmod set_3;\n"));
    assert!(module_file.contains(
        "set_1::generate(&mut r);\nset_2::generate(&mut r);\nset_3::generate(&mut r);\n"
    ));
}

#[test]
fn sorted_mode_splits_in_sorted_order() {
    let resources = vec![
        file("e", "/b/e", 5),
        file("c", "/b/c", 3),
        file("a", "/b/a", 1),
        file("d", "/b/d", 4),
        file("b", "/b/b", 2),
    ];
    let sorted = static_files::resource::sort_resources(resources);
    let mut strategy = SplitByCount::new(2);
    let out = generate_resources_sets(&sorted, "sets", "generate", &mut strategy);
    assert_eq!(out.set_files.len(), 3);
    assert!(out.set_files[0].contains("\"a\"") && out.set_files[0].contains("\"b\""));
    assert!(out.set_files[1].contains("\"c\"") && out.set_files[1].contains("\"d\""));
    assert!(out.set_files[2].contains("\"e\""));
}

#[test]
fn zero_resources_make_no_sub_units_and_an_empty_index() {
    let resources: Vec<ResourceFile> = vec![];
    let mut strategy = SplitByCount::new(2);
    let out = generate_resources_sets(&resources, "sets", "generate", &mut strategy);
    assert_eq!(out.set_files.len(), 0);
    assert!(out.module_file.is_none());
    let expected = format!("{}{}r\n}}\n", HEADER, VAR_HEADER);
    assert_eq!(out.generated_file, expected);
}

#[test]
fn generation_is_idempotent() {
    let resources = vec![
        file("x/one.css", "/r/x/one.css", 7),
        file("two.js", "/r/two.js", 8),
        file("three.html", "/r/three.html", 9),
    ];
    let mut s1 = SplitByCount::new(2);
    let out1 = generate_resources_sets(&resources, "sets", "generate", &mut s1);
    let mut s2 = SplitByCount::new(2);
    let out2 = generate_resources_sets(&resources, "sets", "generate", &mut s2);
    assert_eq!(out1.generated_file, out2.generated_file);
    assert_eq!(out1.module_file, out2.module_file);
    assert_eq!(out1.set_files, out2.set_files);
}

#[test]
fn build_resolves_defaults() {
    let resources = vec![file("a.txt", "/b/a.txt", 1)];
    let built = resource_dir("/b")
        .build(&resources, Some("/out"))
        .expect("build");
    assert_eq!(built.generated_filename, "/out/generated.rs");
    assert_eq!(built.output.module_name, "generate_sets");
    assert_eq!(
        built.output.generated_file,
        "mod generate_sets;\npub use generate_sets::generate;\n"
    );
}

#[test]
fn build_honours_overrides() {
    let resources = vec![file("a.txt", "/b/a.txt", 1), file("b.txt", "/b/b.txt", 2)];
    let mut dir = resource_dir("/b");
    dir.with_generated_filename("/elsewhere/gen.rs")
        .with_generated_fn("assets")
        .with_module_name("asset_mod")
        .with_count_per_module(1);
    let built = dir.build(&resources, None).expect("build");
    assert_eq!(built.generated_filename, "/elsewhere/gen.rs");
    assert_eq!(built.output.module_name, "asset_mod");
    assert_eq!(built.output.set_files.len(), 2);
    assert_eq!(
        built.output.generated_file,
        "mod asset_mod;\npub use asset_mod::assets;\n"
    );
    let module_file = built.output.module_file.expect("module file");
    assert!(module_file.contains(" pub fn assets() -> "));
}

#[test]
fn build_without_any_output_location_is_refused() {
    let resources = vec![file("a.txt", "/b/a.txt", 1)];
    let err = match resource_dir("/b").build(&resources, None) {
        Ok(_) => panic!("build without an output location must fail"),
        Err(e) => e,
    };
    assert!(matches!(err, ResourceError::WrongOutDir));
    assert_eq!(
        err.message(),
        "OUT_DIR environment variable is not defined or wrong"
    );
}

#[test]
fn generated_module_header_matches_exactly() {
    let resources = vec![file("a.txt", "/b/a.txt", 3)];
    let mut strategy = SplitByCount::new(256);
    let out = generate_resources_sets(&resources, "sets", "generate", &mut strategy);
    let expected_module = format!(
        "{}\nuse ::static_files::Resource;\nuse ::std::collections::HashMap;\nmod set_1;\n{}{}set_1::generate(&mut r);\nr\n}}\n",
        USES, HEADER, VAR_HEADER
    );
    let module_file = out.module_file.expect("module file");
    assert_eq!(module_file, expected_module);
}

#[test]
fn discovery_feeds_generation_round_trip() {
    let entries = vec![
        FsEntry::File {
            name: String::from("index.html"),
            path: String::from("/site/index.html"),
            modified: 100,
            excluded: false,
        },
        FsEntry::Dir {
            name: String::from("css"),
            entries: vec![FsEntry::File {
                name: String::from("main.css"),
                path: String::from("/site/css/main.css"),
                modified: 200,
                excluded: false,
            }],
            excluded: false,
        },
    ];
    let resources = collect_resources(entries);
    let mut strategy = SplitByCount::new(8);
    let out = generate_resources_sets(&resources, "sets", "generate", &mut strategy);
    assert_eq!(out.set_files.len(), 1);
    assert!(out.set_files[0].contains(&insert_line("index.html", "/site/index.html", 100)));
    assert!(out.set_files[0].contains(&insert_line("css/main.css", "/site/css/main.css", 200)));
}
