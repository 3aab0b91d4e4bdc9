//! Checks of the emitted text: the single-file forms, the insertion
//! statement shape, literal escaping, and the media-type lookup.

use static_files::resource::{
    generate_resource_insert, generate_resources, generate_resources_mapping, ResourceFile,
};

fn file(url: &str, path: &str, modified: u64) -> ResourceFile {
    ResourceFile {
        url: String::from(url),
        path: String::from(path),
        modified,
    }
}

#[test]
fn single_file_form_is_exact() {
    let resources = vec![file("style.css", "/assets/style.css", 1234567890)];
    let out = generate_resources(&resources, "load_assets");
    let expected = "#[allow(clippy::unreadable_literal)] pub fn load_assets() -> ::std::collections::HashMap<&'static str, ::static_files::Resource> {\nuse ::static_files::resource::new_resource as n;\nuse ::std::include_bytes as i;\nlet mut r = ::std::collections::HashMap::new();\nr.insert(\"style.css\",n(i!(\"/assets/style.css\"),1234567890,\"text/css\"));\nr\n}\n";
    assert_eq!(out, expected);
}

#[test]
fn mapping_form_is_a_block() {
    let resources = vec![file("a.json", "/x/a.json", 7)];
    let out = generate_resources_mapping(&resources);
    assert!(out.starts_with("{\n"));
    assert!(out.ends_with("r\n}\n"));
    assert!(out.contains("r.insert(\"a.json\",n(i!(\"/x/a.json\"),7,\"application/json\"));\n"));
    assert!(!out.contains("pub fn"));
}

#[test]
fn quotes_and_backslashes_in_paths_are_escaped() {
    let mut out = String::new();
    let resource = file("we\"ird\\name.bin", "/r/we\"ird\\name.bin", 0);
    generate_resource_insert(&mut out, "r", &resource);
    assert!(out.contains("r.insert(\"we\\\"ird\\\\name.bin\","));
    assert!(out.contains("i!(\"/r/we\\\"ird\\\\name.bin\")"));
}

#[test]
fn media_type_comes_from_the_lookup_service() {
    for path in ["/a/page.html", "/a/data.json", "/a/no_extension", "/a/odd.zzz9"] {
        let mut out = String::new();
        generate_resource_insert(&mut out, "r", &file("x", path, 0));
        let expected = mime_guess::MimeGuess::from_path(path)
            .first_or_octet_stream()
            .to_string();
        assert!(
            out.contains(&format!(",\"{}\"));", expected)),
            "line {:?} lacks mime {:?}",
            out,
            expected
        );
    }
}

#[test]
fn extension_handling_matches_the_lookup_service() {
    // A dot-file has no extension; only the last dot of the last component
    // counts; directories with dots do not confuse the lookup.
    for path in [
        "/site/.gitignore",
        "/site/archive.tar.gz",
        "/site/v1.2/readme",
        "/site/v1.2/notes.txt",
        "/site/trailing.",
    ] {
        let mut out = String::new();
        generate_resource_insert(&mut out, "r", &file("x", path, 0));
        let expected = mime_guess::MimeGuess::from_path(path)
            .first_or_octet_stream()
            .to_string();
        assert!(
            out.contains(&format!(",\"{}\"));", expected)),
            "line {:?} lacks mime {:?}",
            out,
            expected
        );
    }
}

#[test]
fn unknown_extensions_fall_back_to_octet_stream() {
    let mut out = String::new();
    generate_resource_insert(&mut out, "r", &file("blob", "/r/blob", 0));
    assert!(out.contains("\"application/octet-stream\""));
}

#[test]
fn large_timestamps_are_rendered_in_full() {
    let mut out = String::new();
    generate_resource_insert(&mut out, "v", &file("a", "/r/a", u64::MAX));
    assert!(out.starts_with("v.insert("));
    assert!(out.contains("18446744073709551615"));
}
