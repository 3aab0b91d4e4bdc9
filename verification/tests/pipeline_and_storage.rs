//! Checks of the converter pipeline, the module generator over storage
//! descriptors, and the run-time index.

use static_files::compress::{CompressedResourceFile, NoopCompressConverter};
use static_files::generate::{FunctionOptions, Generate, ModuleGenerators, ToFunction};
use static_files::pipeline::{convert_all, ResourceError, ResourcePrototype};
use static_files::resource::ResourceFile;
use static_files::storage::{
    Data, HashMapResourceStorage, Resource, ResourceStorage, ResourceStorages,
};

fn file(url: &str, path: &str, modified: u64) -> ResourceFile {
    ResourceFile {
        url: String::from(url),
        path: String::from(path),
        modified,
    }
}

fn basic(url: &str, path: &str, modified: u64) -> ResourcePrototype {
    ResourcePrototype::from(file(url, path, modified))
}

fn proto_url(p: &ResourcePrototype) -> &str {
    match p {
        ResourcePrototype::Basic { resource_file } => resource_file.url.as_str(),
        ResourcePrototype::Compressed { .. } => panic!("unexpected variant"),
    }
}

#[test]
fn noop_conversion_keeps_every_resource_in_order() {
    let resources = vec![basic("a", "/r/a", 1), basic("b", "/r/b", 2)];
    let out = convert_all(&NoopCompressConverter, resources).expect("convert");
    assert_eq!(out.len(), 2);
    assert_eq!(proto_url(&out[0]), "a");
    assert_eq!(proto_url(&out[1]), "b");
}

#[test]
fn error_messages_name_their_cause() {
    let io = ResourceError::InputOutputError(String::from("broken disk"));
    assert_eq!(io.message(), "input/output error: broken disk");
    assert_eq!(
        ResourceError::UnsupportedResourceVariant.message(),
        "unsupported resource variant"
    );
}

#[test]
fn module_generator_emits_storage_impl_signature() {
    let resources = vec![basic("a.txt", "/r/a.txt", 1), basic("b.txt", "/r/b.txt", 2)];
    let generator = Generate {
        resources,
        resource_storage: ResourceStorages::hash_map(),
    }
    .module_generator(ModuleGenerators::split_by_count(2));
    let out = generator
        .write_function(FunctionOptions::new(), Some("/out"))
        .expect("write");
    assert_eq!(out.module_name, "generate_sets");
    assert_eq!(out.set_files.len(), 1);
    let set = &out.set_files[0];
    assert!(set.starts_with(
        "use super::*;\npub(crate) fn generate(r: &mut impl ::static_files::ResourceStorage<String>) {\n"
    ));
    assert!(set.contains("r.put(\"a.txt\",n(i!(\"/r/a.txt\"),1,\"text/plain\"));\n"));
    assert!(set.contains("r.put(\"b.txt\",n(i!(\"/r/b.txt\"),2,\"text/plain\"));\n"));
    let module_file = out.module_file.expect("module file");
    assert!(module_file.contains(
        "use ::static_files::new_resource as n;\nuse ::std::include_bytes as i;\nuse ::static_files::Resource;\nuse ::std::collections::HashMap;\n"
    ));
    assert!(module_file.contains("mod set_1;\n"));
    assert!(module_file.contains("let mut r = ::std::collections::HashMap::new();\n"));
    assert!(module_file.contains("let mut wr = &mut r;\n"));
    assert!(module_file.contains("set_1::generate(wr);\n"));
    assert_eq!(out.generated_file, "mod generate_sets;\npub use generate_sets::generate;");
}

#[test]
fn module_generator_honours_function_options() {
    let resources = vec![basic("a.txt", "/r/a.txt", 1)];
    let generator = Generate {
        resources,
        resource_storage: ResourceStorages::hash_map(),
    }
    .module_generator(ModuleGenerators::split_by_count(4));
    let options = FunctionOptions::new()
        .with_name(Some(String::from("assets")))
        .with_modifiers(Some(String::from("pub(crate)")))
        .with_annotations(Some(vec![
            String::from("#[rustfmt::skip]"),
            String::from("#[allow(dead_code)]"),
        ]));
    let out = generator.write_function(options, Some("/out")).expect("write");
    let module_file = out.module_file.expect("module file");
    assert!(module_file.contains(
        "#[rustfmt::skip]\n#[allow(dead_code)]\npub(crate) fn assets() -> impl ::static_files::ResourceStorage<String> {\n"
    ));
    assert_eq!(out.module_name, "assets_sets");
}

#[test]
fn module_generator_without_output_location_is_refused() {
    let generator = Generate {
        resources: vec![basic("a", "/r/a", 1)],
        resource_storage: ResourceStorages::hash_map(),
    }
    .module_generator(ModuleGenerators::split_by_count(2));
    let err = generator
        .write_function(FunctionOptions::new(), None)
        .unwrap_err();
    assert!(matches!(err, ResourceError::WrongOutDir));
}

#[test]
fn compressed_variants_are_reported_as_unsupported() {
    let resources = vec![
        basic("a", "/r/a", 1),
        ResourcePrototype::Compressed {
            compressed_file: CompressedResourceFile::Gzip(file("z", "/r/z", 2)),
        },
    ];
    let generator = Generate {
        resources,
        resource_storage: ResourceStorages::hash_map(),
    }
    .module_generator(ModuleGenerators::split_by_count(2));
    let err = generator
        .write_function(FunctionOptions::new(), Some("/out"))
        .unwrap_err();
    assert!(matches!(err, ResourceError::UnsupportedResourceVariant));
}

#[test]
fn module_generator_with_zero_resources_emits_an_empty_index() {
    let generator = Generate {
        resources: Vec::new(),
        resource_storage: ResourceStorages::hash_map(),
    }
    .module_generator(ModuleGenerators::split_by_count(2));
    let out = generator
        .write_function(FunctionOptions::new(), Some("/out"))
        .expect("write");
    assert!(out.set_files.is_empty());
    assert!(out.module_file.is_none());
    assert_eq!(
        out.generated_file,
        "#[allow(clippy::unreadable_literal)]\npub fn generate() -> impl ::static_files::ResourceStorage<String> {\nlet mut r = ::std::collections::HashMap::new();\nr\n}\n"
    );
}

#[test]
fn storage_round_trip_returns_what_was_put() {
    let mut storage = HashMapResourceStorage::new();
    storage.put(
        "img/logo.png",
        Resource {
            data: Data::Basic(b"\x89PNG"),
            tag: String::from("v1"),
            mime_type: "image/png",
        },
    );
    storage.put(
        "index.html",
        Resource {
            data: Data::Basic(b"<html/>"),
            tag: String::from("v1"),
            mime_type: "text/html",
        },
    );
    let got = storage.get("img/logo.png").expect("entry");
    match got.data {
        Data::Basic(bytes) => assert_eq!(bytes, b"\x89PNG"),
        Data::Compressed(_) => panic!("wrong payload"),
    }
    assert_eq!(got.mime_type, "image/png");
    assert!(storage.get("missing").is_none());
}

#[test]
fn storage_put_overwrites_like_a_hash_map() {
    let mut storage = HashMapResourceStorage::new();
    storage.put(
        "k",
        Resource {
            data: Data::Basic(b"old"),
            tag: String::from("a"),
            mime_type: "text/plain",
        },
    );
    storage.put(
        "k",
        Resource {
            data: Data::Basic(b"new"),
            tag: String::from("b"),
            mime_type: "text/plain",
        },
    );
    let got = storage.get("k").expect("entry");
    match got.data {
        Data::Basic(bytes) => assert_eq!(bytes, b"new"),
        Data::Compressed(_) => panic!("wrong payload"),
    }
    assert_eq!(got.tag, "b");
}
