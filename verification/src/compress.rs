//! Compression tags for re-coded resources, and the do-nothing converter.

use vstd::prelude::*;

use crate::pipeline::{Convert, ResourceError, ResourcePrototype};
use crate::resource::ResourceFile;

verus! {

/// A discovered file together with the compression scheme its payload was
/// re-coded with.
#[derive(Debug)]
pub enum CompressedResourceFile {
    Brotli(ResourceFile),
    Compress(ResourceFile),
    Deflate(ResourceFile),
    Exi(ResourceFile),
    Gzip(ResourceFile),
    Identity(ResourceFile),
    Pack200(ResourceFile),
    Zstd(ResourceFile),
    Noop(ResourceFile),
}

/// Compressed payload bytes, tagged with their compression scheme.
#[derive(Debug)]
pub enum Compressed {
    Brotli(&'static [u8]),
    Compress(&'static [u8]),
    Deflate(&'static [u8]),
    Exi(&'static [u8]),
    Gzip(&'static [u8]),
    Identity(&'static [u8]),
    Pack200(&'static [u8]),
    Zstd(&'static [u8]),
    Noop(&'static [u8]),
}

/// The logical path of a re-coded file: compression keeps the key.
pub open spec fn compressed_file_url(c: CompressedResourceFile) -> Seq<char> {
    match c {
        CompressedResourceFile::Brotli(f) => f.url@,
        CompressedResourceFile::Compress(f) => f.url@,
        CompressedResourceFile::Deflate(f) => f.url@,
        CompressedResourceFile::Exi(f) => f.url@,
        CompressedResourceFile::Gzip(f) => f.url@,
        CompressedResourceFile::Identity(f) => f.url@,
        CompressedResourceFile::Pack200(f) => f.url@,
        CompressedResourceFile::Zstd(f) => f.url@,
        CompressedResourceFile::Noop(f) => f.url@,
    }
}

/// The baseline converter: hands every resource through unchanged.
pub struct NoopCompressConverter;

impl Convert for NoopCompressConverter {
    open spec fn convert_spec(&self, input: ResourcePrototype) -> Result<
        ResourcePrototype,
        ResourceError,
    > {
        Ok(input)
    }

    fn convert(&self, input: ResourcePrototype) -> (r: Result<ResourcePrototype, ResourceError>) {
        Ok(input)
    }
}

} // verus!
