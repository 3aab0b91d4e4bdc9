//! Resource prototypes and the converter pipeline that re-codes them.

use vstd::prelude::*;

use crate::compress::compressed_file_url;
use crate::compress::CompressedResourceFile;
use crate::resource::ResourceFile;

verus! {

/// The errors a generation run can report. Every error aborts the whole run.
#[derive(Debug)]
pub enum ResourceError {
    /// Reading a directory, a file or its metadata failed; carries the
    /// reported message.
    InputOutputError(String),
    /// The output directory could not be determined.
    WrongOutDir,
    /// A storage descriptor was asked to emit a resource variant it does not
    /// support.
    UnsupportedResourceVariant,
}

pub open spec fn error_message_text(e: ResourceError) -> Seq<char> {
    match e {
        ResourceError::InputOutputError(m) => "input/output error: "@ + m@,
        ResourceError::WrongOutDir => "OUT_DIR environment variable is not defined or wrong"@,
        ResourceError::UnsupportedResourceVariant => "unsupported resource variant"@,
    }
}

impl ResourceError {
    /// A readable description of the error.
    pub fn message(&self) -> (m: String)
        ensures
            m@ == error_message_text(*self),
    {
        match self {
            ResourceError::InputOutputError(inner) => {
                let mut m = String::from_str("input/output error: ");
                m.append(inner.as_str());
                m
            },
            ResourceError::WrongOutDir => {
                String::from_str("OUT_DIR environment variable is not defined or wrong")
            },
            ResourceError::UnsupportedResourceVariant => {
                String::from_str("unsupported resource variant")
            },
        }
    }
}

/// A resource on its way through the pipeline: either as discovered, or
/// re-coded by a converter.
#[derive(Debug)]
pub enum ResourcePrototype {
    Basic { resource_file: ResourceFile },
    Compressed { compressed_file: CompressedResourceFile },
}

/// The logical path of a prototype: the key it will be inserted under.
/// Conversion never changes it.
pub open spec fn prototype_url(p: ResourcePrototype) -> Seq<char> {
    match p {
        ResourcePrototype::Basic { resource_file } => resource_file.url@,
        ResourcePrototype::Compressed { compressed_file } => compressed_file_url(compressed_file),
    }
}

impl From<ResourceFile> for ResourcePrototype {
    fn from(resource_file: ResourceFile) -> (r: Self) {
        ResourcePrototype::Basic { resource_file }
    }
}

impl vstd::std_specs::convert::FromSpecImpl<ResourceFile> for ResourcePrototype {
    open spec fn obeys_from_spec() -> bool {
        true
    }

    open spec fn from_spec(resource_file: ResourceFile) -> Self {
        ResourcePrototype::Basic { resource_file }
    }
}

/// One stage of the transformation pipeline: a pure re-coding of a single
/// resource. A converter may replace the payload and change the encoding tag,
/// but it keeps the logical path, and it decides success from the input
/// alone.
pub trait Convert {
    /// The mathematical function this converter computes.
    spec fn convert_spec(&self, input: ResourcePrototype) -> Result<
        ResourcePrototype,
        ResourceError,
    >;

    fn convert(&self, input: ResourcePrototype) -> (r: Result<ResourcePrototype, ResourceError>)
        ensures
            r == self.convert_spec(input),
            r matches Ok(o) ==> prototype_url(o) == prototype_url(input),
    ;
}

/// Conversion of `ins` stops at position `i` with error `e`: everything
/// before `i` converts, and `ins[i]` fails with `e`.
pub open spec fn first_failure_at<C: Convert>(
    c: &C,
    ins: Seq<ResourcePrototype>,
    i: int,
    e: ResourceError,
) -> bool {
    &&& 0 <= i < ins.len()
    &&& c.convert_spec(ins[i]) == Err::<ResourcePrototype, ResourceError>(e)
    &&& forall|j: int| 0 <= j < i ==> #[trigger] c.convert_spec(ins[j]) is Ok
}

/// Applies one converter to every resource of a sequence, in order, one
/// output per input, stopping at the first failure.
pub fn convert_all<C: Convert>(converter: &C, resources: Vec<ResourcePrototype>) -> (r: Result<
    Vec<ResourcePrototype>,
    ResourceError,
>)
    ensures
        r matches Ok(out) ==> {
            &&& out@.len() == resources@.len()
            &&& forall|i: int|
                0 <= i < out@.len() ==> converter.convert_spec(resources@[i]) == Ok::<
                    ResourcePrototype,
                    ResourceError,
                >(out@[i])
            &&& forall|i: int|
                0 <= i < out@.len() ==> #[trigger] prototype_url(out@[i]) == prototype_url(
                    resources@[i],
                )
        },
        r matches Err(e) ==> exists|i: int| #[trigger] first_failure_at(converter, resources@, i, e),
{
    let ghost ins = resources@;
    let mut rem = resources;
    let mut out: Vec<ResourcePrototype> = Vec::new();
    while rem.len() > 0
        invariant
            ins == resources@,
            out@.len() + rem@.len() == ins.len(),
            rem@ == ins.subrange(out@.len() as int, ins.len() as int),
            forall|i: int|
                0 <= i < out@.len() ==> converter.convert_spec(ins[i]) == Ok::<
                    ResourcePrototype,
                    ResourceError,
                >(out@[i]),
            forall|i: int|
                0 <= i < out@.len() ==> #[trigger] prototype_url(out@[i]) == prototype_url(ins[i]),
        decreases rem.len(),
    {
        let ghost k = out@.len() as int;
        let ghost old_rem = rem@;
        let item = rem.remove(0);
        proof {
            assert(item == ins[k]);
            assert(rem@ =~= ins.subrange(k + 1, ins.len() as int));
        }
        match converter.convert(item) {
            Ok(o) => {
                out.push(o);
            },
            Err(e) => {
                proof {
                    assert(forall|j: int|
                        0 <= j < k ==> #[trigger] converter.convert_spec(ins[j]) is Ok);
                    assert(first_failure_at(converter, ins, k, e));
                    assert(exists|i: int| #[trigger] first_failure_at(converter, resources@, i, e));
                }
                return Err(e);
            },
        }
    }
    proof {
        assert(out@.len() == ins.len());
    }
    Ok(out)
}

} // verus!
