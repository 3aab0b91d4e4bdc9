//! Storage descriptors: the pluggable policy that tells the module generator
//! what index type generated code builds, how to construct it, and how one
//! insertion statement is written. Also the run-time index the generated code
//! of the namespaced form fills.

use core::marker::PhantomData;
use vstd::prelude::*;

use crate::compress::Compressed;
use crate::mime::{extension_of, guess_mime, mime_for, path_extension};
use crate::pipeline::{ResourceError, ResourcePrototype};
use crate::resource::ResourceFileView;
use crate::text::{append_dec, append_quoted, dec_of, quoted, str_eq};

verus! {

/// The namespace generated code imports the construction helpers from.
pub const NAMESPACE: &'static str = "static_files";

/// A resource value as the namespaced generated code stores it: a payload
/// with its encoding, an encoding tag, and a media type.
#[derive(Debug)]
pub struct Resource {
    pub data: Data,
    pub tag: String,
    pub mime_type: &'static str,
}

/// A resource payload: plain bytes, or bytes re-coded by a compression
/// scheme.
#[derive(Debug)]
pub enum Data {
    Basic(&'static [u8]),
    Compressed(Compressed),
}

/// A run-time index for resources, keyed by logical path. A later `put`
/// under the same key shadows the earlier one.
pub trait ResourceStorage {
    /// The index as a mathematical map from logical path to resource.
    spec fn contents(&self) -> Map<Seq<char>, Resource>;

    fn get(&self, key: &str) -> (r: Option<&Resource>)
        ensures
            match r {
                Some(res) => self.contents().contains_key(key@) && *res == self.contents()[key@],
                None => !self.contents().contains_key(key@),
            },
    ;

    fn put(&mut self, key: &'static str, resource: Resource)
        ensures
            final(self).contents() == old(self).contents().insert(key@, resource),
    ;
}

/// Declares the namespace that emitted code references index and helper
/// types under.
pub trait ResourceStorageNamespace {
    spec fn namespace_spec() -> Seq<char>;

    fn namespace() -> (r: &'static str)
        ensures
            r@ == Self::namespace_spec(),
    ;
}

pub struct DefaultResourceStorages;

impl ResourceStorageNamespace for DefaultResourceStorages {
    open spec fn namespace_spec() -> Seq<char> {
        "static_files"@
    }

    fn namespace() -> (r: &'static str) {
        NAMESPACE
    }
}

pub type ResourceStorages = NamespacedResourceStorages<DefaultResourceStorages>;

/// The storage descriptors available under a given namespace.
pub struct NamespacedResourceStorages<NS: ResourceStorageNamespace>(pub PhantomData<NS>);

impl<NS: ResourceStorageNamespace> NamespacedResourceStorages<NS> {
    /// The hash-map-backed storage descriptor.
    pub fn hash_map() -> (r: HashMapResourceStorageType<NS>) {
        HashMapResourceStorageType::default()
    }
}

/// The emitted signature of the construction function for a storage type.
pub open spec fn impl_signature_text(ns: Seq<char>, tag: Seq<char>) -> Seq<char> {
    "impl ::"@ + ns + "::ResourceStorage<"@ + tag + ">"@
}

/// The emitted statement of the namespaced form that puts one resource into
/// the index variable.
pub open spec fn put_line_text(variable_name: Seq<char>, f: ResourceFileView) -> Seq<char> {
    variable_name + ".put("@ + quoted(f.url) + ",n(i!("@ + quoted(f.path) + "),"@ + dec_of(
        f.modified as nat,
    ) + ","@ + quoted(mime_for(extension_of(f.path))) + "));\n"@
}

/// A storage descriptor: the policy the module generator queries for the
/// index type to instantiate in emitted code, how to construct it, and how
/// to write one insertion statement. Asked to emit a resource variant it
/// does not support, it reports a typed error and writes nothing.
pub trait ResourceStorageType {
    spec fn namespace_spec(&self) -> Seq<char>;

    spec fn storage_type_spec(&self) -> Seq<char>;

    spec fn storage_constructor_spec(&self) -> Seq<char>;

    spec fn tag_type_spec(&self) -> Seq<char>;

    spec fn variable_name_spec(&self) -> Seq<char>;

    /// Whether this descriptor can emit the given resource variant.
    spec fn supports(&self, resource: ResourcePrototype) -> bool;

    /// The insertion statement emitted for a supported resource.
    spec fn insert_line_spec(&self, resource: ResourcePrototype) -> Seq<char>;

    fn namespace(&self) -> (r: &'static str)
        ensures
            r@ == self.namespace_spec(),
    ;

    fn storage_type(&self) -> (r: &'static str)
        ensures
            r@ == self.storage_type_spec(),
    ;

    fn storage_constructor(&self) -> (r: &'static str)
        ensures
            r@ == self.storage_constructor_spec(),
    ;

    fn tag_type(&self) -> (r: &'static str)
        ensures
            r@ == self.tag_type_spec(),
    ;

    fn default_variable_name(&self) -> (r: &'static str)
        ensures
            r@ == self.variable_name_spec(),
    ;

    fn impl_signature(&self) -> (r: String)
        ensures
            r@ == impl_signature_text(self.namespace_spec(), self.tag_type_spec()),
    ;

    fn write_resource(&self, f: &mut String, resource: &ResourcePrototype) -> (r: Result<
        (),
        ResourceError,
    >)
        ensures
            r is Ok <==> self.supports(*resource),
            r is Ok ==> final(f)@ == old(f)@ + self.insert_line_spec(*resource),
            r is Err ==> final(f)@ == old(f)@ && r == Err::<(), ResourceError>(
                ResourceError::UnsupportedResourceVariant,
            ),
    ;
}

/// The hash-map-backed storage descriptor: emitted code builds a
/// `::std::collections::HashMap`.
pub struct HashMapResourceStorageType<NS: ResourceStorageNamespace>(pub PhantomData<NS>);

impl<NS: ResourceStorageNamespace> Default for HashMapResourceStorageType<NS> {
    fn default() -> (r: Self)
        ensures
            r == HashMapResourceStorageType::<NS>(PhantomData),
    {
        HashMapResourceStorageType(PhantomData)
    }
}

impl<NS: ResourceStorageNamespace> ResourceStorageType for HashMapResourceStorageType<NS> {
    open spec fn namespace_spec(&self) -> Seq<char> {
        NS::namespace_spec()
    }

    open spec fn storage_type_spec(&self) -> Seq<char> {
        "::std::collections::HashMap"@
    }

    open spec fn storage_constructor_spec(&self) -> Seq<char> {
        "::std::collections::HashMap::new"@
    }

    open spec fn tag_type_spec(&self) -> Seq<char> {
        "String"@
    }

    open spec fn variable_name_spec(&self) -> Seq<char> {
        "r"@
    }

    open spec fn supports(&self, resource: ResourcePrototype) -> bool {
        resource is Basic
    }

    open spec fn insert_line_spec(&self, resource: ResourcePrototype) -> Seq<char> {
        match resource {
            ResourcePrototype::Basic { resource_file } => put_line_text(
                self.variable_name_spec(),
                resource_file@,
            ),
            ResourcePrototype::Compressed { .. } => Seq::empty(),
        }
    }

    fn namespace(&self) -> (r: &'static str) {
        NS::namespace()
    }

    fn storage_type(&self) -> (r: &'static str) {
        "::std::collections::HashMap"
    }

    fn storage_constructor(&self) -> (r: &'static str) {
        "::std::collections::HashMap::new"
    }

    fn tag_type(&self) -> (r: &'static str) {
        "String"
    }

    fn default_variable_name(&self) -> (r: &'static str) {
        "r"
    }

    fn impl_signature(&self) -> (r: String) {
        let mut r = String::from_str("impl ::");
        r.append(NS::namespace());
        r.append("::ResourceStorage<");
        r.append("String");
        r.append(">");
        proof {
            assert(r@ =~= impl_signature_text(self.namespace_spec(), self.tag_type_spec()));
        }
        r
    }

    fn write_resource(&self, f: &mut String, resource: &ResourcePrototype) -> (r: Result<
        (),
        ResourceError,
    >) {
        match resource {
            ResourcePrototype::Basic { resource_file } => {
                f.append("r");
                f.append(".put(");
                append_quoted(f, resource_file.url.as_str());
                f.append(",n(i!(");
                append_quoted(f, resource_file.path.as_str());
                f.append("),");
                append_dec(f, resource_file.modified);
                f.append(",");
                let ext = path_extension(resource_file.path.as_str());
                let mime = guess_mime(ext.as_str());
                append_quoted(f, mime.as_str());
                f.append("));\n");
                proof {
                    assert(f@ =~= old(f)@ + self.insert_line_spec(*resource));
                }
                Ok(())
            },
            ResourcePrototype::Compressed { .. } => Err(
                ResourceError::UnsupportedResourceVariant,
            ),
        }
    }
}

/// The map described by an association list, newest entry winning.
pub closed spec fn map_of(s: Seq<(&'static str, Resource)>) -> Map<Seq<char>, Resource>
    decreases s.len(),
{
    if s.len() == 0 {
        Map::empty()
    } else {
        map_of(s.drop_last()).insert(s.last().0@, s.last().1)
    }
}

/// A run-time index backed by an association list with hash-map overwrite
/// semantics: a later `put` under the same key shadows the earlier one.
pub struct HashMapResourceStorage {
    entries: Vec<(&'static str, Resource)>,
}

impl HashMapResourceStorage {
    pub fn new() -> (r: Self)
        ensures
            r.contents() == Map::<Seq<char>, Resource>::empty(),
    {
        HashMapResourceStorage { entries: Vec::new() }
    }
}

impl ResourceStorage for HashMapResourceStorage {
    closed spec fn contents(&self) -> Map<Seq<char>, Resource> {
        map_of(self.entries@)
    }

    fn get(&self, key: &str) -> (r: Option<&Resource>) {
        let mut i: usize = self.entries.len();
        proof {
            assert(self.entries@.subrange(i as int, self.entries@.len() as int)
                =~= Seq::<(&'static str, Resource)>::empty());
        }
        while i > 0
            invariant
                i <= self.entries@.len(),
                forall|j: int|
                    i <= j < self.entries@.len() ==> (#[trigger] self.entries@[j].0)@ != key@,
        decreases i,
        {
            i = i - 1;
            let pair = &self.entries[i];
            if str_eq(pair.0, key) {
                proof {
                    lemma_map_of_found(self.entries@, i as int, key@);
                }
                return Some(&pair.1);
            }
        }
        proof {
            lemma_map_of_missing(self.entries@, key@);
        }
        None
    }

    fn put(&mut self, key: &'static str, resource: Resource) {
        let ghost old_entries = self.entries@;
        self.entries.push((key, resource));
        proof {
            assert(self.entries@.drop_last() =~= old_entries);
            assert(self.entries@.last() == (key, resource));
        }
    }
}

/// Round-trip law: after a resource is put into an index under a key, looking
/// that key up yields exactly that resource, and every other key's entry is
/// untouched. `ResourceStorage::put` pins the new contents to
/// `old(..).contents().insert(..)`, so this holds of every storage.
pub proof fn lemma_put_get(
    contents: Map<Seq<char>, Resource>,
    key: Seq<char>,
    resource: Resource,
    other: Seq<char>,
)
    requires
        other != key,
    ensures
        contents.insert(key, resource).contains_key(key),
        contents.insert(key, resource)[key] == resource,
        contents.insert(key, resource).contains_key(other) == contents.contains_key(other),
        contents.contains_key(other) ==> contents.insert(key, resource)[other] == contents[other],
{
}

/// Looking up a key whose newest occurrence in the list is at `i` yields
/// that occurrence's value.
proof fn lemma_map_of_found(s: Seq<(&'static str, Resource)>, i: int, key: Seq<char>)
    requires
        0 <= i < s.len(),
        s[i].0@ == key,
        forall|j: int| i < j < s.len() ==> (#[trigger] s[j].0)@ != key,
    ensures
        map_of(s).contains_key(key),
        map_of(s)[key] == s[i].1,
    decreases s.len(),
{
    if i == s.len() - 1 {
    } else {
        assert(s.drop_last()[i] == s[i]);
        lemma_map_of_found(s.drop_last(), i, key);
    }
}

/// Looking up a key that occurs nowhere in the list fails.
proof fn lemma_map_of_missing(s: Seq<(&'static str, Resource)>, key: Seq<char>)
    requires
        forall|j: int| 0 <= j < s.len() ==> (#[trigger] s[j].0)@ != key,
    ensures
        !map_of(s).contains_key(key),
    decreases s.len(),
{
    if s.len() > 0 {
        assert(forall|j: int|
            0 <= j < s.drop_last().len() ==> (#[trigger] s.drop_last()[j].0)@ != key);
        lemma_map_of_missing(s.drop_last(), key);
    }
}

} // verus!
