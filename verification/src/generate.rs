//! The builder-style module generator: options resolved once per run, and
//! the split-by-count generator that emits one construction function spread
//! over several sub-unit files.

use vstd::prelude::*;

use crate::pipeline::{ResourceError, ResourcePrototype};
use crate::resource::function_end_text;
use crate::sets::{chunks_of, count_chunks_from, set_decls_text, GeneratedSets};
use crate::storage::{impl_signature_text, ResourceStorageType};
use crate::text::{append_dec, dec_of};

verus! {

/// A resource stream paired with the storage descriptor that will emit it.
pub struct Generate<S: ResourceStorageType> {
    pub resources: Vec<ResourcePrototype>,
    pub resource_storage: S,
}

/// Builds a module generator from a resource stream; each options type knows
/// which generator it configures.
pub trait ModuleGeneratorBuilder<S: ResourceStorageType>: Sized {
    type Implementation: ModuleGenerator<S>;

    /// The generator this builder produces for a given stream.
    spec fn build_spec(self, generate: Generate<S>) -> Self::Implementation;

    fn build(self, generate: Generate<S>) -> (r: Self::Implementation)
        ensures
            r == self.build_spec(generate),
    ;
}

/// A generator of emitted compilation units for one resource stream.
pub trait ModuleGenerator<S> {

}

impl<S: ResourceStorageType> Generate<S> {
    /// Finishes the pipeline: hands the stream to the chosen generator.
    pub fn module_generator<G: ModuleGeneratorBuilder<S>>(self, module_options: G) -> (r:
        G::Implementation)
        ensures
            r == module_options.build_spec(self),
    {
        module_options.build(self)
    }
}

/// The ways a module generator can be configured.
pub struct ModuleGenerators;

impl ModuleGenerators {
    /// Split sub-units by resource count: at most `count` entries each.
    pub fn split_by_count(count: usize) -> (r: SplitByCountModuleGeneratorOptions)
        ensures
            r.count == count,
            r.generic_options.name is None,
    {
        SplitByCountModuleGeneratorOptions {
            count,
            generic_options: ModuleGeneratorOptions { name: None },
        }
    }
}

/// Options every module generator understands: the emitted module's name.
pub struct ModuleGeneratorOptions {
    pub name: Option<String>,
}

impl Default for ModuleGeneratorOptions {
    fn default() -> (r: Self)
        ensures
            r.name is None,
    {
        ModuleGeneratorOptions { name: None }
    }
}

/// The module name, falling back to a fixed default.
pub open spec fn module_name_spec(o: ModuleGeneratorOptions) -> Seq<char> {
    match o.name {
        Some(n) => n@,
        None => "sets"@,
    }
}

/// The module name, falling back to one derived from the exposed function.
pub open spec fn module_name_for_function_spec(
    o: ModuleGeneratorOptions,
    fn_name: Seq<char>,
) -> Seq<char> {
    match o.name {
        Some(n) => n@,
        None => fn_name + "_sets"@,
    }
}

impl ModuleGeneratorOptions {
    fn name(&self) -> (r: &str)
        ensures
            r@ == module_name_spec(*self),
    {
        match &self.name {
            Some(n) => n.as_str(),
            None => "sets",
        }
    }

    fn name_for_function(&self, fn_options: &FunctionOptions) -> (r: String)
        ensures
            r@ == module_name_for_function_spec(*self, fn_name_spec(*fn_options)),
    {
        match &self.name {
            Some(n) => n.clone(),
            None => {
                let mut r = String::from_str(fn_options.name());
                r.append("_sets");
                r
            },
        }
    }
}

/// Options of the split-by-count generator: the per-unit resource bound plus
/// the shared options.
pub struct SplitByCountModuleGeneratorOptions {
    pub count: usize,
    pub generic_options: ModuleGeneratorOptions,
}

impl Default for SplitByCountModuleGeneratorOptions {
    fn default() -> (r: Self)
        ensures
            r.count == 0,
            r.generic_options.name is None,
    {
        SplitByCountModuleGeneratorOptions {
            count: 0,
            generic_options: ModuleGeneratorOptions { name: None },
        }
    }
}

impl<S: ResourceStorageType> ModuleGeneratorBuilder<S> for SplitByCountModuleGeneratorOptions {
    type Implementation = SplitByCountModuleGenerator<S>;

    open spec fn build_spec(self, generate: Generate<S>) -> Self::Implementation {
        SplitByCountModuleGenerator { options: self, generate }
    }

    fn build(self, generate: Generate<S>) -> (r: Self::Implementation) {
        SplitByCountModuleGenerator { options: self, generate }
    }
}

/// Emits the resource stream as `ceil(n / count)` sub-unit files joined by
/// one aggregating unit.
pub struct SplitByCountModuleGenerator<S: ResourceStorageType> {
    pub options: SplitByCountModuleGeneratorOptions,
    pub generate: Generate<S>,
}

impl<S: ResourceStorageType> ModuleGenerator<S> for SplitByCountModuleGenerator<S> {

}

/// Configuration of one generation run, resolved once: the exposed function's
/// name, the output root, the top-level file name, leading annotations, and
/// the visibility qualifier. Unset fields fall back to fixed defaults.
pub struct FunctionOptions {
    pub name: Option<String>,
    pub path: Option<String>,
    pub filename: Option<String>,
    pub annotations: Option<Vec<String>>,
    pub modifiers: Option<String>,
}

pub open spec fn fn_name_spec(o: FunctionOptions) -> Seq<char> {
    match o.name {
        Some(n) => n@,
        None => "generate"@,
    }
}

pub open spec fn filename_spec(o: FunctionOptions) -> Seq<char> {
    match o.filename {
        Some(f) => f@,
        None => "generated.rs"@,
    }
}

pub open spec fn modifiers_spec(o: FunctionOptions) -> Seq<char> {
    match o.modifiers {
        Some(m) => m@,
        None => "pub"@,
    }
}

pub open spec fn annotations_spec(o: FunctionOptions) -> Seq<Seq<char>> {
    match o.annotations {
        Some(a) => a@.map_values(|s: String| s@),
        None => seq!["#[allow(clippy::unreadable_literal)]"@],
    }
}

/// The given lines joined with single newlines, no trailing newline.
pub open spec fn join_lines(xs: Seq<Seq<char>>) -> Seq<char>
    decreases xs.len(),
{
    if xs.len() == 0 {
        Seq::empty()
    } else if xs.len() == 1 {
        xs[0]
    } else {
        join_lines(xs.drop_last()) + "\n"@ + xs.last()
    }
}

/// The resolved output root: an explicitly set path, else the externally
/// supplied output directory.
pub open spec fn path_spec(o: FunctionOptions, out_dir: Option<Seq<char>>) -> Result<
    Seq<char>,
    ResourceError,
> {
    match o.path {
        Some(p) => Ok(p@),
        None => match out_dir {
            Some(d) => Ok(d),
            None => Err(ResourceError::WrongOutDir),
        },
    }
}

pub open spec fn view_of_str_option(s: Option<&str>) -> Option<Seq<char>> {
    match s {
        Some(x) => Some(x@),
        None => None,
    }
}

impl FunctionOptions {
    pub fn new() -> (r: Self)
        ensures
            r.name is None,
            r.path is None,
            r.filename is None,
            r.annotations is None,
            r.modifiers is None,
    {
        FunctionOptions { name: None, path: None, filename: None, annotations: None, modifiers: None }
    }

    /// Overrides the exposed function's identifier.
    pub fn with_name(self, name: Option<String>) -> (r: Self)
        ensures
            r == (FunctionOptions { name, ..self }),
    {
        FunctionOptions { name, ..self }
    }

    /// Overrides the output root.
    pub fn with_path(self, path: Option<String>) -> (r: Self)
        ensures
            r == (FunctionOptions { path, ..self }),
    {
        FunctionOptions { path, ..self }
    }

    /// Overrides the leading annotations of emitted functions.
    pub fn with_annotations(self, annotations: Option<Vec<String>>) -> (r: Self)
        ensures
            r == (FunctionOptions { annotations, ..self }),
    {
        FunctionOptions { annotations, ..self }
    }

    /// Overrides the visibility qualifier of the exposed function.
    pub fn with_modifiers(self, modifiers: Option<String>) -> (r: Self)
        ensures
            r == (FunctionOptions { modifiers, ..self }),
    {
        FunctionOptions { modifiers, ..self }
    }

    fn name(&self) -> (r: &str)
        ensures
            r@ == fn_name_spec(*self),
    {
        match &self.name {
            Some(n) => n.as_str(),
            None => "generate",
        }
    }

    /// The output root: an explicitly set path, else the externally supplied
    /// output directory `out_dir`; with neither, the run cannot place its
    /// files and is refused.
    fn path(&self, out_dir: Option<&str>) -> (r: Result<String, ResourceError>)
        ensures
            match r {
                Ok(p) => path_spec(*self, view_of_str_option(out_dir)) matches Ok(q) && p@ == q,
                Err(e) => path_spec(*self, view_of_str_option(out_dir)) matches Err(q) && e == q,
            },
    {
        match &self.path {
            Some(p) => Ok(p.clone()),
            None => match out_dir {
                Some(d) => Ok(String::from_str(d)),
                None => Err(ResourceError::WrongOutDir),
            },
        }
    }

    fn filename(&self) -> (r: &str)
        ensures
            r@ == filename_spec(*self),
    {
        match &self.filename {
            Some(f) => f.as_str(),
            None => "generated.rs",
        }
    }

    /// Where the top-level generated file goes: the output root joined with
    /// the file name.
    fn generated_filename(&self, out_dir: Option<&str>) -> (r: Result<String, ResourceError>)
        ensures
            match r {
                Ok(p) => path_spec(*self, view_of_str_option(out_dir)) matches Ok(q) && p@ == q
                    + "/"@ + filename_spec(*self),
                Err(e) => path_spec(*self, view_of_str_option(out_dir)) matches Err(q) && e == q,
            },
    {
        match self.path(out_dir) {
            Ok(mut p) => {
                p.append("/");
                p.append(self.filename());
                Ok(p)
            },
            Err(e) => Err(e),
        }
    }

    /// The leading annotation lines, joined with newlines.
    fn annotations(&self) -> (r: String)
        ensures
            r@ == join_lines(annotations_spec(*self)),
    {
        match &self.annotations {
            Some(lines) => {
                let ghost vs = lines@.map_values(|s: String| s@);
                let mut r = String::new();
                let mut i: usize = 0;
                proof {
                    assert(vs.len() == lines@.len());
                }
                if lines.len() == 0 {
                    proof {
                        assert(r@ =~= join_lines(vs));
                    }
                    return r;
                }
                r.append(lines[0].as_str());
                i = 1;
                proof {
                    assert(vs.subrange(0, 1) =~= seq![vs[0]]);
                    assert(r@ =~= join_lines(vs.subrange(0, 1)));
                }
                while i < lines.len()
                    invariant
                        1 <= i <= lines@.len(),
                        vs == lines@.map_values(|s: String| s@),
                        vs.len() == lines@.len(),
                        r@ == join_lines(vs.subrange(0, i as int)),
                    decreases lines@.len() - i,
                {
                    r.append("\n");
                    r.append(lines[i].as_str());
                    proof {
                        assert(vs.subrange(0, i + 1).drop_last() =~= vs.subrange(0, i as int));
                        assert(vs.subrange(0, i + 1).last() == vs[i as int]);
                        assert(vs.subrange(0, i + 1).len() > 1);
                        assert(r@ =~= join_lines(vs.subrange(0, i + 1)));
                    }
                    i += 1;
                }
                proof {
                    assert(vs.subrange(0, vs.len() as int) =~= vs);
                }
                r
            },
            None => String::from_str("#[allow(clippy::unreadable_literal)]"),
        }
    }

    fn modifiers(&self) -> (r: &str)
        ensures
            r@ == modifiers_spec(*self),
    {
        match &self.modifiers {
            Some(m) => m.as_str(),
            None => "pub",
        }
    }
}

impl Default for FunctionOptions {
    fn default() -> (r: Self)
        ensures
            r.name is None,
            r.path is None,
            r.filename is None,
            r.annotations is None,
            r.modifiers is None,
    {
        FunctionOptions::new()
    }
}

/// One sub-unit file being filled: its text so far, and the storage
/// descriptor that formats each insertion.
pub(crate) struct SetModuleFile<'a, S: ResourceStorageType> {
    pub content: String,
    pub resource_storage: &'a S,
}

/// The preamble of one emitted sub-unit: a package-private function that
/// fills a passed-in index.
pub open spec fn unit_header_text<S: ResourceStorageType>(st: S) -> Seq<char> {
    "use super::*;\npub(crate) fn generate("@ + st.variable_name_spec() + ": &mut "@
        + impl_signature_text(st.namespace_spec(), st.tag_type_spec()) + ") {\n"@
}

/// The insertion statements the descriptor emits for a slice of resources,
/// in order.
pub open spec fn unit_inserts_text<S: ResourceStorageType>(
    st: S,
    rs: Seq<ResourcePrototype>,
) -> Seq<char>
    decreases rs.len(),
{
    if rs.len() == 0 {
        Seq::empty()
    } else {
        unit_inserts_text(st, rs.drop_last()) + st.insert_line_spec(rs.last())
    }
}

/// The whole text of one emitted sub-unit holding the given resources.
pub open spec fn unit_text<S: ResourceStorageType>(st: S, rs: Seq<ResourcePrototype>) -> Seq<
    char,
> {
    unit_header_text(st) + unit_inserts_text(st, rs) + function_end_text()
}

/// The header of the exposed construction function: annotations, visibility,
/// name, and the index signature.
pub open spec fn fn_start_text(o: FunctionOptions, sig: Seq<char>) -> Seq<char> {
    join_lines(annotations_spec(o)) + "\n"@ + modifiers_spec(o) + " fn "@ + fn_name_spec(o)
        + "() -> "@ + sig + " {\n"@
}

/// The imports at the top of the aggregating unit.
pub open spec fn module_file_uses_text(ns: Seq<char>, storage_type: Seq<char>) -> Seq<char> {
    "use ::"@ + ns + "::new_resource as n;\nuse ::std::include_bytes as i;\nuse ::"@ + ns
        + "::Resource;\nuse "@ + storage_type + ";\n"@
}

pub open spec fn unit_call_text(i: nat, var: Seq<char>) -> Seq<char> {
    "set_"@ + dec_of(i) + "::generate(w"@ + var + ");\n"@
}

/// The calls that let sub-units 1 to `k` fill the index, in ascending
/// ordinal order.
pub open spec fn unit_calls_text(k: nat, var: Seq<char>) -> Seq<char>
    decreases k,
{
    if k == 0 {
        Seq::empty()
    } else {
        unit_calls_text((k - 1) as nat, var) + unit_call_text(k, var)
    }
}

/// The whole text of the aggregating unit for `k` sub-units: the imports,
/// the sub-unit declarations, and the exposed function that constructs the
/// index, lets every sub-unit fill it in order, and returns it.
pub open spec fn generator_module_file_text<S: ResourceStorageType>(
    st: S,
    k: nat,
    o: FunctionOptions,
) -> Seq<char> {
    module_file_uses_text(st.namespace_spec(), st.storage_type_spec())
        + set_decls_text(k)
        + fn_start_text(o, impl_signature_text(st.namespace_spec(), st.tag_type_spec()))
        + "let mut "@ + st.variable_name_spec() + " = "@ + st.storage_constructor_spec() + "();\n"@
        + "let mut w"@ + st.variable_name_spec() + " = &mut "@ + st.variable_name_spec() + ";\n"@
        + unit_calls_text(k, st.variable_name_spec())
        + st.variable_name_spec() + "\n"@
        + function_end_text()
}

/// The top-level generated file when resources exist: it re-exports the
/// aggregating module's function.
pub open spec fn generator_generated_file_text(
    module_name: Seq<char>,
    fn_name: Seq<char>,
) -> Seq<char> {
    "mod "@ + module_name + ";\npub use "@ + module_name + "::"@ + fn_name + ";"@
}

/// The top-level generated file when no resource was found: one function
/// that returns an explicitly constructed empty index.
pub open spec fn generator_empty_file_text<S: ResourceStorageType>(
    st: S,
    o: FunctionOptions,
) -> Seq<char> {
    fn_start_text(o, impl_signature_text(st.namespace_spec(), st.tag_type_spec())) + "let mut "@
        + st.variable_name_spec() + " = "@ + st.storage_constructor_spec() + "();\n"@
        + st.variable_name_spec() + "\n"@ + function_end_text()
}

/// Emission of `rs` stops at position `i`: everything before it is a variant
/// the descriptor supports, and `rs[i]` is not.
pub open spec fn first_unsupported_at<S: ResourceStorageType>(
    st: S,
    rs: Seq<ResourcePrototype>,
    i: int,
) -> bool {
    &&& 0 <= i < rs.len()
    &&& !st.supports(rs[i])
    &&& forall|j: int| 0 <= j < i ==> #[trigger] st.supports(rs[j])
}

impl<'a, S: ResourceStorageType> SetModuleFile<'a, S> {
    fn write_fn_start(&mut self)
        ensures
            final(self).content@ == old(self).content@ + unit_header_text(
                *old(self).resource_storage,
            ),
            final(self).resource_storage == old(self).resource_storage,
    {
        self.content.append("use super::*;\npub(crate) fn generate(");
        let var = self.resource_storage.default_variable_name();
        self.content.append(var);
        self.content.append(": &mut ");
        let sig = self.resource_storage.impl_signature();
        self.content.append(sig.as_str());
        self.content.append(") {\n");
        proof {
            assert(self.content@ =~= old(self).content@ + unit_header_text(
                *old(self).resource_storage,
            ));
        }
    }

    fn write_fn_end(&mut self)
        ensures
            final(self).content@ == old(self).content@ + function_end_text(),
            final(self).resource_storage == old(self).resource_storage,
    {
        self.content.append("}\n");
    }

    fn write_resource(&mut self, resource: &ResourcePrototype) -> (r: Result<(), ResourceError>)
        ensures
            final(self).resource_storage == old(self).resource_storage,
            r is Ok <==> old(self).resource_storage.supports(*resource),
            r is Ok ==> final(self).content@ == old(self).content@
                + old(self).resource_storage.insert_line_spec(*resource),
            r is Err ==> final(self).content@ == old(self).content@ && r == Err::<
                (),
                ResourceError,
            >(ResourceError::UnsupportedResourceVariant),
    {
        self.resource_storage.write_resource(&mut self.content, resource)
    }
}

impl<S: ResourceStorageType> SplitByCountModuleGenerator<S> {
    /// Starts one sub-unit: its insertion function's preamble.
    pub(crate) fn create_set_module_file<'a>(resource_storage: &'a S) -> (r: SetModuleFile<
        'a,
        S,
    >)
        ensures
            r.content@ == unit_header_text(*resource_storage),
            r.resource_storage == resource_storage,
    {
        let mut set_module = SetModuleFile { content: String::new(), resource_storage };
        set_module.write_fn_start();
        proof {
            assert(set_module.content@ =~= unit_header_text(*resource_storage));
        }
        set_module
    }

    fn module_name(module_index: u64) -> (r: String)
        ensures
            r@ == "set_"@ + dec_of(module_index as nat),
    {
        let mut r = String::from_str("set_");
        append_dec(&mut r, module_index);
        r
    }

    fn write_fn_start(file: &mut String, function_options: &FunctionOptions, resource_storage: &S)
        ensures
            final(file)@ == old(file)@ + fn_start_text(
                *function_options,
                impl_signature_text(
                    resource_storage.namespace_spec(),
                    resource_storage.tag_type_spec(),
                ),
            ),
    {
        let ann = function_options.annotations();
        file.append(ann.as_str());
        file.append("\n");
        file.append(function_options.modifiers());
        file.append(" fn ");
        file.append(function_options.name());
        file.append("() -> ");
        let sig = resource_storage.impl_signature();
        file.append(sig.as_str());
        file.append(" {\n");
        proof {
            assert(file@ =~= old(file)@ + fn_start_text(
                *function_options,
                impl_signature_text(
                    resource_storage.namespace_spec(),
                    resource_storage.tag_type_spec(),
                ),
            ));
        }
    }

    fn write_fn_end(file: &mut String)
        ensures
            final(file)@ == old(file)@ + function_end_text(),
    {
        file.append("}\n");
    }

}

impl<S: ResourceStorageType> ToFunction for SplitByCountModuleGenerator<S> {
    /// The per-unit bound must be positive.
    open spec fn write_ready(&self) -> bool {
        self.options.count >= 1
    }

    /// Emits the whole generated source tree for this run: the resource
    /// stream is cut into sub-units of at most `count` entries, each emitted
    /// as one file, joined by an aggregating unit; the top-level file
    /// re-exports the exposed function, or, with no resources at all, defines
    /// one returning an explicitly constructed empty index. The run is
    /// refused if the output root cannot be resolved, and aborts on the first
    /// resource variant the storage descriptor does not support.
    fn write_function(self, options: FunctionOptions, out_dir: Option<&str>) -> (r: Result<
        GeneratedSets,
        ResourceError,
    >)
        ensures
            path_spec(options, view_of_str_option(out_dir)) is Err ==> r == Err::<
                GeneratedSets,
                ResourceError,
            >(ResourceError::WrongOutDir),
            path_spec(options, view_of_str_option(out_dir)) is Ok ==> match r {
                Ok(g) => {
                    let protos = self.generate.resources@;
                    let st = self.generate.resource_storage;
                    let chunks = chunks_of(protos, self.options.count as nat);
                    let mname = module_name_for_function_spec(
                        self.options.generic_options,
                        fn_name_spec(options),
                    );
                    &&& forall|i: int| 0 <= i < protos.len() ==> #[trigger] st.supports(protos[i])
                    &&& g.module_name@ == mname
                    &&& (protos.len() == 0 ==> {
                        &&& g.set_files@.len() == 0
                        &&& g.module_file is None
                        &&& g.generated_file@ == generator_empty_file_text(st, options)
                    })
                    &&& (protos.len() > 0 ==> {
                        &&& g.set_files@.len() == chunks.len()
                        &&& forall|i: int|
                            0 <= i < chunks.len() ==> (#[trigger] g.set_files@[i])@ == unit_text(
                                st,
                                chunks[i],
                            )
                        &&& g.module_file matches Some(m) && m@ == generator_module_file_text(
                            st,
                            chunks.len() as nat,
                            options,
                        )
                        &&& g.generated_file@ == generator_generated_file_text(
                            mname,
                            fn_name_spec(options),
                        )
                    })
                },
                Err(e) => e == ResourceError::UnsupportedResourceVariant && exists|i: int|
                    #[trigger] first_unsupported_at(
                        self.generate.resource_storage,
                        self.generate.resources@,
                        i,
                    ),
            },
    {
        let function_options = options;
        let module_name = self.options.generic_options.name_for_function(&function_options);
        match function_options.path(out_dir) {
            Ok(_resolved_root) => {},
            Err(e) => {
                return Err(e);
            },
        }
        let resource_storage = &self.generate.resource_storage;
        let max = self.options.count;
        if self.generate.resources.len() == 0 {
            let mut generated_file = String::new();
            Self::write_fn_start(&mut generated_file, &function_options, resource_storage);
            generated_file.append("let mut ");
            generated_file.append(resource_storage.default_variable_name());
            generated_file.append(" = ");
            generated_file.append(resource_storage.storage_constructor());
            generated_file.append("();\n");
            generated_file.append(resource_storage.default_variable_name());
            generated_file.append("\n");
            Self::write_fn_end(&mut generated_file);
            proof {
                assert(generated_file@ =~= generator_empty_file_text(
                    self.generate.resource_storage,
                    options,
                ));
            }
            return Ok(
                GeneratedSets {
                    module_name,
                    generated_file,
                    module_file: None,
                    set_files: Vec::new(),
                },
            );
        }
        let ghost protos = self.generate.resources@;
        let ghost m = max as nat;
        let ghost all_chunks = chunks_of(protos, m);
        let ghost st = self.generate.resource_storage;
        let mut set_files: Vec<String> = Vec::new();
        let ghost mut done: Seq<Seq<ResourcePrototype>> = Seq::empty();
        let mut current = Self::create_set_module_file(resource_storage);
        let ghost mut cur_rs: Seq<ResourcePrototype> = Seq::empty();
        let mut counter: usize = 0;
        let mut i: usize = 0;
        proof {
            assert(unit_inserts_text(st, cur_rs) =~= Seq::<char>::empty());
            assert(current.content@ =~= unit_header_text(st) + unit_inserts_text(st, cur_rs));
            assert(protos.skip(0) =~= protos);
            assert(done + count_chunks_from(0nat, m, cur_rs, protos) =~= all_chunks);
        }
        while i < self.generate.resources.len()
            invariant
                i <= protos.len(),
                path_spec(options, view_of_str_option(out_dir)) is Ok,
                protos == self.generate.resources@,
                m == self.options.count as nat,
                st == self.generate.resource_storage,
                resource_storage == &self.generate.resource_storage,
                m >= 1,
                counter <= max,
                max as nat == m,
                counter as nat == cur_rs.len(),
                all_chunks == chunks_of(protos, m),
                forall|j: int| 0 <= j < i ==> #[trigger] st.supports(protos[j]),
                set_files@.len() == done.len(),
                forall|j: int|
                    0 <= j < done.len() ==> (#[trigger] set_files@[j])@ == unit_text(st, done[j]),
                current.resource_storage == &self.generate.resource_storage,
                current.content@ == unit_header_text(st) + unit_inserts_text(st, cur_rs),
                done + count_chunks_from(counter as nat, m, cur_rs, protos.skip(i as int))
                    == all_chunks,
            decreases protos.len() - i,
        {
            let ghost rem = protos.skip(i as int);
            let ghost done_before = done;
            let ghost cur_before = cur_rs;
            let ghost counter_before = counter as nat;
            proof {
                assert(rem[0] == protos[i as int]);
                assert(rem.drop_first() =~= protos.skip(i as int + 1));
            }
            if counter == max {
                current.write_fn_end();
                proof {
                    assert(current.content@ =~= unit_text(st, cur_rs));
                }
                let closed = current;
                set_files.push(closed.content);
                current = Self::create_set_module_file(resource_storage);
                counter = 0;
                proof {
                    done = done.push(cur_rs);
                    cur_rs = Seq::empty();
                    assert(unit_inserts_text(st, cur_rs) =~= Seq::<char>::empty());
                    assert(current.content@ =~= unit_header_text(st) + unit_inserts_text(
                        st,
                        cur_rs,
                    ));
                }
            }
            let step = current.write_resource(&self.generate.resources[i]);
            match step {
                Ok(_) => {},
                Err(e) => {
                    proof {
                        assert(!st.supports(protos[i as int]));
                        assert(first_unsupported_at(st, protos, i as int));
                    }
                    return Err(e);
                },
            }
            counter = counter + 1;
            proof {
                let pushed = cur_rs.push(rem[0]);
                assert(pushed.drop_last() =~= cur_rs);
                assert(pushed.last() == rem[0]);
                assert(unit_inserts_text(st, pushed) == unit_inserts_text(st, cur_rs)
                    + st.insert_line_spec(rem[0]));
                cur_rs = pushed;
                assert(current.content@ == unit_header_text(st) + unit_inserts_text(st, cur_rs));
                if counter_before >= m {
                    assert(cur_rs =~= seq![rem[0]]);
                    assert(count_chunks_from(counter_before, m, cur_before, rem) == seq![cur_before]
                        + count_chunks_from(1nat, m, cur_rs, rem.drop_first()));
                    assert(done + count_chunks_from(counter as nat, m, cur_rs, rem.drop_first())
                        =~= done_before + count_chunks_from(counter_before, m, cur_before, rem));
                } else {
                    assert(count_chunks_from(counter_before, m, cur_before, rem)
                        == count_chunks_from(counter as nat, m, cur_rs, rem.drop_first()));
                }
            }
            i += 1;
        }
        current.write_fn_end();
        proof {
            assert(protos.skip(protos.len() as int) =~= Seq::<ResourcePrototype>::empty());
            assert(current.content@ =~= unit_text(st, cur_rs));
            assert(count_chunks_from(counter as nat, m, cur_rs, Seq::empty()) == seq![cur_rs]);
        }
        let last = current;
        set_files.push(last.content);
        proof {
            done = done.push(cur_rs);
            assert(done =~= all_chunks);
        }
        let k = set_files.len();
        let mut module_file = String::new();
        module_file.append("use ::");
        module_file.append(resource_storage.namespace());
        module_file.append("::new_resource as n;\nuse ::std::include_bytes as i;\nuse ::");
        module_file.append(resource_storage.namespace());
        module_file.append("::Resource;\nuse ");
        module_file.append(resource_storage.storage_type());
        module_file.append(";\n");
        proof {
            assert(module_file@ =~= module_file_uses_text(
                st.namespace_spec(),
                st.storage_type_spec(),
            ));
        }
        let ghost before_decls = module_file@;
        let mut ordinal: usize = 0;
        proof {
            assert(set_decls_text(0) =~= Seq::<char>::empty());
            assert(module_file@ =~= before_decls + set_decls_text(0));
        }
        while ordinal < k
            invariant
                ordinal <= k,
                module_file@ == before_decls + set_decls_text(ordinal as nat),
            decreases k - ordinal,
        {
            ordinal += 1;
            module_file.append("mod set_");
            append_dec(&mut module_file, ordinal as u64);
            module_file.append(";\n");
            proof {
                assert(module_file@ =~= before_decls + set_decls_text(
                    ordinal as nat,
                ));
            }
        }
        Self::write_fn_start(&mut module_file, &function_options, resource_storage);
        module_file.append("let mut ");
        module_file.append(resource_storage.default_variable_name());
        module_file.append(" = ");
        module_file.append(resource_storage.storage_constructor());
        module_file.append("();\n");
        module_file.append("let mut w");
        module_file.append(resource_storage.default_variable_name());
        module_file.append(" = &mut ");
        module_file.append(resource_storage.default_variable_name());
        module_file.append(";\n");
        let ghost before_calls = module_file@;
        let mut ordinal2: usize = 0;
        proof {
            assert(unit_calls_text(0, st.variable_name_spec()) =~= Seq::<char>::empty());
            assert(module_file@ =~= before_calls + unit_calls_text(0, st.variable_name_spec()));
        }
        while ordinal2 < k
            invariant
                ordinal2 <= k,
                st == self.generate.resource_storage,
                module_file@ == before_calls + unit_calls_text(
                    ordinal2 as nat,
                    st.variable_name_spec(),
                ),
            decreases k - ordinal2,
        {
            ordinal2 += 1;
            module_file.append("set_");
            append_dec(&mut module_file, ordinal2 as u64);
            module_file.append("::generate(w");
            module_file.append(self.generate.resource_storage.default_variable_name());
            module_file.append(");\n");
            proof {
                assert(module_file@ =~= before_calls + unit_calls_text(
                    ordinal2 as nat,
                    st.variable_name_spec(),
                ));
            }
        }
        module_file.append(resource_storage.default_variable_name());
        module_file.append("\n");
        Self::write_fn_end(&mut module_file);
        proof {
            assert(module_file@ =~= generator_module_file_text(st, k as nat, options));
        }
        let mut generated_file = String::from_str("mod ");
        generated_file.append(module_name.as_str());
        generated_file.append(";\npub use ");
        generated_file.append(module_name.as_str());
        generated_file.append("::");
        generated_file.append(function_options.name());
        generated_file.append(";");
        proof {
            assert(generated_file@ =~= generator_generated_file_text(
                module_name@,
                fn_name_spec(options),
            ));
        }
        Ok(GeneratedSets { module_name, generated_file, module_file: Some(module_file), set_files })
    }
}

/// Writes one emitted source tree for a whole generation run.
pub trait ToFunction: Sized {
    /// Whether this generator's configuration is usable for a write.
    spec fn write_ready(&self) -> bool;

    fn write_function(self, options: FunctionOptions, out_dir: Option<&str>) -> Result<
        GeneratedSets,
        ResourceError,
    >
        requires
            self.write_ready(),
    ;
}

/// Writes the resource set as one map expression.
pub trait ToMap {
    fn write_map(self) -> Result<GeneratedSets, ResourceError>;
}

} // verus!
