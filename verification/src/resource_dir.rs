//! The builder around a whole generation run over one resource directory.

use vstd::prelude::*;

use crate::generate::view_of_str_option;
use crate::pipeline::ResourceError;
use crate::resource::{views_of, ResourceFile};
use crate::sets::{
    empty_index_file_text, generate_resources_sets, sets_generated_file_text,
    sets_module_file_text, set_module_text, strategy_chunks_from, GeneratedSets, SplitByCount,
};

verus! {

pub const DEFAULT_MODULE_NAME: &'static str = "sets";

pub const DEFAULT_COUNT_PER_MODULE: usize = 256;

/// Generate resources for `resource_dir`: a builder carrying the directory
/// plus overrides for the generated file name, the exposed function name, the
/// module name, and the per-module resource bound.
pub fn resource_dir(dir: &str) -> (r: ResourceDir)
    ensures
        r.resource_dir@ == dir@,
        r.generated_filename is None,
        r.generated_fn is None,
        r.module_name is None,
        r.count_per_module is None,
{
    ResourceDir {
        resource_dir: String::from_str(dir),
        generated_filename: None,
        generated_fn: None,
        module_name: None,
        count_per_module: None,
    }
}

/// Resource dir.
///
/// A builder structure that allows changing the default settings for the
/// generated file name, the generated function name, the module name, and
/// the number of resources per module.
pub struct ResourceDir {
    pub resource_dir: String,
    pub generated_filename: Option<String>,
    pub generated_fn: Option<String>,
    pub module_name: Option<String>,
    pub count_per_module: Option<usize>,
}

impl Default for ResourceDir {
    fn default() -> (r: Self)
        ensures
            r.resource_dir@ == Seq::<char>::empty(),
            r.generated_filename is None,
            r.generated_fn is None,
            r.module_name is None,
            r.count_per_module is None,
    {
        ResourceDir {
            resource_dir: String::new(),
            generated_filename: None,
            generated_fn: None,
            module_name: None,
            count_per_module: None,
        }
    }
}

/// The exposed function's name, defaulting to `generate`.
pub open spec fn resolved_fn_name(d: ResourceDir) -> Seq<char> {
    match d.generated_fn {
        Some(f) => f@,
        None => "generate"@,
    }
}

/// The generated module's name, defaulting to the function name with the
/// suffix `_sets`.
pub open spec fn resolved_module_name(d: ResourceDir) -> Seq<char> {
    match d.module_name {
        Some(m) => m@,
        None => resolved_fn_name(d) + "_"@ + "sets"@,
    }
}

/// The per-module resource bound, defaulting to 256.
pub open spec fn resolved_count(d: ResourceDir) -> usize {
    match d.count_per_module {
        Some(c) => c,
        None => 256,
    }
}

/// Where the top-level generated file goes: an explicitly set name, else
/// `generated.rs` under the externally supplied output directory.
pub open spec fn resolved_generated_filename(d: ResourceDir, out_dir: Option<Seq<char>>) -> Result<
    Seq<char>,
    ResourceError,
> {
    match d.generated_filename {
        Some(g) => Ok(g@),
        None => match out_dir {
            Some(o) => Ok(o + "/"@ + "generated.rs"@),
            None => Err(ResourceError::WrongOutDir),
        },
    }
}

/// One finished generation run: where the top-level file goes, and the
/// generated source tree itself.
#[derive(Debug)]
pub struct BuiltResourceDir {
    pub generated_filename: String,
    pub output: GeneratedSets,
}

impl ResourceDir {
    /// Generates the source tree for the given discovered resources under the
    /// current configuration. `out_dir` is the externally supplied output
    /// directory, read once by the caller; without it and without an explicit
    /// file name the run is refused.
    pub fn build(self, resources: &Vec<ResourceFile>, out_dir: Option<&str>) -> (r: Result<
        BuiltResourceDir,
        ResourceError,
    >)
        requires
            resolved_count(self) >= 1,
        ensures
            match r {
                Ok(b) => {
                    let chunks = strategy_chunks_from(
                        SplitByCount { current: 0, max: resolved_count(self) },
                        Seq::empty(),
                        views_of(resources@),
                    );
                    &&& resolved_generated_filename(self, view_of_str_option(out_dir)) matches Ok(
                        q,
                    ) && b.generated_filename@ == q
                    &&& b.output.module_name@ == resolved_module_name(self)
                    &&& (resources@.len() == 0 ==> {
                        &&& b.output.set_files@.len() == 0
                        &&& b.output.module_file is None
                        &&& b.output.generated_file@ == empty_index_file_text(
                            resolved_fn_name(self),
                        )
                    })
                    &&& (resources@.len() > 0 ==> {
                        &&& b.output.set_files@.len() == chunks.len()
                        &&& forall|i: int|
                            0 <= i < chunks.len() ==> (#[trigger] b.output.set_files@[i])@
                                == set_module_text(chunks[i])
                        &&& b.output.module_file matches Some(m) && m@ == sets_module_file_text(
                            chunks.len() as nat,
                            resolved_fn_name(self),
                        )
                        &&& b.output.generated_file@ == sets_generated_file_text(
                            resolved_module_name(self),
                            resolved_fn_name(self),
                        )
                    })
                },
                Err(e) => {
                    &&& e == ResourceError::WrongOutDir
                    &&& self.generated_filename is None
                    &&& out_dir is None
                },
            },
    {
        let generated_filename = match self.generated_filename {
            Some(g) => g,
            None => match out_dir {
                Some(o) => {
                    let mut f = String::from_str(o);
                    f.append("/");
                    f.append("generated.rs");
                    f
                },
                None => {
                    return Err(ResourceError::WrongOutDir);
                },
            },
        };
        let generated_fn = match self.generated_fn {
            Some(f) => f,
            None => String::from_str("generate"),
        };
        let module_name = match self.module_name {
            Some(m) => m,
            None => {
                let mut m = generated_fn.clone();
                m.append("_");
                m.append(DEFAULT_MODULE_NAME);
                m
            },
        };
        let count_per_module = match self.count_per_module {
            Some(c) => c,
            None => DEFAULT_COUNT_PER_MODULE,
        };
        let mut strategy = SplitByCount::new(count_per_module);
        let output = generate_resources_sets(
            resources,
            module_name.as_str(),
            generated_fn.as_str(),
            &mut strategy,
        );
        Ok(BuiltResourceDir { generated_filename, output })
    }

    /// Sets the generated filename.
    pub fn with_generated_filename(&mut self, generated_filename: &str) -> (ret: &mut Self)
        ensures
            (*ret).generated_filename matches Some(g) && g@ == generated_filename@,
            (*ret).resource_dir == old(self).resource_dir,
            (*ret).generated_fn == old(self).generated_fn,
            (*ret).module_name == old(self).module_name,
            (*ret).count_per_module == old(self).count_per_module,
            *final(self) == *final(ret),
    {
        self.generated_filename = Some(String::from_str(generated_filename));
        self
    }

    /// Sets the generated function name.
    pub fn with_generated_fn(&mut self, generated_fn: &str) -> (ret: &mut Self)
        ensures
            (*ret).generated_fn matches Some(f) && f@ == generated_fn@,
            (*ret).resource_dir == old(self).resource_dir,
            (*ret).generated_filename == old(self).generated_filename,
            (*ret).module_name == old(self).module_name,
            (*ret).count_per_module == old(self).count_per_module,
            *final(self) == *final(ret),
    {
        self.generated_fn = Some(String::from_str(generated_fn));
        self
    }

    /// Sets the generated module name.
    ///
    /// The default value is based on the generated function name and the
    /// suffix "sets".
    pub fn with_module_name(&mut self, module_name: &str) -> (ret: &mut Self)
        ensures
            (*ret).module_name matches Some(m) && m@ == module_name@,
            (*ret).resource_dir == old(self).resource_dir,
            (*ret).generated_filename == old(self).generated_filename,
            (*ret).generated_fn == old(self).generated_fn,
            (*ret).count_per_module == old(self).count_per_module,
            *final(self) == *final(ret),
    {
        self.module_name = Some(String::from_str(module_name));
        self
    }

    /// Sets the maximal count of files per module.
    pub fn with_count_per_module(&mut self, count_per_module: usize) -> (ret: &mut Self)
        ensures
            (*ret).count_per_module == Some(count_per_module),
            (*ret).resource_dir == old(self).resource_dir,
            (*ret).generated_filename == old(self).generated_filename,
            (*ret).generated_fn == old(self).generated_fn,
            (*ret).module_name == old(self).module_name,
            *final(self) == *final(ret),
    {
        self.count_per_module = Some(count_per_module);
        self
    }
}

} // verus!
