//! Splitting a resource set across several generated sub-unit files, so no
//! single generated function grows beyond a configured size.

use vstd::prelude::*;

use crate::resource::{
    function_end_text, function_header_text, generate_function_end, generate_function_header,
    generate_resource_insert, generate_uses, generate_variable_header, generate_variable_return,
    resource_insert_text, resource_inserts_text, uses_text, variable_header_text,
    variable_return_text, views_of, ResourceFile, ResourceFileView, DEFAULT_VARIABLE_NAME,
};
use crate::text::{append_dec, dec_of};

verus! {

/// Defines the split strategy: when the sub-unit being filled is full and the
/// next resource must start a new one.
pub trait SetSplitStrategie: Sized {
    /// A well-formed strategy state; splitting behaves as promised only from
    /// such states.
    spec fn wf(&self) -> bool;

    /// Whether the strategy asks for a split now.
    spec fn should_split_spec(&self) -> bool;

    /// The state after one more resource is registered.
    spec fn register_spec(&self) -> Self;

    /// The state after the counters are reset at a split point.
    spec fn reset_spec(&self) -> Self;

    /// Register the next file from the resources.
    fn register(&mut self, resource: &ResourceFile)
        ensures
            *final(self) == old(self).register_spec(),
            old(self).wf() ==> final(self).wf(),
    ;

    /// Determine whether the modules should be split now.
    fn should_split(&self) -> (r: bool)
        ensures
            r == self.should_split_spec(),
    ;

    /// Reset the internal counters after a split. From a well-formed state, a
    /// split is never asked for immediately afterwards.
    fn reset(&mut self)
        ensures
            *final(self) == old(self).reset_spec(),
            old(self).wf() ==> final(self).wf() && !final(self).should_split_spec(),
    ;
}

/// The count-based strategy: a sub-unit is full once it holds `max`
/// resources.
pub struct SplitByCount {
    pub current: usize,
    pub max: usize,
}

impl SplitByCount {
    /// A strategy that splits after every `max` resources; the threshold is
    /// at least one.
    pub fn new(max: usize) -> (r: Self)
        requires
            max >= 1,
        ensures
            r == (SplitByCount { current: 0, max }),
            r.wf(),
    {
        Self { current: 0, max }
    }
}

impl SetSplitStrategie for SplitByCount {
    open spec fn wf(&self) -> bool {
        self.max >= 1
    }

    open spec fn should_split_spec(&self) -> bool {
        self.current >= self.max
    }

    open spec fn register_spec(&self) -> Self {
        if self.current == usize::MAX {
            *self
        } else {
            SplitByCount { current: (self.current + 1) as usize, max: self.max }
        }
    }

    open spec fn reset_spec(&self) -> Self {
        SplitByCount { current: 0, max: self.max }
    }

    fn register(&mut self, resource: &ResourceFile) {
        if self.current < usize::MAX {
            self.current = self.current + 1;
        }
    }

    fn should_split(&self) -> (r: bool) {
        self.current >= self.max
    }

    fn reset(&mut self) {
        self.current = 0;
    }
}

/// The sub-unit slices a strategy produces: starting from state `st` with the
/// slice `cur` already filled, walk `s`; a resource that finds the strategy
/// asking for a split closes the current slice and starts a new one.
pub open spec fn strategy_chunks_from<S: SetSplitStrategie>(
    st: S,
    cur: Seq<ResourceFileView>,
    s: Seq<ResourceFileView>,
) -> Seq<Seq<ResourceFileView>>
    decreases s.len(),
{
    if s.len() == 0 {
        seq![cur]
    } else if st.should_split_spec() {
        seq![cur] + strategy_chunks_from(
            st.reset_spec().register_spec(),
            seq![s[0]],
            s.drop_first(),
        )
    } else {
        strategy_chunks_from(st.register_spec(), cur.push(s[0]), s.drop_first())
    }
}

/// The strategy state after walking `s` from state `st`.
pub open spec fn strategy_after<S: SetSplitStrategie>(st: S, s: Seq<ResourceFileView>) -> S
    decreases s.len(),
{
    if s.len() == 0 {
        st
    } else if st.should_split_spec() {
        strategy_after(st.reset_spec().register_spec(), s.drop_first())
    } else {
        strategy_after(st.register_spec(), s.drop_first())
    }
}

/// The sub-unit slices produced by pure counting: `c` resources already sit
/// in the open slice `cur`, and a slice is full at `m`.
pub open spec fn count_chunks_from<T>(c: nat, m: nat, cur: Seq<T>, s: Seq<T>) -> Seq<Seq<T>>
    decreases s.len(),
{
    if s.len() == 0 {
        seq![cur]
    } else if c >= m {
        seq![cur] + count_chunks_from(1, m, seq![s[0]], s.drop_first())
    } else {
        count_chunks_from(c + 1, m, cur.push(s[0]), s.drop_first())
    }
}

/// The sub-unit slices of `s` with at most `m` resources each: every slice
/// but the last holds exactly `m`.
pub open spec fn chunks_of<T>(s: Seq<T>, m: nat) -> Seq<Seq<T>> {
    count_chunks_from(0, m, Seq::empty(), s)
}

/// The preamble of one sub-unit file: its package-private insertion function.
pub open spec fn set_module_header_text() -> Seq<char> {
    "use super::*;\npub(crate) fn generate(r: &mut HashMap<&'static str, Resource>) {\n"@
}

/// The whole text of one sub-unit file holding the given resources.
pub open spec fn set_module_text(files: Seq<ResourceFileView>) -> Seq<char> {
    set_module_header_text() + resource_inserts_text("r"@, files) + function_end_text()
}

/// The imports at the top of the aggregating unit.
pub open spec fn module_uses_text() -> Seq<char> {
    uses_text() + "\nuse ::static_files::Resource;\nuse ::std::collections::HashMap;\n"@
}

pub open spec fn set_decl_text(i: nat) -> Seq<char> {
    "mod set_"@ + dec_of(i) + ";\n"@
}

/// The declarations `mod set_1;` .. `mod set_k;`.
pub open spec fn set_decls_text(k: nat) -> Seq<char>
    decreases k,
{
    if k == 0 {
        Seq::empty()
    } else {
        set_decls_text((k - 1) as nat) + set_decl_text(k)
    }
}

pub open spec fn set_call_text(i: nat) -> Seq<char> {
    "set_"@ + dec_of(i) + "::generate(&mut r);\n"@
}

/// The calls `set_1::generate(&mut r);` .. `set_k::generate(&mut r);`, in
/// ascending ordinal order.
pub open spec fn set_calls_text(k: nat) -> Seq<char>
    decreases k,
{
    if k == 0 {
        Seq::empty()
    } else {
        set_calls_text((k - 1) as nat) + set_call_text(k)
    }
}

/// The whole text of the aggregating unit for `k` sub-units: declares them,
/// and exposes one public function that builds the index, lets every sub-unit
/// fill it in order, and returns it.
pub open spec fn sets_module_file_text(k: nat, fn_name: Seq<char>) -> Seq<char> {
    module_uses_text() + set_decls_text(k) + function_header_text(fn_name) + variable_header_text(
        "r"@,
    ) + set_calls_text(k) + variable_return_text("r"@) + function_end_text()
}

/// The top-level generated file when resources exist: it re-exports the
/// aggregating module's function.
pub open spec fn sets_generated_file_text(module_name: Seq<char>, fn_name: Seq<char>) -> Seq<char> {
    "mod "@ + module_name + ";\npub use "@ + module_name + "::"@ + fn_name + ";\n"@
}

/// The top-level generated file when no resource was found: one function that
/// returns an explicitly constructed empty index.
pub open spec fn empty_index_file_text(fn_name: Seq<char>) -> Seq<char> {
    function_header_text(fn_name) + variable_header_text("r"@) + variable_return_text("r"@)
        + function_end_text()
}

/// A count-based strategy walks resources exactly as pure counting does: the
/// saturating register can never actually saturate, because a full counter
/// forces a split and a reset first.
pub proof fn lemma_split_by_count_chunks(
    st: SplitByCount,
    cur: Seq<ResourceFileView>,
    s: Seq<ResourceFileView>,
)
    ensures
        strategy_chunks_from(st, cur, s) == count_chunks_from(
            st.current as nat,
            st.max as nat,
            cur,
            s,
        ),
    decreases s.len(),
{
    if s.len() == 0 {
    } else if st.should_split_spec() {
        lemma_split_by_count_chunks(st.reset_spec().register_spec(), seq![s[0]], s.drop_first());
    } else {
        lemma_split_by_count_chunks(st.register_spec(), cur.push(s[0]), s.drop_first());
    }
}

/// The shape of the slices of `count_chunks_from`, starting with `c` of the
/// at most `m` places of the open slice already filled.
proof fn lemma_count_chunks_structure<T>(c: nat, m: nat, cur: Seq<T>, s: Seq<T>)
    requires
        1 <= m,
        cur.len() == c,
        1 <= c <= m,
    ensures
        ({
            let ch = count_chunks_from(c, m, cur, s);
            &&& ch.len() >= 1
            &&& ch.len() == ((c + s.len() + m - 1) as int) / (m as int)
            &&& (forall|i: int| 0 <= i < ch.len() - 1 ==> (#[trigger] ch[i]).len() == m)
            &&& ch.last().len() == c + s.len() - m * (ch.len() - 1)
            &&& ch.flatten() == cur + s
        }),
    decreases s.len(),
{
    let ch = count_chunks_from(c, m, cur, s);
    if s.len() == 0 {
        assert(((c + m - 1) as int) / (m as int) == 1) by (nonlinear_arith)
            requires
                1 <= c <= m,
        ;
        ch.lemma_flatten_one_element();
        assert(ch.flatten() =~= cur + s);
    } else if c >= m {
        let rest = count_chunks_from(1, m, seq![s[0]], s.drop_first());
        lemma_count_chunks_structure(1, m, seq![s[0]], s.drop_first());
        assert(ch =~= seq![cur] + rest);
        let n = s.len();
        assert(((m + n + m - 1) as int) / (m as int) == 1 + ((1 + (n - 1) + m - 1) as int) / (
        m as int)) by (nonlinear_arith)
            requires
                1 <= m,
                n >= 1,
        ;
        assert forall|i: int| 0 <= i < ch.len() - 1 implies (#[trigger] ch[i]).len() == m by {
            if i > 0 {
                assert(ch[i] == rest[i - 1]);
            }
        }
        assert(ch.last() == rest.last());
        assert((m + n) - m * (ch.len() - 1) == (1 + (n - 1)) - m * (rest.len() - 1))
            by (nonlinear_arith)
            requires
                ch.len() == rest.len() + 1,
                n >= 1,
        ;
        vstd::seq_lib::lemma_flatten_concat(seq![cur], rest);
        seq![cur].lemma_flatten_one_element();
        assert(seq![s[0]] + s.drop_first() =~= s);
        assert(ch.flatten() =~= cur + s);
    } else {
        lemma_count_chunks_structure((c + 1) as nat, m, cur.push(s[0]), s.drop_first());
        assert(cur.push(s[0]) + s.drop_first() =~= cur + s);
    }
}

/// Split-boundary law: with threshold `m` of at least one, `n` resources
/// split into exactly `(n + m - 1) / m` sub-unit slices; every slice but the
/// last holds exactly `m`, the last holds the remainder, and concatenating
/// the slices in order gives back exactly the input.
pub proof fn lemma_split_boundary<T>(s: Seq<T>, m: nat)
    requires
        1 <= m,
        s.len() >= 1,
    ensures
        ({
            let chunks = chunks_of(s, m);
            &&& chunks.len() == ((s.len() + m - 1) as int) / (m as int)
            &&& (forall|i: int| 0 <= i < chunks.len() - 1 ==> (#[trigger] chunks[i]).len() == m)
            &&& chunks.last().len() == s.len() - m * (chunks.len() - 1)
            &&& chunks.flatten() == s
        }),
{
    let chunks = chunks_of(s, m);
    assert(Seq::<T>::empty().push(s[0]) =~= seq![s[0]]);
    lemma_count_chunks_structure(1, m, seq![s[0]], s.drop_first());
    assert(chunks == count_chunks_from(1, m, seq![s[0]], s.drop_first()));
    assert(seq![s[0]] + s.drop_first() =~= s);
}

/// The split only slices: concatenating the sub-unit slices a strategy
/// produces, in order, gives back the open slice followed by exactly the
/// walked resources, each exactly once.
pub proof fn lemma_strategy_chunks_cover<S: SetSplitStrategie>(
    st: S,
    cur: Seq<ResourceFileView>,
    s: Seq<ResourceFileView>,
)
    ensures
        strategy_chunks_from(st, cur, s).flatten() == cur + s,
    decreases s.len(),
{
    let ch = strategy_chunks_from(st, cur, s);
    if s.len() == 0 {
        ch.lemma_flatten_one_element();
        assert(ch.flatten() =~= cur + s);
    } else if st.should_split_spec() {
        let rest = strategy_chunks_from(st.reset_spec().register_spec(), seq![s[0]], s.drop_first());
        lemma_strategy_chunks_cover(st.reset_spec().register_spec(), seq![s[0]], s.drop_first());
        vstd::seq_lib::lemma_flatten_concat(seq![cur], rest);
        seq![cur].lemma_flatten_one_element();
        assert(seq![s[0]] + s.drop_first() =~= s);
        assert(ch.flatten() =~= cur + s);
    } else {
        lemma_strategy_chunks_cover(st.register_spec(), cur.push(s[0]), s.drop_first());
        assert(cur.push(s[0]) + s.drop_first() =~= cur + s);
    }
}

/// The split boundary at the pipeline level: a fresh count-based strategy
/// with threshold `m` slices `files` exactly as pure counting does, so the
/// sub-unit count and sizes of `lemma_split_boundary` hold of what
/// `generate_resources_sets` emits.
pub proof fn lemma_split_by_count_boundary(files: Seq<ResourceFileView>, m: usize)
    requires
        1 <= m,
        files.len() >= 1,
    ensures
        ({
            let chunks = strategy_chunks_from(
                SplitByCount { current: 0, max: m },
                Seq::empty(),
                files,
            );
            &&& chunks == chunks_of(files, m as nat)
            &&& chunks.len() == ((files.len() + m - 1) as int) / (m as int)
            &&& (forall|i: int| 0 <= i < chunks.len() - 1 ==> (#[trigger] chunks[i]).len() == m)
            &&& chunks.last().len() == files.len() - m * (chunks.len() - 1)
            &&& chunks.flatten() == files
        }),
{
    lemma_split_by_count_chunks(SplitByCount { current: 0, max: m }, Seq::empty(), files);
    lemma_split_boundary(files, m as nat);
}

/// A generated split tree agrees with the generator's contract for the given
/// resources, module name, and function name.
pub open spec fn sets_output_matches<S: SetSplitStrategie>(
    r: GeneratedSets,
    st: S,
    files: Seq<ResourceFileView>,
    module_name: Seq<char>,
    fn_name: Seq<char>,
) -> bool {
    let chunks = strategy_chunks_from(st, Seq::empty(), files);
    &&& r.module_name@ == module_name
    &&& r.set_files@.len() == chunks.len()
    &&& (forall|i: int|
        0 <= i < chunks.len() ==> (#[trigger] r.set_files@[i])@ == set_module_text(chunks[i]))
    &&& r.module_file matches Some(m) && m@ == sets_module_file_text(chunks.len() as nat, fn_name)
    &&& r.generated_file@ == sets_generated_file_text(module_name, fn_name)
}

/// Idempotence: the emitted tree is a function of the resources and the
/// options alone, so two runs over the same unchanged inputs emit
/// byte-identical trees.
pub proof fn lemma_generation_idempotent<S: SetSplitStrategie>(
    a: GeneratedSets,
    b: GeneratedSets,
    st: S,
    files: Seq<ResourceFileView>,
    module_name: Seq<char>,
    fn_name: Seq<char>,
)
    requires
        sets_output_matches(a, st, files, module_name, fn_name),
        sets_output_matches(b, st, files, module_name, fn_name),
    ensures
        a.module_name@ == b.module_name@,
        a.generated_file@ == b.generated_file@,
        a.module_file matches Some(ma) && b.module_file matches Some(mb) && ma@ == mb@,
        a.set_files@.len() == b.set_files@.len(),
        forall|i: int|
            0 <= i < a.set_files@.len() ==> (#[trigger] a.set_files@[i])@ == (b.set_files@[i])@,
{
}

/// The generated source tree of one split run, ready to be written out: the
/// top-level file, the aggregating unit, and one file per sub-unit, in
/// ordinal order.
#[derive(Debug)]
pub struct GeneratedSets {
    pub module_name: String,
    pub generated_file: String,
    pub module_file: Option<String>,
    pub set_files: Vec<String>,
}

/// Starts the text of one sub-unit file: its insertion function's preamble.
pub fn create_set_module_file() -> (s: String)
    ensures
        s@ == set_module_header_text(),
{
    String::from_str(
        "use super::*;\npub(crate) fn generate(r: &mut HashMap<&'static str, Resource>) {\n",
    )
}

/// Generates the whole split source tree for `resources`, breaking them into
/// sub-units as `set_split_strategie` directs. With no resources at all, no
/// sub-unit is emitted and the top-level file returns an empty index instead.
pub fn generate_resources_sets<S: SetSplitStrategie>(
    resources: &Vec<ResourceFile>,
    module_name: &str,
    fn_name: &str,
    set_split_strategie: &mut S,
) -> (r: GeneratedSets)
    ensures
        r.module_name@ == module_name@,
        resources@.len() == 0 ==> {
            &&& r.generated_file@ == empty_index_file_text(fn_name@)
            &&& r.module_file is None
            &&& r.set_files@.len() == 0
            &&& *final(set_split_strategie) == *old(set_split_strategie)
        },
        resources@.len() > 0 ==> {
            &&& sets_output_matches(
                r,
                *old(set_split_strategie),
                views_of(resources@),
                module_name@,
                fn_name@,
            )
            &&& *final(set_split_strategie) == strategy_after(
                *old(set_split_strategie),
                views_of(resources@),
            )
        },
{
    let ghost vs = views_of(resources@);
    let ghost st0 = *set_split_strategie;
    let ghost all_chunks = strategy_chunks_from(st0, Seq::<ResourceFileView>::empty(), vs);
    if resources.len() == 0 {
        let mut generated_file = String::new();
        generate_function_header(&mut generated_file, fn_name);
        generate_variable_header(&mut generated_file, DEFAULT_VARIABLE_NAME);
        generate_variable_return(&mut generated_file, DEFAULT_VARIABLE_NAME);
        generate_function_end(&mut generated_file);
        proof {
            assert(generated_file@ =~= empty_index_file_text(fn_name@));
        }
        return GeneratedSets {
            module_name: String::from_str(module_name),
            generated_file,
            module_file: None,
            set_files: Vec::new(),
        };
    }
    let mut set_files: Vec<String> = Vec::new();
    let ghost mut done: Seq<Seq<ResourceFileView>> = Seq::empty();
    let mut current = create_set_module_file();
    let ghost mut cur_files: Seq<ResourceFileView> = Seq::empty();
    let mut i: usize = 0;
    proof {
        assert(resource_inserts_text("r"@, cur_files) =~= Seq::<char>::empty());
        assert(current@ =~= set_module_header_text() + resource_inserts_text("r"@, cur_files));
        assert(vs.skip(0) =~= vs);
        assert(done + strategy_chunks_from(st0, cur_files, vs) =~= all_chunks);
    }
    while i < resources.len()
        invariant
            i <= resources@.len(),
            vs == views_of(resources@),
            vs.len() == resources@.len(),
            all_chunks == strategy_chunks_from(st0, Seq::<ResourceFileView>::empty(), vs),
            set_files@.len() == done.len(),
            forall|j: int|
                0 <= j < done.len() ==> (#[trigger] set_files@[j])@ == set_module_text(done[j]),
            current@ == set_module_header_text() + resource_inserts_text("r"@, cur_files),
            done + strategy_chunks_from(*set_split_strategie, cur_files, vs.skip(i as int))
                == all_chunks,
            strategy_after(*set_split_strategie, vs.skip(i as int)) == strategy_after(st0, vs),
        decreases resources@.len() - i,
    {
        let ghost st_here = *set_split_strategie;
        let ghost rem = vs.skip(i as int);
        let ghost done_before = done;
        let ghost cur_before = cur_files;
        proof {
            assert(rem[0] == vs[i as int]);
            assert(rem.drop_first() =~= vs.skip(i as int + 1));
            assert(vs[i as int] == resources@[i as int]@);
        }
        if set_split_strategie.should_split() {
            set_split_strategie.reset();
            generate_function_end(&mut current);
            proof {
                assert(current@ =~= set_module_text(cur_files));
            }
            set_files.push(current);
            current = create_set_module_file();
            proof {
                done = done.push(cur_files);
                cur_files = Seq::empty();
                assert(resource_inserts_text("r"@, cur_files) =~= Seq::<char>::empty());
                assert(current@ =~= set_module_header_text() + resource_inserts_text(
                    "r"@,
                    cur_files,
                ));
            }
        }
        set_split_strategie.register(&resources[i]);
        generate_resource_insert(&mut current, DEFAULT_VARIABLE_NAME, &resources[i]);
        proof {
            assert(DEFAULT_VARIABLE_NAME@ == "r"@);
            let pushed = cur_files.push(rem[0]);
            assert(pushed.drop_last() =~= cur_files);
            assert(pushed.last() == rem[0]);
            assert(resource_inserts_text("r"@, pushed) == resource_inserts_text("r"@, cur_files)
                + resource_insert_text("r"@, rem[0]));
            cur_files = pushed;
            assert(current@ == set_module_header_text() + resource_inserts_text("r"@, cur_files));
            if st_here.should_split_spec() {
                assert(cur_files =~= seq![rem[0]]);
                assert(strategy_chunks_from(st_here, cur_before, rem) == seq![cur_before]
                    + strategy_chunks_from(*set_split_strategie, cur_files, rem.drop_first()));
                assert(done + strategy_chunks_from(
                    *set_split_strategie,
                    cur_files,
                    rem.drop_first(),
                ) =~= done_before + strategy_chunks_from(st_here, cur_before, rem));
            } else {
                assert(strategy_chunks_from(st_here, cur_before, rem) == strategy_chunks_from(
                    *set_split_strategie,
                    cur_files,
                    rem.drop_first(),
                ));
            }
        }
        i += 1;
    }
    generate_function_end(&mut current);
    proof {
        assert(vs.skip(vs.len() as int) =~= Seq::<ResourceFileView>::empty());
        assert(current@ =~= set_module_text(cur_files));
        assert(strategy_chunks_from(*set_split_strategie, cur_files, Seq::empty())
            == seq![cur_files]);
        assert(*set_split_strategie == strategy_after(st0, vs));
    }
    set_files.push(current);
    proof {
        done = done.push(cur_files);
        assert(done =~= all_chunks);
    }
    let k = set_files.len();
    let mut module_file = String::new();
    generate_uses(&mut module_file);
    module_file.append("\nuse ::static_files::Resource;\nuse ::std::collections::HashMap;\n");
    let mut ordinal: usize = 0;
    proof {
        assert(set_decls_text(0) =~= Seq::<char>::empty());
        assert(module_file@ =~= module_uses_text() + set_decls_text(0));
    }
    while ordinal < k
        invariant
            ordinal <= k,
            module_file@ == module_uses_text() + set_decls_text(ordinal as nat),
        decreases k - ordinal,
    {
        ordinal += 1;
        module_file.append("mod set_");
        append_dec(&mut module_file, ordinal as u64);
        module_file.append(";\n");
        proof {
            assert(module_file@ =~= module_uses_text() + set_decls_text(ordinal as nat));
        }
    }
    generate_function_header(&mut module_file, fn_name);
    generate_variable_header(&mut module_file, DEFAULT_VARIABLE_NAME);
    let ghost before_calls = module_file@;
    let mut ordinal2: usize = 0;
    proof {
        assert(set_calls_text(0) =~= Seq::<char>::empty());
        assert(module_file@ =~= before_calls + set_calls_text(0));
    }
    while ordinal2 < k
        invariant
            ordinal2 <= k,
            module_file@ == before_calls + set_calls_text(ordinal2 as nat),
        decreases k - ordinal2,
    {
        ordinal2 += 1;
        module_file.append("set_");
        append_dec(&mut module_file, ordinal2 as u64);
        module_file.append("::generate(&mut r);\n");
        proof {
            assert(module_file@ =~= before_calls + set_calls_text(ordinal2 as nat));
        }
    }
    generate_variable_return(&mut module_file, DEFAULT_VARIABLE_NAME);
    generate_function_end(&mut module_file);
    proof {
        assert(module_file@ =~= sets_module_file_text(k as nat, fn_name@));
    }
    let mut generated_file = String::from_str("mod ");
    generated_file.append(module_name);
    generated_file.append(";\npub use ");
    generated_file.append(module_name);
    generated_file.append("::");
    generated_file.append(fn_name);
    generated_file.append(";\n");
    proof {
        assert(generated_file@ =~= sets_generated_file_text(module_name@, fn_name@));
    }
    GeneratedSets {
        module_name: String::from_str(module_name),
        generated_file,
        module_file: Some(module_file),
        set_files,
    }
}

} // verus!
