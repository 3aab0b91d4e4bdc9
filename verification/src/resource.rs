//! Resource definition, directory-tree discovery, and single module based
//! generation.

use vstd::prelude::*;

use crate::mime::{extension_of, guess_mime, mime_for, path_extension};
use crate::text::{append_dec, append_quoted, dec_of, lemma_seq_le_total, lemma_seq_le_trans, quoted, seq_le, str_le};

verus! {

/// One embedded static file as it exists at run time: its raw bytes,
/// its modification time in seconds since the epoch, and its media type.
pub struct Resource {
    pub data: &'static [u8],
    pub modified: u64,
    pub mime_type: &'static str,
}

/// Used internally in generated functions.
pub fn new_resource(data: &'static [u8], modified: u64, mime_type: &'static str) -> (r: Resource)
    ensures
        r.data == data,
        r.modified == modified,
        r.mime_type == mime_type,
{
    Resource { data, modified, mime_type }
}

pub(crate) const DEFAULT_VARIABLE_NAME: &'static str = "r";

/// One discovered file: its logical path (forward-slash separated, relative
/// to the discovery root), the path under which its bytes can be read, and
/// its modification time in seconds since the epoch (0 if unavailable).
#[derive(Debug)]
pub struct ResourceFile {
    pub url: String,
    pub path: String,
    pub modified: u64,
}

/// The mathematical content of a `ResourceFile`.
pub struct ResourceFileView {
    pub url: Seq<char>,
    pub path: Seq<char>,
    pub modified: u64,
}

impl View for ResourceFile {
    type V = ResourceFileView;

    open spec fn view(&self) -> ResourceFileView {
        ResourceFileView { url: self.url@, path: self.path@, modified: self.modified }
    }
}

/// One entry of an in-memory directory listing, as handed over by the caller
/// that reads the filesystem. `excluded` marks entries rejected by the
/// caller's filter: they are not emitted, and an excluded directory is not
/// descended into.
pub enum FsEntry {
    File { name: String, path: String, modified: u64, excluded: bool },
    Dir { name: String, entries: Vec<FsEntry>, excluded: bool },
}

/// The discovered files of a single entry, in traversal order: a kept file
/// yields itself; a kept directory is expanded in place, depth first.
pub open spec fn files_of_entry(prefix: Seq<char>, e: FsEntry) -> Seq<ResourceFileView>
    decreases e,
{
    match e {
        FsEntry::File { name, path, modified, excluded } => {
            if excluded {
                Seq::empty()
            } else {
                seq![ResourceFileView { url: prefix + name@, path: path@, modified }]
            }
        },
        FsEntry::Dir { name, entries, excluded } => {
            if excluded {
                Seq::empty()
            } else {
                files_of_entries(prefix + name@ + "/"@, entries@)
            }
        },
    }
}

/// The discovered files of a listing, in listing order.
pub open spec fn files_of_entries(prefix: Seq<char>, es: Seq<FsEntry>) -> Seq<ResourceFileView>
    decreases es,
{
    if es.len() == 0 {
        Seq::empty()
    } else {
        files_of_entry(prefix, es[0]) + files_of_entries(prefix, es.drop_first())
    }
}

/// The number of nodes of an entry, used as a termination measure for the
/// worklist traversal.
pub open spec fn size_of_entry(e: FsEntry) -> nat
    decreases e,
{
    match e {
        FsEntry::File { .. } => 1,
        FsEntry::Dir { entries, .. } => 1 + size_of_entries(entries@),
    }
}

pub open spec fn size_of_entries(es: Seq<FsEntry>) -> nat
    decreases es,
{
    if es.len() == 0 {
        0nat
    } else {
        size_of_entry(es[0]) + size_of_entries(es.drop_first())
    }
}

/// One suspended directory during traversal: the logical prefix of its
/// entries and the entries not yet visited.
struct Frame {
    prefix: String,
    entries: Vec<FsEntry>,
}

spec fn frame_rem(f: Frame) -> Seq<ResourceFileView> {
    files_of_entries(f.prefix@, f.entries@)
}

spec fn stack_rem(s: Seq<Frame>) -> Seq<ResourceFileView>
    decreases s.len(),
{
    if s.len() == 0 {
        Seq::empty()
    } else {
        frame_rem(s.last()) + stack_rem(s.drop_last())
    }
}

spec fn stack_size(s: Seq<Frame>) -> nat
    decreases s.len(),
{
    if s.len() == 0 {
        0nat
    } else {
        size_of_entries(s.last().entries@) + stack_size(s.drop_last())
    }
}

pub open spec fn views_of(files: Seq<ResourceFile>) -> Seq<ResourceFileView> {
    files.map_values(|f: ResourceFile| f@)
}

proof fn lemma_stack_push(s: Seq<Frame>, f: Frame)
    ensures
        stack_rem(s.push(f)) == frame_rem(f) + stack_rem(s),
        stack_size(s.push(f)) == size_of_entries(f.entries@) + stack_size(s),
{
    assert(s.push(f).last() == f);
    assert(s.push(f).drop_last() =~= s);
}

/// Walks the given listing of the discovery root with an explicit worklist of
/// suspended directories: a directory encountered mid-listing is expanded
/// before its later siblings. Logical paths join the directory names on the
/// way down with forward slashes. Entries marked excluded are skipped, and
/// excluded directories are not descended into.
pub fn collect_resources(entries: Vec<FsEntry>) -> (r: Vec<ResourceFile>)
    ensures
        views_of(r@) == files_of_entries(Seq::<char>::empty(), entries@),
{
    let ghost all = files_of_entries(Seq::<char>::empty(), entries@);
    let mut out: Vec<ResourceFile> = Vec::new();
    let mut stack: Vec<Frame> = Vec::new();
    let ghost empty_stack = stack@;
    stack.push(Frame { prefix: String::new(), entries });
    proof {
        lemma_stack_push(empty_stack, stack@.last());
        assert(views_of(out@) + stack_rem(stack@) =~= all);
    }
    while stack.len() > 0
        invariant
            views_of(out@) + stack_rem(stack@) == all,
        decreases stack_size(stack@), stack@.len(),
    {
        let ghost old_out = out@;
        let ghost old_stack = stack@;
        let ghost rest = old_stack.drop_last();
        let ghost top0 = old_stack.last();
        proof {
            assert(old_stack =~= rest.push(top0));
            lemma_stack_push(rest, top0);
        }
        let mut frame = stack.pop().unwrap();
        if frame.entries.len() == 0 {
            proof {
                assert(frame_rem(top0) =~= Seq::<ResourceFileView>::empty());
                assert(views_of(out@) + stack_rem(stack@) =~= all);
                assert(stack_size(stack@) == stack_size(old_stack));
            }
        } else {
            let ghost old_entries = frame.entries@;
            let ghost p = frame.prefix@;
            let e = frame.entries.remove(0);
            proof {
                assert(e == old_entries[0]);
                assert(frame.entries@ =~= old_entries.drop_first());
                assert(frame_rem(top0) == files_of_entry(p, e) + files_of_entries(
                    p,
                    old_entries.drop_first(),
                ));
                assert(size_of_entries(old_entries) == size_of_entry(e) + size_of_entries(
                    old_entries.drop_first(),
                ));
            }
            match e {
                FsEntry::File { name, path, modified, excluded } => {
                    if !excluded {
                        let mut url = frame.prefix.clone();
                        url.append(name.as_str());
                        let rf = ResourceFile { url, path, modified };
                        proof {
                            assert(rf@ == ResourceFileView {
                                url: p + name@,
                                path: path@,
                                modified,
                            });
                        }
                        out.push(rf);
                        proof {
                            assert(views_of(out@) =~= views_of(old_out).push(rf@));
                        }
                    }
                    let ghost new_top = frame;
                    stack.push(frame);
                    proof {
                        lemma_stack_push(rest, new_top);
                        assert(stack@ =~= rest.push(new_top));
                        assert(views_of(out@) + stack_rem(stack@) =~= all);
                        assert(stack_size(stack@) < stack_size(old_stack));
                    }
                },
                FsEntry::Dir { name, entries: children, excluded } => {
                    if !excluded {
                        let mut child_prefix = frame.prefix.clone();
                        child_prefix.append(name.as_str());
                        child_prefix.append("/");
                        let ghost parent = frame;
                        stack.push(frame);
                        let child = Frame { prefix: child_prefix, entries: children };
                        let ghost mid_stack = stack@;
                        stack.push(child);
                        proof {
                            lemma_stack_push(rest, parent);
                            lemma_stack_push(mid_stack, child);
                            assert(mid_stack =~= rest.push(parent));
                            assert(stack@ =~= mid_stack.push(child));
                            assert(frame_rem(child) == files_of_entry(p, e));
                            assert(views_of(out@) + stack_rem(stack@) =~= all);
                            assert(stack_size(stack@) < stack_size(old_stack));
                        }
                    } else {
                        let ghost new_top = frame;
                        stack.push(frame);
                        proof {
                            lemma_stack_push(rest, new_top);
                            assert(stack@ =~= rest.push(new_top));
                            assert(files_of_entry(p, e) =~= Seq::<ResourceFileView>::empty());
                            assert(views_of(out@) + stack_rem(stack@) =~= all);
                            assert(stack_size(stack@) < stack_size(old_stack));
                        }
                    }
                },
            }
        }
    }
    proof {
        assert(views_of(out@) =~= all);
    }
    out
}

/// The discovered files stand in ascending order of logical path.
pub open spec fn urls_sorted(files: Seq<ResourceFileView>) -> bool {
    forall|i: int, j: int|
        0 <= i <= j < files.len() ==> seq_le((#[trigger] files[i]).url, (#[trigger] files[j]).url)
}

/// Where `url` belongs in a url-sorted list: right after everything that
/// sorts no later than it.
fn insert_position(out: &Vec<ResourceFile>, url: &str) -> (p: usize)
    ensures
        p <= out@.len(),
        forall|j: int| 0 <= j < p ==> seq_le((#[trigger] out@[j])@.url, url@),
        p < out@.len() ==> !seq_le(out@[p as int]@.url, url@),
{
    let mut p: usize = 0;
    while p < out.len()
        invariant_except_break
            p <= out@.len(),
            forall|j: int| 0 <= j < p ==> seq_le((#[trigger] out@[j])@.url, url@),
        ensures
            p <= out@.len(),
            forall|j: int| 0 <= j < p ==> seq_le((#[trigger] out@[j])@.url, url@),
            p < out@.len() ==> !seq_le(out@[p as int]@.url, url@),
        decreases out@.len() - p,
    {
        if str_le(out[p].url.as_str(), url) {
            p += 1;
        } else {
            break;
        }
    }
    p
}

/// The optional sort post-pass: buffers the whole discovered set and orders
/// it by logical path, so that generation no longer depends on the
/// filesystem's iteration order. The result holds exactly the given
/// resources.
pub fn sort_resources(resources: Vec<ResourceFile>) -> (r: Vec<ResourceFile>)
    ensures
        urls_sorted(views_of(r@)),
        views_of(r@).to_multiset() == views_of(resources@).to_multiset(),
{
    let ghost ins = views_of(resources@);
    let mut rem = resources;
    let mut out: Vec<ResourceFile> = Vec::new();
    proof {
        broadcast use vstd::seq_lib::group_to_multiset_ensures;

        assert(views_of(out@) =~= Seq::<ResourceFileView>::empty());
        assert(views_of(out@).to_multiset().add(views_of(rem@).to_multiset())
            =~= ins.to_multiset());
    }
    while rem.len() > 0
        invariant
            ins == views_of(resources@),
            urls_sorted(views_of(out@)),
            views_of(out@).to_multiset().add(views_of(rem@).to_multiset()) == ins.to_multiset(),
        decreases rem@.len(),
    {
        let ghost old_out = views_of(out@);
        let ghost old_rem = views_of(rem@);
        let x = rem.remove(0);
        let p = insert_position(&out, x.url.as_str());
        out.insert(p, x);
        proof {
            broadcast use vstd::seq_lib::group_to_multiset_ensures;

            let vo = views_of(out@);
            let vr = views_of(rem@);
            // One element moved from the front of `rem` to position `p` of `out`.
            assert(vr =~= old_rem.remove(0));
            assert(old_rem[0] == x@);
            assert(vo =~= old_out.insert(p as int, x@));
            assert(vo.remove(p as int) =~= old_out);
            assert(vo[p as int] == x@);
            assert(vo.contains(x@));
            assert(old_rem.contains(x@));
            assert(old_out.to_multiset() =~= vo.to_multiset().remove(x@));
            assert(vr.to_multiset() =~= old_rem.to_multiset().remove(x@));
            assert(vo.to_multiset().count(x@) > 0);
            assert(old_rem.to_multiset().count(x@) > 0);
            assert(vo.to_multiset().add(vr.to_multiset()) =~= old_out.to_multiset().add(
                old_rem.to_multiset(),
            ));
            // The new element sits between what sorts before it and the rest.
            assert forall|i: int, j: int| 0 <= i <= j < vo.len() implies seq_le(
                (#[trigger] vo[i]).url,
                (#[trigger] vo[j]).url,
            ) by {
                let pi = p as int;
                if i == pi && j == pi {
                    lemma_seq_le_total(x@.url, x@.url);
                } else if i < pi && j == pi {
                    assert(vo[i] == old_out[i]);
                } else if i == pi && j > pi {
                    assert(vo[j] == old_out[j - 1]);
                    assert(!seq_le(old_out[pi].url, x@.url));
                    lemma_seq_le_total(old_out[pi].url, x@.url);
                    assert(seq_le(old_out[pi].url, old_out[j - 1].url));
                    lemma_seq_le_trans(x@.url, old_out[pi].url, old_out[j - 1].url);
                } else if i < pi && j > pi {
                    assert(vo[i] == old_out[i]);
                    assert(vo[j] == old_out[j - 1]);
                } else if j < pi {
                    assert(vo[i] == old_out[i]);
                    assert(vo[j] == old_out[j]);
                } else {
                    assert(vo[i] == old_out[i - 1]);
                    assert(vo[j] == old_out[j - 1]);
                }
            }
        }
    }
    proof {
        assert(views_of(rem@) =~= Seq::<ResourceFileView>::empty());
        assert(views_of(out@).to_multiset().add(views_of(rem@).to_multiset())
            =~= views_of(out@).to_multiset());
    }
    out
}

pub open spec fn no_slash(s: Seq<char>) -> bool {
    forall|i: int| 0 <= i < s.len() ==> s[i] != '/'
}

pub open spec fn entry_name(e: FsEntry) -> Seq<char> {
    match e {
        FsEntry::File { name, .. } => name@,
        FsEntry::Dir { name, .. } => name@,
    }
}

/// A listing as a real filesystem hands it over: every name is nonempty and
/// free of separators, no two siblings share a name, and the same holds all
/// the way down.
pub open spec fn wf_entry(e: FsEntry) -> bool
    decreases e,
{
    match e {
        FsEntry::File { name, .. } => name@.len() > 0 && no_slash(name@),
        FsEntry::Dir { name, entries, .. } => name@.len() > 0 && no_slash(name@) && wf_entries(
            entries@,
        ),
    }
}

pub open spec fn wf_entries(es: Seq<FsEntry>) -> bool
    decreases es,
{
    &&& (forall|i: int| 0 <= i < es.len() ==> wf_entry(#[trigger] es[i]))
    &&& (forall|i: int, j: int|
        0 <= i < j < es.len() ==> entry_name(#[trigger] es[i]) != entry_name(#[trigger] es[j]))
}

/// `u` is `prefix`, then `name`, then either nothing or a separator and more.
pub open spec fn url_shape(u: Seq<char>, prefix: Seq<char>, name: Seq<char>) -> bool {
    let n = prefix.len() + name.len();
    &&& u.len() >= n
    &&& u.subrange(0, n as int) == prefix + name
    &&& (u.len() == n || u[n as int] == '/')
}

/// Every discovered logical path extends the prefix it was discovered under.
proof fn lemma_entry_urls_extend(prefix: Seq<char>, e: FsEntry, k: int)
    requires
        0 <= k < files_of_entry(prefix, e).len(),
    ensures
        ({
            let u = files_of_entry(prefix, e)[k].url;
            u.len() >= prefix.len() && u.subrange(0, prefix.len() as int) == prefix
        }),
    decreases e,
{
    let u = files_of_entry(prefix, e)[k].url;
    match e {
        FsEntry::File { name, .. } => {
            assert(u == prefix + name@);
            assert(u.subrange(0, prefix.len() as int) =~= prefix);
        },
        FsEntry::Dir { name, entries, .. } => {
            let p2 = prefix + name@ + "/"@;
            lemma_entries_urls_extend(p2, entries@, k);
            assert(u.subrange(0, prefix.len() as int) =~= u.subrange(0, p2.len() as int).subrange(
                0,
                prefix.len() as int,
            ));
            assert(p2.subrange(0, prefix.len() as int) =~= prefix);
        },
    }
}

proof fn lemma_entries_urls_extend(prefix: Seq<char>, es: Seq<FsEntry>, k: int)
    requires
        0 <= k < files_of_entries(prefix, es).len(),
    ensures
        ({
            let u = files_of_entries(prefix, es)[k].url;
            u.len() >= prefix.len() && u.subrange(0, prefix.len() as int) == prefix
        }),
    decreases es,
{
    let l0 = files_of_entry(prefix, es[0]).len() as int;
    if k < l0 {
        lemma_entry_urls_extend(prefix, es[0], k);
    } else {
        lemma_entries_urls_extend(prefix, es.drop_first(), k - l0);
    }
}

/// Every logical path discovered inside one entry carries that entry's name
/// right after the prefix.
proof fn lemma_entry_url_shape(prefix: Seq<char>, e: FsEntry, k: int)
    requires
        0 <= k < files_of_entry(prefix, e).len(),
    ensures
        url_shape(files_of_entry(prefix, e)[k].url, prefix, entry_name(e)),
    decreases e,
{
    let u = files_of_entry(prefix, e)[k].url;
    let name = entry_name(e);
    let n = (prefix.len() + name.len()) as int;
    match e {
        FsEntry::File { .. } => {
            assert(u == prefix + name);
            assert(u.subrange(0, n) =~= prefix + name);
        },
        FsEntry::Dir { entries, .. } => {
            let p2 = prefix + name + "/"@;
            lemma_entries_urls_extend(p2, entries@, k);
            reveal_strlit("/");
            assert(p2.len() == n + 1);
            assert(u.subrange(0, n) =~= u.subrange(0, p2.len() as int).subrange(0, n));
            assert(p2.subrange(0, n) =~= prefix + name);
            assert(u[n] == u.subrange(0, p2.len() as int)[n]);
            assert(p2[n] == '/');
        },
    }
}

/// One logical path names the entry it came from: two slash-free names that
/// both fit the same path right after the same prefix are the same name.
proof fn lemma_shape_determines_name(u: Seq<char>, prefix: Seq<char>, a: Seq<char>, b: Seq<char>)
    requires
        url_shape(u, prefix, a),
        url_shape(u, prefix, b),
        no_slash(a),
        no_slash(b),
    ensures
        a == b,
{
    let p = prefix.len() as int;
    let na = (prefix.len() + a.len()) as int;
    let nb = (prefix.len() + b.len()) as int;
    if a.len() < b.len() {
        assert(u.len() >= nb > na);
        assert(u[na] == '/');
        assert(b[a.len() as int] == (prefix + b)[na]);
        assert((prefix + b)[na] == u.subrange(0, nb)[na]);
        assert(b[a.len() as int] == '/');
        assert(false);
    } else if b.len() < a.len() {
        assert(u.len() >= na > nb);
        assert(u[nb] == '/');
        assert(a[b.len() as int] == (prefix + a)[nb]);
        assert((prefix + a)[nb] == u.subrange(0, na)[nb]);
        assert(a[b.len() as int] == '/');
        assert(false);
    } else {
        assert forall|i: int| 0 <= i < a.len() implies a[i] == b[i] by {
            assert(a[i] == (prefix + a)[p + i]);
            assert(b[i] == (prefix + b)[p + i]);
            assert((prefix + a)[p + i] == u.subrange(0, na)[p + i]);
            assert((prefix + b)[p + i] == u.subrange(0, nb)[p + i]);
        }
        assert(a =~= b);
    }
}

/// Every discovered logical path of a listing carries the name of one of the
/// listing's entries right after the prefix.
proof fn lemma_url_from_some_entry(prefix: Seq<char>, es: Seq<FsEntry>, k: int)
    requires
        0 <= k < files_of_entries(prefix, es).len(),
    ensures
        exists|i: int|
            0 <= i < es.len() && #[trigger] url_shape(
                files_of_entries(prefix, es)[k].url,
                prefix,
                entry_name(es[i]),
            ),
    decreases es,
{
    let fs = files_of_entries(prefix, es);
    let l0 = files_of_entry(prefix, es[0]).len() as int;
    if k < l0 {
        lemma_entry_url_shape(prefix, es[0], k);
        assert(url_shape(fs[k].url, prefix, entry_name(es[0])));
    } else {
        lemma_url_from_some_entry(prefix, es.drop_first(), k - l0);
        let rest = files_of_entries(prefix, es.drop_first());
        let w = choose|i: int|
            0 <= i < es.drop_first().len() && #[trigger] url_shape(
                rest[k - l0].url,
                prefix,
                entry_name(es.drop_first()[i]),
            );
        assert(es.drop_first()[w] == es[w + 1]);
        assert(url_shape(fs[k].url, prefix, entry_name(es[w + 1])));
    }
}

/// No two files discovered inside one well-formed entry share a logical path.
proof fn lemma_entry_urls_unique(prefix: Seq<char>, e: FsEntry, i: int, j: int)
    requires
        wf_entry(e),
        0 <= i < j < files_of_entry(prefix, e).len(),
    ensures
        files_of_entry(prefix, e)[i].url != files_of_entry(prefix, e)[j].url,
    decreases e,
{
    match e {
        FsEntry::File { .. } => {},
        FsEntry::Dir { name, entries, .. } => {
            lemma_entries_urls_unique(prefix + name@ + "/"@, entries@, i, j);
        },
    }
}

/// Discovery emits each logical path once: over a listing as a real
/// filesystem hands it over (names nonempty, free of separators, unique among
/// siblings), no two discovered files share a logical path.
pub proof fn lemma_logical_paths_unique(prefix: Seq<char>, es: Seq<FsEntry>)
    requires
        wf_entries(es),
    ensures
        forall|i: int, j: int|
            0 <= i < j < files_of_entries(prefix, es).len() ==> (#[trigger] files_of_entries(
                prefix,
                es,
            )[i]).url != (#[trigger] files_of_entries(prefix, es)[j]).url,
{
    assert forall|i: int, j: int|
        0 <= i < j < files_of_entries(prefix, es).len() implies (#[trigger] files_of_entries(
        prefix,
        es,
    )[i]).url != (#[trigger] files_of_entries(prefix, es)[j]).url by {
        lemma_entries_urls_unique(prefix, es, i, j);
    }
}

proof fn lemma_entries_urls_unique(prefix: Seq<char>, es: Seq<FsEntry>, i: int, j: int)
    requires
        wf_entries(es),
        0 <= i < j < files_of_entries(prefix, es).len(),
    ensures
        files_of_entries(prefix, es)[i].url != files_of_entries(prefix, es)[j].url,
    decreases es,
{
    let fs = files_of_entries(prefix, es);
    let l0 = files_of_entry(prefix, es[0]).len() as int;
    let rest = files_of_entries(prefix, es.drop_first());
    if j < l0 {
        lemma_entry_urls_unique(prefix, es[0], i, j);
    } else if i >= l0 {
        assert(wf_entries(es.drop_first())) by {
            assert(forall|x: int|
                0 <= x < es.drop_first().len() ==> #[trigger] es.drop_first()[x] == es[x + 1]);
        }
        lemma_entries_urls_unique(prefix, es.drop_first(), i - l0, j - l0);
    } else {
        // `i` lies in the first entry, `j` in a later one: the two paths carry
        // different sibling names right after the prefix.
        lemma_entry_url_shape(prefix, es[0], i);
        lemma_url_from_some_entry(prefix, es.drop_first(), j - l0);
        let w = choose|x: int|
            0 <= x < es.drop_first().len() && #[trigger] url_shape(
                rest[j - l0].url,
                prefix,
                entry_name(es.drop_first()[x]),
            );
        assert(es.drop_first()[w] == es[w + 1]);
        assert(entry_name(es[0]) != entry_name(es[w + 1]));
        if fs[i].url == fs[j].url {
            lemma_shape_determines_name(
                fs[i].url,
                prefix,
                entry_name(es[0]),
                entry_name(es[w + 1]),
            );
        }
    }
}

/// The emitted header of a generated construction function.
pub open spec fn function_header_text(fn_name: Seq<char>) -> Seq<char> {
    "#[allow(clippy::unreadable_literal)] pub fn "@ + fn_name
        + "() -> ::std::collections::HashMap<&'static str, ::static_files::Resource> {\n"@
}

pub open spec fn function_end_text() -> Seq<char> {
    "}\n"@
}

/// The emitted imports that generated construction code relies on.
pub open spec fn uses_text() -> Seq<char> {
    "use ::static_files::resource::new_resource as n;\nuse ::std::include_bytes as i;\n"@
}

pub open spec fn variable_header_text(variable_name: Seq<char>) -> Seq<char> {
    "let mut "@ + variable_name + " = ::std::collections::HashMap::new();\n"@
}

pub open spec fn variable_return_text(variable_name: Seq<char>) -> Seq<char> {
    variable_name + "\n"@
}

/// The emitted insertion statement for one discovered file: its logical path
/// as the key, and a resource built from the embedded bytes, the modification
/// time, and the looked-up media type.
pub open spec fn resource_insert_text(variable_name: Seq<char>, f: ResourceFileView) -> Seq<char> {
    variable_name + ".insert("@ + quoted(f.url) + ",n(i!("@ + quoted(f.path) + "),"@ + dec_of(
        f.modified as nat,
    ) + ","@ + quoted(mime_for(extension_of(f.path))) + "));\n"@
}

/// The emitted insertion statements for a whole resource list, in order.
pub open spec fn resource_inserts_text(
    variable_name: Seq<char>,
    files: Seq<ResourceFileView>,
) -> Seq<char>
    decreases files.len(),
{
    if files.len() == 0 {
        Seq::empty()
    } else {
        resource_inserts_text(variable_name, files.drop_last()) + resource_insert_text(
            variable_name,
            files.last(),
        )
    }
}

/// The whole generated file of the single-module form: one public function
/// that builds and returns the index.
pub open spec fn resources_text(files: Seq<ResourceFileView>, fn_name: Seq<char>) -> Seq<char> {
    function_header_text(fn_name) + uses_text() + variable_header_text("r"@)
        + resource_inserts_text("r"@, files) + variable_return_text("r"@) + function_end_text()
}

/// The generated anonymous block of the mapping form: evaluates to the index.
pub open spec fn resources_mapping_text(files: Seq<ResourceFileView>) -> Seq<char> {
    "{\n"@ + uses_text() + variable_header_text("r"@) + resource_inserts_text("r"@, files)
        + variable_return_text("r"@) + "}\n"@
}

pub fn generate_function_header(f: &mut String, fn_name: &str)
    ensures
        final(f)@ == old(f)@ + function_header_text(fn_name@),
{
    f.append("#[allow(clippy::unreadable_literal)] pub fn ");
    f.append(fn_name);
    f.append("() -> ::std::collections::HashMap<&'static str, ::static_files::Resource> {\n");
}

pub fn generate_function_end(f: &mut String)
    ensures
        final(f)@ == old(f)@ + function_end_text(),
{
    f.append("}\n");
}

pub fn generate_uses(f: &mut String)
    ensures
        final(f)@ == old(f)@ + uses_text(),
{
    f.append("use ::static_files::resource::new_resource as n;\nuse ::std::include_bytes as i;\n");
}

pub fn generate_variable_header(f: &mut String, variable_name: &str)
    ensures
        final(f)@ == old(f)@ + variable_header_text(variable_name@),
{
    f.append("let mut ");
    f.append(variable_name);
    f.append(" = ::std::collections::HashMap::new();\n");
}

pub fn generate_variable_return(f: &mut String, variable_name: &str)
    ensures
        final(f)@ == old(f)@ + variable_return_text(variable_name@),
{
    f.append(variable_name);
    f.append("\n");
}

/// Appends the insertion statement of one resource, looking its media type
/// up from its path.
pub fn generate_resource_insert(f: &mut String, variable_name: &str, resource: &ResourceFile)
    ensures
        final(f)@ == old(f)@ + resource_insert_text(variable_name@, resource@),
{
    f.append(variable_name);
    f.append(".insert(");
    append_quoted(f, resource.url.as_str());
    f.append(",n(i!(");
    append_quoted(f, resource.path.as_str());
    f.append("),");
    append_dec(f, resource.modified);
    f.append(",");
    let ext = path_extension(resource.path.as_str());
    let mime = guess_mime(ext.as_str());
    append_quoted(f, mime.as_str());
    f.append("));\n");
    proof {
        assert(f@ =~= old(f)@ + resource_insert_text(variable_name@, resource@));
    }
}

/// Appends the insertion statements of all given resources, in order.
pub fn generate_resource_inserts(f: &mut String, variable_name: &str, resources: &Vec<ResourceFile>)
    ensures
        final(f)@ == old(f)@ + resource_inserts_text(variable_name@, views_of(resources@)),
{
    let ghost vs = views_of(resources@);
    let mut i: usize = 0;
    proof {
        assert(vs.subrange(0, 0) =~= Seq::<ResourceFileView>::empty());
        assert(f@ =~= old(f)@ + resource_inserts_text(variable_name@, vs.subrange(0, 0)));
    }
    while i < resources.len()
        invariant
            i <= resources.len(),
            vs == views_of(resources@),
            vs.len() == resources@.len(),
            f@ == old(f)@ + resource_inserts_text(variable_name@, vs.subrange(0, i as int)),
        decreases resources.len() - i,
    {
        generate_resource_insert(f, variable_name, &resources[i]);
        proof {
            assert(vs.subrange(0, i + 1).drop_last() =~= vs.subrange(0, i as int));
            assert(vs.subrange(0, i + 1).last() == resources@[i as int]@);
        }
        i += 1;
    }
    proof {
        assert(vs.subrange(0, resources@.len() as int) =~= vs);
    }
}

/// Generates the single-file form: one public function named `fn_name` that
/// builds the index and inserts every given resource in order.
pub fn generate_resources(resources: &Vec<ResourceFile>, fn_name: &str) -> (out: String)
    ensures
        out@ == resources_text(views_of(resources@), fn_name@),
{
    let mut out = String::new();
    generate_function_header(&mut out, fn_name);
    generate_uses(&mut out);
    generate_variable_header(&mut out, DEFAULT_VARIABLE_NAME);
    generate_resource_inserts(&mut out, DEFAULT_VARIABLE_NAME, resources);
    generate_variable_return(&mut out, DEFAULT_VARIABLE_NAME);
    generate_function_end(&mut out);
    proof {
        assert(DEFAULT_VARIABLE_NAME@ == "r"@);
        assert(out@ =~= resources_text(views_of(resources@), fn_name@));
    }
    out
}

/// Generates the mapping form: an anonymous block that evaluates to the
/// index, with every given resource inserted in order.
pub fn generate_resources_mapping(resources: &Vec<ResourceFile>) -> (out: String)
    ensures
        out@ == resources_mapping_text(views_of(resources@)),
{
    let mut out = String::new();
    out.append("{\n");
    generate_uses(&mut out);
    generate_variable_header(&mut out, DEFAULT_VARIABLE_NAME);
    generate_resource_inserts(&mut out, DEFAULT_VARIABLE_NAME, resources);
    generate_variable_return(&mut out, DEFAULT_VARIABLE_NAME);
    out.append("}\n");
    proof {
        assert(DEFAULT_VARIABLE_NAME@ == "r"@);
        assert(out@ =~= resources_mapping_text(views_of(resources@)));
    }
    out
}

} // verus!
