//! Media-type lookup for discovered files: the extension is carved out of
//! the path here, verified; only the table lookup itself comes from the
//! `mime_guess` crate.

use vstd::prelude::*;

verus! {

/// What the media-type lookup returns for an extension: the first table
/// entry, or `application/octet-stream` where the table has none (as for the
/// empty extension). The table is fixed, so the result is a function of the
/// extension's characters alone.
pub uninterp spec fn mime_for(ext: Seq<char>) -> Seq<char>;

/// Relies on `mime_guess::from_ext` and `MimeGuess::first_or_octet_stream`:
/// a best-guess media type for one file extension, looked up in a fixed
/// table.
#[verifier::external_body]
pub(crate) fn guess_mime(ext: &str) -> (m: String)
    ensures
        m@ == mime_for(ext@),
{
    mime_guess::from_ext(ext).first_or_octet_stream().to_string()
}

/// What follows the last occurrence of `c`, the whole of `s` if `c` does not
/// occur.
pub open spec fn suffix_after_last(s: Seq<char>, c: char) -> Seq<char>
    decreases s.len(),
{
    if s.len() == 0 {
        s
    } else if s.last() == c {
        Seq::empty()
    } else {
        suffix_after_last(s.drop_last(), c).push(s.last())
    }
}

/// The extension the media-type lookup keys on: what follows the last dot of
/// the path's last forward-slash component — empty when that component has
/// no dot past its first character, so that a bare dot-file has no
/// extension.
pub open spec fn extension_of(path: Seq<char>) -> Seq<char> {
    let f = suffix_after_last(path, '/');
    if exists|i: int| 1 <= i < f.len() && f[i] == '.' {
        suffix_after_last(f.skip(1), '.')
    } else {
        Seq::empty()
    }
}

/// After the last occurrence of `c` (at `k`) comes everything past `k`.
proof fn lemma_suffix_found(s: Seq<char>, c: char, k: int)
    requires
        0 <= k < s.len(),
        s[k] == c,
        forall|j: int| k < j < s.len() ==> s[j] != c,
    ensures
        suffix_after_last(s, c) == s.skip(k + 1),
    decreases s.len(),
{
    if k == s.len() - 1 {
        assert(s.skip(k + 1) =~= Seq::<char>::empty());
    } else {
        assert(s.drop_last()[k] == s[k]);
        lemma_suffix_found(s.drop_last(), c, k);
        assert(s.drop_last().skip(k + 1).push(s.last()) =~= s.skip(k + 1));
    }
}

/// Without any occurrence of `c`, nothing is cut off.
proof fn lemma_suffix_missing(s: Seq<char>, c: char)
    requires
        forall|j: int| 0 <= j < s.len() ==> s[j] != c,
    ensures
        suffix_after_last(s, c) == s,
    decreases s.len(),
{
    if s.len() > 0 {
        lemma_suffix_missing(s.drop_last(), c);
        assert(s.drop_last().push(s.last()) =~= s);
    }
}

/// Carves the extension out of a path, as `extension_of` describes it.
pub(crate) fn path_extension(path: &str) -> (e: String)
    ensures
        e@ == extension_of(path@),
{
    let n = path.unicode_len();
    let mut slash: usize = n;
    let mut i: usize = 0;
    while i < n
        invariant
            i <= n,
            n == path@.len(),
            slash == n || (slash < i && path@[slash as int] == '/'),
            forall|j: int| 0 <= j < i && (slash == n || slash < j) ==> path@[j] != '/',
        decreases n - i,
    {
        if path.get_char(i) == '/' {
            slash = i;
        }
        i += 1;
    }
    let fstart: usize = if slash == n {
        0
    } else {
        slash + 1
    };
    let ghost f = suffix_after_last(path@, '/');
    proof {
        if slash == n {
            lemma_suffix_missing(path@, '/');
        } else {
            lemma_suffix_found(path@, '/', slash as int);
        }
        assert(f =~= path@.skip(fstart as int));
    }
    let mut dot: usize = n;
    if fstart < n {
        let mut j: usize = fstart + 1;
        while j < n
            invariant
                fstart < n,
                fstart + 1 <= j <= n,
                n == path@.len(),
                dot == n || (fstart + 1 <= dot && dot < j && path@[dot as int] == '.'),
                forall|j2: int|
                    fstart + 1 <= j2 < j && (dot == n || dot < j2) ==> path@[j2] != '.',
            decreases n - j,
        {
            if path.get_char(j) == '.' {
                dot = j;
            }
            j += 1;
        }
    }
    if dot == n {
        proof {
            assert forall|i2: int| 1 <= i2 < f.len() implies f[i2] != '.' by {
                assert(f[i2] == path@[fstart + i2]);
            }
            assert(extension_of(path@) =~= Seq::<char>::empty());
        }
        String::new()
    } else {
        let ext = path.substring_char(dot + 1, n);
        proof {
            let tail = f.skip(1);
            let local = dot - fstart - 1;
            assert(tail =~= path@.skip(fstart + 1));
            assert(tail[local as int] == path@[dot as int]);
            assert forall|j2: int| local < j2 < tail.len() implies tail[j2] != '.' by {
                assert(tail[j2] == path@[fstart + 1 + j2]);
            }
            lemma_suffix_found(tail, '.', local as int);
            assert(f[(dot - fstart) as int] == '.');
            assert(tail.skip(local + 1) =~= path@.skip(dot + 1));
            assert(ext@ =~= path@.skip(dot + 1));
            assert(extension_of(path@) == path@.skip(dot + 1));
        }
        String::from_str(ext)
    }
}

} // verus!
