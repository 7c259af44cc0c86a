//! Verified string utilities: prefix tests, substring search, leftmost
//! non-overlapping replacement, newline trimming, and line folding.
//!
//! Every executable function here is specified against a small spec function
//! over `Seq<char>`; the extractor and renderer state their own contracts in
//! terms of those spec functions.

use vstd::prelude::*;

verus! {

/// The views of a sequence of strings, line by line.
pub open spec fn views(lines: Seq<String>) -> Seq<Seq<char>> {
    lines.map_values(|s: String| s@)
}

/// `p` is a prefix of `l`.
pub open spec fn has_prefix(l: Seq<char>, p: Seq<char>) -> bool {
    p.len() <= l.len() && l.subrange(0, p.len() as int) == p
}

/// `pat` occurs in `s` starting at position `i`.
pub open spec fn match_at(s: Seq<char>, pat: Seq<char>, i: int) -> bool {
    &&& 0 <= i
    &&& i + pat.len() <= s.len()
    &&& s.subrange(i, i + pat.len()) == pat
}

/// `pat` occurs somewhere in `s`.
pub open spec fn contains_spec(s: Seq<char>, pat: Seq<char>) -> bool {
    exists|i: int| match_at(s, pat, i)
}

/// Replaces every occurrence of `pat` in `s` by `val`, scanning left to
/// right and never re-examining replaced text.
pub open spec fn replace_spec(s: Seq<char>, pat: Seq<char>, val: Seq<char>) -> Seq<char>
    decreases s.len(),
    when pat.len() > 0
{
    if s.len() < pat.len() {
        s
    } else if s.subrange(0, pat.len() as int) == pat {
        val + replace_spec(s.skip(pat.len() as int), pat, val)
    } else {
        s.take(1) + replace_spec(s.skip(1), pat, val)
    }
}

/// Removes every trailing newline character.
pub open spec fn trim_newlines_spec(s: Seq<char>) -> Seq<char>
    decreases s.len(),
{
    if s.len() > 0 && s.last() == '\n' {
        trim_newlines_spec(s.drop_last())
    } else {
        s
    }
}

/// Joins lines with a newline separator; no terminator is added.
pub open spec fn fold_spec(lines: Seq<Seq<char>>) -> Seq<char>
    decreases lines.len(),
{
    if lines.len() == 0 {
        Seq::<char>::empty()
    } else if lines.len() == 1 {
        lines[0]
    } else {
        fold_spec(lines.drop_last()) + "\n"@ + lines.last()
    }
}

/// An occurrence in `b` is an occurrence in `a + b`.
pub proof fn lemma_contains_append_left(a: Seq<char>, b: Seq<char>, q: Seq<char>)
    requires
        contains_spec(b, q),
    ensures
        contains_spec(a + b, q),
{
    let m = choose|m: int| match_at(b, q, m);
    assert((a + b).subrange(a.len() + m, a.len() + m + q.len()) =~= b.subrange(m, m + q.len()));
    assert(match_at(a + b, q, a.len() + m));
}

/// Replacement copies a prefix untouched when the pattern matches nowhere
/// inside it.
pub proof fn lemma_replace_unmatched_prefix(s: Seq<char>, pat: Seq<char>, val: Seq<char>, k: int)
    requires
        pat.len() > 0,
        0 <= k <= s.len(),
        forall|j: int| 0 <= j < k ==> !match_at(s, pat, j),
    ensures
        replace_spec(s, pat, val) == s.take(k) + replace_spec(s.skip(k), pat, val),
    decreases k,
{
    if k == 0 {
        assert(s.skip(0) =~= s);
        assert(s.take(0) + replace_spec(s, pat, val) =~= replace_spec(s, pat, val));
    } else if s.len() < pat.len() {
        assert(s.skip(k).len() < pat.len());
        assert(s.take(k) + s.skip(k) =~= s);
    } else {
        assert(!match_at(s, pat, 0));
        assert(s.subrange(0, pat.len() as int) != pat);
        assert forall|j: int| 0 <= j < k - 1 implies !match_at(s.skip(1), pat, j) by {
            if match_at(s.skip(1), pat, j) {
                assert(s.subrange(j + 1, j + 1 + pat.len()) =~= s.skip(1).subrange(
                    j,
                    j + pat.len(),
                ));
                assert(match_at(s, pat, j + 1));
            }
        }
        lemma_replace_unmatched_prefix(s.skip(1), pat, val, k - 1);
        assert(s.take(1) + s.skip(1).take(k - 1) =~= s.take(k));
        assert(s.skip(1).skip(k - 1) =~= s.skip(k));
        assert(s.take(1) + (s.skip(1).take(k - 1) + replace_spec(s.skip(k), pat, val)) =~= (s.take(
            1,
        ) + s.skip(1).take(k - 1)) + replace_spec(s.skip(k), pat, val));
    }
}

/// Replacement of a pattern that occurs nowhere changes nothing.
pub proof fn lemma_replace_identity(s: Seq<char>, pat: Seq<char>, val: Seq<char>)
    requires
        pat.len() > 0,
        !contains_spec(s, pat),
    ensures
        replace_spec(s, pat, val) == s,
{
    lemma_replace_unmatched_prefix(s, pat, val, s.len() as int);
    assert(s.skip(s.len() as int) =~= Seq::<char>::empty());
    assert(replace_spec(Seq::<char>::empty(), pat, val) =~= Seq::<char>::empty());
    assert(s.take(s.len() as int) + Seq::<char>::empty() =~= s);
}

/// An occurrence of `q` survives the replacement of `pat` when no
/// occurrence of `pat` overlaps it.
pub proof fn lemma_replace_preserves_distinct_occurrence(
    s: Seq<char>,
    pat: Seq<char>,
    val: Seq<char>,
    q: Seq<char>,
    i: int,
)
    requires
        pat.len() > 0,
        q.len() > 0,
        match_at(s, q, i),
        forall|j: int| match_at(s, pat, j) ==> j + pat.len() <= i || i + q.len() <= j,
    ensures
        contains_spec(replace_spec(s, pat, val), q),
    decreases s.len(),
{
    if s.len() < pat.len() {
        assert(match_at(replace_spec(s, pat, val), q, i));
    } else if s.subrange(0, pat.len() as int) == pat {
        // the head is an occurrence of `pat`, so `q`'s occurrence lies past it
        assert(match_at(s, pat, 0));
        assert(pat.len() <= i);
        assert(s.skip(pat.len() as int).subrange(i - pat.len(), i - pat.len() + q.len()) =~= s
            .subrange(i, i + q.len()));
        assert(match_at(s.skip(pat.len() as int), q, i - pat.len()));
        assert forall|j: int| match_at(s.skip(pat.len() as int), pat, j) implies j + pat.len() <= i
            - pat.len() || (i - pat.len()) + q.len() <= j by {
            assert(s.subrange(j + pat.len(), j + 2 * pat.len()) =~= s.skip(
                pat.len() as int,
            ).subrange(j, j + pat.len()));
            assert(match_at(s, pat, j + pat.len()));
        }
        lemma_replace_preserves_distinct_occurrence(
            s.skip(pat.len() as int),
            pat,
            val,
            q,
            i - pat.len(),
        );
        lemma_contains_append_left(
            val,
            replace_spec(s.skip(pat.len() as int), pat, val),
            q,
        );
    } else if i >= 1 {
        assert(s.skip(1).subrange(i - 1, i - 1 + q.len()) =~= s.subrange(i, i + q.len()));
        assert(match_at(s.skip(1), q, i - 1));
        assert forall|j: int| match_at(s.skip(1), pat, j) implies j + pat.len() <= i - 1 || (i - 1)
            + q.len() <= j by {
            assert(s.subrange(j + 1, j + 1 + pat.len()) =~= s.skip(1).subrange(j, j + pat.len()));
            assert(match_at(s, pat, j + 1));
        }
        lemma_replace_preserves_distinct_occurrence(s.skip(1), pat, val, q, i - 1);
        lemma_contains_append_left(s.take(1), replace_spec(s.skip(1), pat, val), q);
    } else {
        // the occurrence stands at the very front and nothing of `pat`
        // reaches into it, so replacement copies it through
        assert forall|j: int| 0 <= j < q.len() - 1 implies !match_at(s.skip(1), pat, j) by {
            if match_at(s.skip(1), pat, j) {
                assert(s.subrange(j + 1, j + 1 + pat.len()) =~= s.skip(1).subrange(
                    j,
                    j + pat.len(),
                ));
                assert(match_at(s, pat, j + 1));
            }
        }
        lemma_replace_unmatched_prefix(s.skip(1), pat, val, q.len() - 1);
        let rest = replace_spec(s.skip(1).skip(q.len() - 1), pat, val);
        assert(s.take(1) + (s.skip(1).take(q.len() - 1) + rest) =~= (s.take(1) + s.skip(1).take(
            q.len() - 1,
        )) + rest);
        assert(s.take(1) + s.skip(1).take(q.len() - 1) =~= s.take(q.len() as int));
        assert(s.take(q.len() as int) =~= s.subrange(0, q.len() as int));
        assert((s.take(q.len() as int) + rest).subrange(0, q.len() as int) =~= s.take(
            q.len() as int,
        ));
        assert(match_at(replace_spec(s, pat, val), q, 0));
    }
}

/// Character-wise string equality.
pub fn str_eq(a: &str, b: &str) -> (r: bool)
    ensures
        r == (a@ == b@),
{
    let a_len = a.unicode_len();
    let b_len = b.unicode_len();
    if a_len != b_len {
        return false;
    }
    let mut i: usize = 0;
    while i < a_len
        invariant
            a_len == a@.len(),
            b_len == b@.len(),
            a_len == b_len,
            i <= a_len,
            forall|j: int| 0 <= j < i ==> a@[j] == b@[j],
        decreases a_len - i,
    {
        if a.get_char(i) != b.get_char(i) {
            return false;
        }
        i += 1;
    }
    proof {
        assert(a@ =~= b@);
    }
    true
}

/// Does `s` start with `prefix`?
pub fn starts_with(s: &str, prefix: &str) -> (r: bool)
    ensures
        r == has_prefix(s@, prefix@),
{
    let s_len = s.unicode_len();
    let p_len = prefix.unicode_len();
    if p_len > s_len {
        return false;
    }
    let mut i: usize = 0;
    while i < p_len
        invariant
            s_len == s@.len(),
            p_len == prefix@.len(),
            p_len <= s_len,
            i <= p_len,
            forall|j: int| 0 <= j < i ==> s@[j] == prefix@[j],
        decreases p_len - i,
    {
        if s.get_char(i) != prefix.get_char(i) {
            proof {
                assert(s@.subrange(0, p_len as int)[i as int] != prefix@[i as int]);
            }
            return false;
        }
        i += 1;
    }
    proof {
        assert(s@.subrange(0, p_len as int) =~= prefix@);
    }
    true
}

/// Does `pat` occur in `s` at position `i`?
pub fn matches_at(s: &str, pat: &str, i: usize) -> (r: bool)
    requires
        i + pat@.len() <= s@.len(),
        s@.len() <= usize::MAX,
    ensures
        r == match_at(s@, pat@, i as int),
{
    let p_len = pat.unicode_len();
    let mut j: usize = 0;
    while j < p_len
        invariant
            p_len == pat@.len(),
            i + p_len <= s@.len(),
            s@.len() <= usize::MAX,
            j <= p_len,
            forall|k: int| 0 <= k < j ==> s@[i + k] == pat@[k],
        decreases p_len - j,
    {
        if s.get_char(i + j) != pat.get_char(j) {
            proof {
                assert(s@.subrange(i as int, i + p_len)[j as int] != pat@[j as int]);
            }
            return false;
        }
        j += 1;
    }
    proof {
        assert(s@.subrange(i as int, i + p_len) =~= pat@);
    }
    true
}

/// Does `pat` occur anywhere in `s`?
pub fn contains_pat(s: &str, pat: &str) -> (r: bool)
    ensures
        r == contains_spec(s@, pat@),
{
    let s_len = s.unicode_len();
    let p_len = pat.unicode_len();
    if p_len > s_len {
        proof {
            assert(forall|i: int| !match_at(s@, pat@, i));
        }
        return false;
    }
    if p_len == 0 {
        proof {
            assert(s@.subrange(0, 0) =~= pat@);
            assert(match_at(s@, pat@, 0));
        }
        return true;
    }
    let mut i: usize = 0;
    while i <= s_len - p_len
        invariant
            s_len == s@.len(),
            p_len == pat@.len(),
            1 <= p_len <= s_len,
            i <= s_len - p_len + 1,
            forall|j: int| 0 <= j < i ==> !match_at(s@, pat@, j),
        decreases s_len - p_len - i + 1,
    {
        if matches_at(s, pat, i) {
            proof {
                assert(match_at(s@, pat@, i as int));
            }
            return true;
        }
        i += 1;
    }
    proof {
        assert forall|j: int| !match_at(s@, pat@, j) by {
            if j >= i {
                assert(j + p_len > s_len);
            }
        }
    }
    false
}

/// Replaces every occurrence of `pat` in `s` by `val`, leftmost first and
/// without re-examining replaced text, as [`replace_spec`] states.
pub fn replace_all(s: &str, pat: &str, val: &str) -> (r: String)
    requires
        pat@.len() > 0,
    ensures
        r@ == replace_spec(s@, pat@, val@),
{
    let s_len = s.unicode_len();
    let p_len = pat.unicode_len();
    let mut out = String::new();
    let mut i: usize = 0;
    proof {
        assert(s@.skip(0) =~= s@);
        assert(out@ + replace_spec(s@, pat@, val@) =~= replace_spec(s@, pat@, val@));
    }
    while i < s_len
        invariant
            s_len == s@.len(),
            p_len == pat@.len(),
            p_len > 0,
            i <= s_len,
            replace_spec(s@, pat@, val@) == out@ + replace_spec(
                s@.skip(i as int),
                pat@,
                val@,
            ),
        decreases s_len - i,
    {
        if p_len <= s_len - i && matches_at(s, pat, i) {
            proof {
                assert(s@.skip(i as int).subrange(0, p_len as int) =~= s@.subrange(
                    i as int,
                    i + p_len,
                ));
                assert(s@.skip(i as int).skip(p_len as int) =~= s@.skip(i + p_len));
            }
            out.append(val);
            i += p_len;
        } else {
            proof {
                if p_len <= s_len - i {
                    assert(s@.skip(i as int).subrange(0, p_len as int) =~= s@.subrange(
                        i as int,
                        i + p_len,
                    ));
                }
                assert(s@.skip(i as int).take(1) =~= s@.subrange(i as int, i + 1));
                assert(s@.skip(i as int).skip(1) =~= s@.skip(i + 1));
            }
            let c = s.substring_char(i, i + 1);
            out.append(c);
            i += 1;
        }
    }
    proof {
        assert(s@.skip(s_len as int) =~= Seq::<char>::empty());
        assert(out@ =~= out@ + Seq::<char>::empty());
    }
    out
}

/// Removes every trailing newline character from `s`.
pub fn trim_trailing_newlines(s: &str) -> (r: String)
    ensures
        r@ == trim_newlines_spec(s@),
{
    let len = s.unicode_len();
    let mut j = len;
    proof {
        assert(s@.take(len as int) =~= s@);
    }
    while j > 0
        invariant
            len == s@.len(),
            j <= len,
            trim_newlines_spec(s@) == trim_newlines_spec(s@.take(j as int)),
        ensures
            len == s@.len(),
            j <= len,
            trim_newlines_spec(s@) == trim_newlines_spec(s@.take(j as int)),
            j == 0 || s@[j - 1] != '\n',
        decreases j,
    {
        if s.get_char(j - 1) != '\n' {
            break;
        }
        proof {
            assert(s@.take(j as int).last() == s@[j - 1]);
            assert(s@.take(j as int).drop_last() =~= s@.take(j - 1));
        }
        j -= 1;
    }
    let r = s.substring_char(0, j);
    proof {
        assert(r@ =~= s@.take(j as int));
        if j > 0 {
            assert(s@.take(j as int).last() == s@[j - 1]);
        }
    }
    r.to_owned()
}

/// Joins the lines with newline separators, as [`fold_spec`] states: no
/// trailing terminator, the empty sequence folds to the empty string.
pub fn fold_data(data: Vec<String>) -> (r: String)
    ensures
        r@ == fold_spec(views(data@)),
{
    let mut out = String::new();
    let mut i: usize = 0;
    while i < data.len()
        invariant
            i <= data@.len(),
            out@ == fold_spec(views(data@).take(i as int)),
        decreases data@.len() - i,
    {
        proof {
            let vs = views(data@);
            assert(vs.take(i + 1).drop_last() =~= vs.take(i as int));
            assert(vs.take(i + 1).last() == vs[i as int]);
        }
        if i > 0 {
            out.append("\n");
        }
        out.append(data[i].as_str());
        proof {
            let vs = views(data@);
            if i == 0 {
                assert(out@ =~= vs.take(1)[0]);
            }
        }
        i += 1;
    }
    proof {
        assert(views(data@).take(data@.len() as int) =~= views(data@));
    }
    out
}

} // verus!
