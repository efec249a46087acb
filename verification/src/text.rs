//! Byte-level text helpers for the line-oriented configuration format:
//! whitespace trimming, first-occurrence search, substring replacement and
//! newline splitting, each with a spec-level definition and a verified
//! executable counterpart.

use vstd::prelude::*;

verus! {

/// ASCII whitespace: space and the control characters TAB through CR.
pub open spec fn is_space(b: u8) -> bool {
    b == 32 || (9 <= b && b <= 13)
}

/// `s` without its leading whitespace.
pub open spec fn trim_left(s: Seq<u8>) -> Seq<u8>
    decreases s.len(),
{
    if s.len() > 0 && is_space(s[0]) {
        trim_left(s.drop_first())
    } else {
        s
    }
}

/// `s` without its trailing whitespace.
pub open spec fn trim_right(s: Seq<u8>) -> Seq<u8>
    decreases s.len(),
{
    if s.len() > 0 && is_space(s.last()) {
        trim_right(s.drop_last())
    } else {
        s
    }
}

/// `s` without surrounding whitespace.
pub open spec fn trim_spec(s: Seq<u8>) -> Seq<u8> {
    trim_right(trim_left(s))
}

proof fn lemma_trim_left_skip(s: Seq<u8>, i: int)
    requires
        0 <= i <= s.len(),
        forall|k: int| 0 <= k < i ==> is_space(s[k]),
        i < s.len() ==> !is_space(s[i]),
    ensures
        trim_left(s) == s.skip(i),
    decreases i,
{
    if i == 0 {
        assert(s.skip(0) =~= s);
    } else {
        lemma_trim_left_skip(s.drop_first(), i - 1);
        assert(s.drop_first().skip(i - 1) =~= s.skip(i));
    }
}

proof fn lemma_trim_right_take(s: Seq<u8>, j: int)
    requires
        0 <= j <= s.len(),
        forall|k: int| j <= k < s.len() ==> is_space(s[k]),
        j > 0 ==> !is_space(s[j - 1]),
    ensures
        trim_right(s) == s.take(j),
    decreases s.len() - j,
{
    if j == s.len() {
        assert(s.take(j) =~= s);
    } else {
        assert(is_space(s.last()));
        lemma_trim_right_take(s.drop_last(), j);
        assert(s.drop_last().take(j) =~= s.take(j));
    }
}

/// Executable check for [`is_space`].
pub fn is_space_byte(b: u8) -> (r: bool)
    ensures
        r == is_space(b),
{
    b == 32 || (9 <= b && b <= 13)
}

/// Returns `s` without surrounding ASCII whitespace.
pub fn trim_bytes(s: &[u8]) -> (r: &[u8])
    ensures
        r@ == trim_spec(s@),
{
    let mut i: usize = 0;
    while i < s.len() && is_space_byte(s[i])
        invariant
            0 <= i <= s@.len(),
            forall|k: int| 0 <= k < i ==> is_space(s@[k]),
        decreases s@.len() - i,
    {
        i = i + 1;
    }
    let mut j: usize = s.len();
    while j > i && is_space_byte(s[j - 1])
        invariant
            i <= j <= s@.len(),
            forall|k: int| j <= k < s@.len() ==> is_space(s@[k]),
        decreases j,
    {
        j = j - 1;
    }
    proof {
        lemma_trim_left_skip(s@, i as int);
        lemma_trim_right_take(s@.skip(i as int), j - i);
        assert(s@.skip(i as int).take(j - i) =~= s@.subrange(i as int, j as int));
    }
    &s[i..j]
}

/// Index of the first occurrence of `b` in `s`, or `-1` if `b` does not occur.
pub open spec fn index_of(s: Seq<u8>, b: u8) -> int
    decreases s.len(),
{
    if s.len() == 0 {
        -1
    } else if s[0] == b {
        0
    } else if index_of(s.drop_first(), b) == -1 {
        -1
    } else {
        1 + index_of(s.drop_first(), b)
    }
}

/// A found index is in range, hits `b`, and nothing before it is `b`; a
/// negative result means `b` does not occur at all.
pub proof fn lemma_index_of_props(s: Seq<u8>, b: u8)
    ensures
        index_of(s, b) >= 0 ==> {
            &&& 0 <= index_of(s, b) < s.len()
            &&& s[index_of(s, b)] == b
            &&& forall|k: int| 0 <= k < index_of(s, b) ==> s[k] != b
        },
        index_of(s, b) < 0 ==> index_of(s, b) == -1 && (forall|k: int|
            0 <= k < s.len() ==> s[k] != b),
    decreases s.len(),
{
    if s.len() > 0 && s[0] != b {
        let t = s.drop_first();
        lemma_index_of_props(t, b);
        if index_of(t, b) >= 0 {
            assert(index_of(s, b) == 1 + index_of(t, b));
            assert(s[index_of(s, b)] == t[index_of(t, b)]);
            assert forall|k: int| 0 <= k < index_of(s, b) implies s[k] != b by {
                if k > 0 {
                    assert(s[k] == t[k - 1]);
                }
            }
        } else {
            assert forall|k: int| 0 <= k < s.len() implies s[k] != b by {
                if k > 0 {
                    assert(s[k] == t[k - 1]);
                }
            }
        }
    }
}

proof fn lemma_index_of_found(s: Seq<u8>, b: u8, i: int)
    requires
        0 <= i < s.len(),
        s[i] == b,
        forall|k: int| 0 <= k < i ==> s[k] != b,
    ensures
        index_of(s, b) == i,
    decreases i,
{
    if i > 0 {
        lemma_index_of_found(s.drop_first(), b, i - 1);
    }
}

proof fn lemma_index_of_absent(s: Seq<u8>, b: u8)
    requires
        forall|k: int| 0 <= k < s.len() ==> s[k] != b,
    ensures
        index_of(s, b) == -1,
    decreases s.len(),
{
    if s.len() > 0 {
        lemma_index_of_absent(s.drop_first(), b);
    }
}

/// Finds the first occurrence of `b` in `s`.
pub fn find_byte(s: &[u8], b: u8) -> (r: Option<usize>)
    ensures
        index_of(s@, b) >= 0 ==> r == Some(index_of(s@, b) as usize),
        index_of(s@, b) < 0 ==> r is None,
{
    let mut i: usize = 0;
    while i < s.len()
        invariant
            0 <= i <= s@.len(),
            forall|k: int| 0 <= k < i ==> s@[k] != b,
        decreases s@.len() - i,
    {
        if s[i] == b {
            proof {
                lemma_index_of_found(s@, b, i as int);
            }
            return Some(i);
        }
        i = i + 1;
    }
    proof {
        lemma_index_of_absent(s@, b);
    }
    None
}

/// Byte-for-byte equality of two slices.
pub fn bytes_eq(a: &[u8], b: &[u8]) -> (r: bool)
    ensures
        r == (a@ == b@),
{
    if a.len() != b.len() {
        return false;
    }
    let mut i: usize = 0;
    while i < a.len()
        invariant
            a@.len() == b@.len(),
            0 <= i <= a@.len(),
            forall|k: int| 0 <= k < i ==> a@[k] == b@[k],
        decreases a@.len() - i,
    {
        if a[i] != b[i] {
            return false;
        }
        i = i + 1;
    }
    proof {
        assert(a@ =~= b@);
    }
    true
}

/// `s` with every occurrence of `pat` replaced by `rep`, scanning left to
/// right over non-overlapping occurrences.  An empty pattern replaces
/// nothing.
pub open spec fn replace_spec(s: Seq<u8>, pat: Seq<u8>, rep: Seq<u8>) -> Seq<u8>
    decreases s.len(),
{
    if pat.len() == 0 || s.len() < pat.len() {
        s
    } else if s.take(pat.len() as int) == pat {
        rep + replace_spec(s.skip(pat.len() as int), pat, rep)
    } else {
        seq![s[0]] + replace_spec(s.drop_first(), pat, rep)
    }
}

proof fn lemma_replace_match(s: Seq<u8>, pat: Seq<u8>, rep: Seq<u8>, i: int)
    requires
        pat.len() > 0,
        0 <= i,
        i + pat.len() <= s.len(),
        s.subrange(i, i + pat.len()) == pat,
    ensures
        replace_spec(s.skip(i), pat, rep) == rep + replace_spec(
            s.skip(i + pat.len()),
            pat,
            rep,
        ),
{
    assert(s.skip(i).take(pat.len() as int) =~= s.subrange(i, i + pat.len()));
    assert(s.skip(i).skip(pat.len() as int) =~= s.skip(i + pat.len()));
}

proof fn lemma_replace_nomatch(s: Seq<u8>, pat: Seq<u8>, rep: Seq<u8>, i: int)
    requires
        pat.len() > 0,
        0 <= i < s.len(),
        i + pat.len() <= s.len() ==> s.subrange(i, i + pat.len()) != pat,
    ensures
        replace_spec(s.skip(i), pat, rep) == seq![s[i]] + replace_spec(
            s.skip(i + 1),
            pat,
            rep,
        ),
{
    let t = s.skip(i);
    if t.len() < pat.len() {
        assert(t =~= seq![s[i]] + s.skip(i + 1));
        assert(s.skip(i + 1).len() < pat.len());
    } else {
        assert(t.take(pat.len() as int) =~= s.subrange(i, i + pat.len()));
        assert(t.drop_first() =~= s.skip(i + 1));
        assert(seq![t[0]] =~= seq![s[i]]);
    }
}

/// Replaces every occurrence of `pat` in `s` by `rep`.
pub fn replace_all(s: &[u8], pat: &[u8], rep: &[u8]) -> (r: Vec<u8>)
    ensures
        r@ == replace_spec(s@, pat@, rep@),
{
    if pat.len() == 0 {
        return vstd::slice::slice_to_vec(s);
    }
    let mut out: Vec<u8> = Vec::new();
    let mut i: usize = 0;
    proof {
        assert(s@.skip(0) =~= s@);
        assert(Seq::<u8>::empty() + replace_spec(s@, pat@, rep@) =~= replace_spec(
            s@,
            pat@,
            rep@,
        ));
    }
    while i < s.len()
        invariant
            pat@.len() > 0,
            0 <= i <= s@.len(),
            replace_spec(s@, pat@, rep@) == out@ + replace_spec(s@.skip(i as int), pat@, rep@),
        decreases s@.len() - i,
    {
        let ghost out0 = out@;
        if s.len() - i >= pat.len() && bytes_eq(&s[i..i + pat.len()], pat) {
            out.extend_from_slice(rep);
            proof {
                lemma_replace_match(s@, pat@, rep@, i as int);
                assert(out0 + (rep@ + replace_spec(
                    s@.skip(i + pat@.len()),
                    pat@,
                    rep@,
                )) =~= out@ + replace_spec(s@.skip(i + pat@.len()), pat@, rep@));
            }
            i = i + pat.len();
        } else {
            out.push(s[i]);
            proof {
                lemma_replace_nomatch(s@, pat@, rep@, i as int);
                assert(out0 + (seq![s@[i as int]] + replace_spec(
                    s@.skip(i as int + 1),
                    pat@,
                    rep@,
                )) =~= out@ + replace_spec(s@.skip(i as int + 1), pat@, rep@));
            }
            i = i + 1;
        }
    }
    proof {
        assert(s@.skip(s@.len() as int) =~= Seq::<u8>::empty());
        assert(out@ + Seq::<u8>::empty() =~= out@);
    }
    out
}

/// The lines of `s`, split at every newline byte.  A file of `n` newline
/// bytes has `n + 1` lines; the terminating newline of a well-formed text
/// file thus yields one final empty line, which the loader skips.
pub open spec fn split_lines_spec(s: Seq<u8>) -> Seq<Seq<u8>>
    decreases s.len(),
{
    let k = index_of(s, 10);
    if k < 0 || k >= s.len() {
        seq![s]
    } else {
        seq![s.take(k)] + split_lines_spec(s.skip(k + 1))
    }
}

/// Splits `s` at every newline byte.
pub fn split_lines(s: &[u8]) -> (r: Vec<Vec<u8>>)
    ensures
        r.deep_view() == split_lines_spec(s@),
{
    let mut r: Vec<Vec<u8>> = Vec::new();
    let mut start: usize = 0;
    proof {
        assert(s@.skip(0) =~= s@);
        assert(r.deep_view() =~~= Seq::<Seq<u8>>::empty());
        assert(Seq::<Seq<u8>>::empty() + split_lines_spec(s@) =~~= split_lines_spec(s@));
    }
    loop
        invariant
            0 <= start <= s@.len(),
            split_lines_spec(s@) == r.deep_view() + split_lines_spec(s@.skip(start as int)),
        decreases s@.len() - start,
    {
        let rest = &s[start..s.len()];
        proof {
            assert(rest@ =~= s@.skip(start as int));
            lemma_index_of_props(rest@, 10);
        }
        let ghost r0 = r.deep_view();
        match find_byte(rest, 10) {
            Some(k) => {
                let line = vstd::slice::slice_to_vec(&s[start..start + k]);
                proof {
                    assert(line@ =~= s@.skip(start as int).take(k as int));
                }
                r.push(line);
                proof {
                    assert(r.deep_view() =~~= r0.push(s@.skip(start as int).take(k as int)));
                    assert(r0 + (seq![s@.skip(start as int).take(k as int)] + split_lines_spec(
                        s@.skip(start as int).skip(k + 1),
                    )) =~~= r.deep_view() + split_lines_spec(s@.skip(start as int).skip(k + 1)));
                    assert(s@.skip(start as int).skip(k + 1) =~= s@.skip(start as int + k + 1));
                }
                start = start + k + 1;
            },
            None => {
                let line = vstd::slice::slice_to_vec(rest);
                r.push(line);
                proof {
                    assert(r.deep_view() =~~= r0.push(s@.skip(start as int)));
                    assert(split_lines_spec(s@.skip(start as int)) =~~= seq![
                        s@.skip(start as int),
                    ]);
                    assert(r0 + seq![s@.skip(start as int)] =~~= r.deep_view());
                    assert(r.deep_view() + Seq::<Seq<u8>>::empty() =~~= r.deep_view());
                }
                return r;
            },
        }
    }
}

} // verus!
