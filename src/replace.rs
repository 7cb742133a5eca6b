//! Literal, left-to-right, non-overlapping replacement of a pattern.

use vstd::prelude::*;
use vstd::std_specs::iter::IteratorSpec;

verus! {

/// `pat` occurs in `s` starting at position `i`.
pub open spec fn occurs_at(s: Seq<char>, pat: Seq<char>, i: int) -> bool {
    0 <= i && i + pat.len() <= s.len() && s.subrange(i, i + pat.len()) == pat
}

/// `pat` occurs somewhere in `s`.
pub open spec fn contains_seq(s: Seq<char>, pat: Seq<char>) -> bool {
    exists|i: int| occurs_at(s, pat, i)
}

/// Every occurrence of `pat` in `s` replaced by `rep`, scanning left to right
/// and resuming after each replaced occurrence, as `str::replace` does for a
/// non-empty pattern.
pub open spec fn replaced(s: Seq<char>, pat: Seq<char>, rep: Seq<char>) -> Seq<char>
    decreases s.len(),
{
    if s.len() == 0 || pat.len() == 0 {
        s
    } else if occurs_at(s, pat, 0) {
        rep + replaced(s.skip(pat.len() as int), pat, rep)
    } else {
        seq![s[0]] + replaced(s.skip(1), pat, rep)
    }
}

/// No occurrence of `t` in a text can overlap an inserted copy of `rep`:
/// `t` cannot start inside `rep`, nor run into `rep` from its left.
pub open spec fn isolates(t: Seq<char>, rep: Seq<char>) -> bool {
    &&& t.len() > 0
    &&& rep.len() > 0
    &&& !rep.contains(t[0])
    &&& (!t.contains(rep[0]) || (!rep.contains(t.last()) && exists|m: int|
        0 <= m < rep.len() && !t.contains(#[trigger] rep[m])))
}

/// A suffix of `t` that opens the replaced text was copied from the start
/// of `s`, where no occurrence of `pat` begins.
proof fn lemma_literal_prefix(s: Seq<char>, pat: Seq<char>, rep: Seq<char>, t: Seq<char>, off: int)
    requires
        pat.len() > 0,
        isolates(t, rep),
        0 <= off <= t.len(),
        t.len() - off <= replaced(s, pat, rep).len(),
        replaced(s, pat, rep).subrange(0, t.len() - off) == t.subrange(off, t.len() as int),
    ensures
        t.len() - off <= s.len(),
        s.subrange(0, t.len() - off) == t.subrange(off, t.len() as int),
        forall|p: int| 0 <= p < t.len() - off ==> !occurs_at(s, pat, p),
    decreases s.len(),
{
    let k = t.len() - off;
    let r = replaced(s, pat, rep);
    if k == 0 {
        assert(s.subrange(0, 0) =~= t.subrange(off, t.len() as int));
    } else if s.len() == 0 {
        assert(r.len() == 0);
    } else if occurs_at(s, pat, 0) {
        let rest = replaced(s.skip(pat.len() as int), pat, rep);
        assert(r == rep + rest);
        assert(r.subrange(0, k)[0] == t.subrange(off, t.len() as int)[0]);
        assert(r[0] == t[off]);
        if off == 0 {
            assert(rep[0] == t[0]);
            assert(rep.contains(t[0]));
        } else {
            assert(t.contains(rep[0]));
            if k <= rep.len() {
                assert(r.subrange(0, k)[k - 1] == t.subrange(off, t.len() as int)[k - 1]);
                assert(rep[k - 1] == t.last());
                assert(rep.contains(t.last()));
            } else {
                let m = choose|m: int| 0 <= m < rep.len() && !t.contains(#[trigger] rep[m]);
                assert(r.subrange(0, k)[m] == t.subrange(off, t.len() as int)[m]);
                assert(rep[m] == t[off + m]);
                assert(t.contains(rep[m]));
            }
        }
    } else {
        let s1 = s.skip(1);
        let rest = replaced(s1, pat, rep);
        assert(r == seq![s[0]] + rest);
        assert forall|i: int| 0 <= i < k - 1 implies #[trigger] rest[i] == t[off + 1 + i] by {
            assert(r.subrange(0, k)[i + 1] == t.subrange(off, t.len() as int)[i + 1]);
        }
        assert(rest.subrange(0, k - 1) =~= t.subrange(off + 1, t.len() as int));
        lemma_literal_prefix(s1, pat, rep, t, off + 1);
        assert(r.subrange(0, k)[0] == t.subrange(off, t.len() as int)[0]);
        assert forall|i: int| 0 <= i < k implies #[trigger] s[i] == t[off + i] by {
            if i > 0 {
                assert(s1.subrange(0, k - 1)[i - 1] == t.subrange(off + 1, t.len() as int)[i - 1]);
            }
        }
        assert(s.subrange(0, k) =~= t.subrange(off, t.len() as int));
        assert forall|p: int| 0 <= p < k implies !occurs_at(s, pat, p) by {
            if p > 0 && occurs_at(s, pat, p) {
                assert(s1.subrange(p - 1, p - 1 + pat.len()) =~= s.subrange(p, p + pat.len()));
                assert(occurs_at(s1, pat, p - 1));
            }
        }
    }
}

/// Every occurrence of `t` in the replaced text was copied from an
/// occurrence of `t` in `s` at which no occurrence of `pat` begins.
pub proof fn lemma_occurrence_origin(s: Seq<char>, pat: Seq<char>, rep: Seq<char>, t: Seq<char>, j: int)
    requires
        pat.len() > 0,
        isolates(t, rep),
        occurs_at(replaced(s, pat, rep), t, j),
    ensures
        exists|i: int| occurs_at(s, t, i) && !occurs_at(s, pat, i),
    decreases s.len(),
{
    let r = replaced(s, pat, rep);
    if s.len() == 0 {
        assert(r.len() == 0);
    } else if occurs_at(s, pat, 0) {
        let s1 = s.skip(pat.len() as int);
        let rest = replaced(s1, pat, rep);
        assert(r == rep + rest);
        if j < rep.len() {
            assert(r.subrange(j, j + t.len())[0] == t[0]);
            assert(rep[j] == t[0]);
            assert(rep.contains(t[0]));
        } else {
            let j1 = j - rep.len();
            assert(rest.subrange(j1, j1 + t.len()) =~= r.subrange(j, j + t.len()));
            lemma_occurrence_origin(s1, pat, rep, t, j1);
            let i1 = choose|i1: int| occurs_at(s1, t, i1) && !occurs_at(s1, pat, i1);
            let i = i1 + pat.len();
            assert(s.subrange(i, i + t.len()) =~= s1.subrange(i1, i1 + t.len()));
            if occurs_at(s, pat, i) {
                assert(s.subrange(i, i + pat.len()) =~= s1.subrange(i1, i1 + pat.len()));
            }
            assert(occurs_at(s, t, i) && !occurs_at(s, pat, i));
        }
    } else {
        let s1 = s.skip(1);
        let rest = replaced(s1, pat, rep);
        assert(r == seq![s[0]] + rest);
        if j == 0 {
            assert(r.subrange(0, t.len() as int) == t.subrange(0, t.len() as int));
            lemma_literal_prefix(s, pat, rep, t, 0);
            assert(s.subrange(0, t.len() as int) =~= t);
            assert(occurs_at(s, t, 0) && !occurs_at(s, pat, 0));
        } else {
            let j1 = j - 1;
            assert(rest.subrange(j1, j1 + t.len()) =~= r.subrange(j, j + t.len()));
            lemma_occurrence_origin(s1, pat, rep, t, j1);
            let i1 = choose|i1: int| occurs_at(s1, t, i1) && !occurs_at(s1, pat, i1);
            let i = i1 + 1;
            assert(s.subrange(i, i + t.len()) =~= s1.subrange(i1, i1 + t.len()));
            if occurs_at(s, pat, i) {
                assert(s.subrange(i, i + pat.len()) =~= s1.subrange(i1, i1 + pat.len()));
            }
            assert(occurs_at(s, t, i) && !occurs_at(s, pat, i));
        }
    }
}

/// Replacing `pat` by a value it is isolated from leaves no occurrence of it.
pub proof fn lemma_replaced_removes(s: Seq<char>, pat: Seq<char>, rep: Seq<char>)
    requires
        isolates(pat, rep),
    ensures
        !contains_seq(replaced(s, pat, rep), pat),
{
    if contains_seq(replaced(s, pat, rep), pat) {
        let j = choose|j: int| occurs_at(replaced(s, pat, rep), pat, j);
        lemma_occurrence_origin(s, pat, rep, pat, j);
    }
}

/// Replacing by a value isolated from `t` creates no occurrence of `t`.
pub proof fn lemma_replaced_keeps_absent(s: Seq<char>, pat: Seq<char>, rep: Seq<char>, t: Seq<char>)
    requires
        pat.len() > 0,
        isolates(t, rep),
        !contains_seq(s, t),
    ensures
        !contains_seq(replaced(s, pat, rep), t),
{
    if contains_seq(replaced(s, pat, rep), t) {
        let j = choose|j: int| occurs_at(replaced(s, pat, rep), t, j);
        lemma_occurrence_origin(s, pat, rep, t, j);
    }
}

/// The characters of `s`, one per element.
pub fn chars_of(s: &str) -> (r: Vec<char>)
    ensures
        r@ == s@,
{
    let mut it = s.chars();
    let mut r: Vec<char> = Vec::new();
    loop
        invariant
            r@ + it.remaining() == s@,
            it.decrease() is Some,
        ensures
            r@ == s@,
        decreases it.decrease()->0,
    {
        let ghost before = it.remaining();
        match it.next() {
            Some(c) => {
                assert(r@.push(c) + it.remaining() =~= r@ + before);
                r.push(c);
            },
            None => {
                assert(before.len() == 0);
                assert(r@ =~= s@);
                break;
            },
        }
    }
    r
}

/// Whether `pat` occurs in `s` at position `i`.
pub fn matches_at(s: &Vec<char>, pat: &Vec<char>, i: usize) -> (r: bool)
    requires
        i <= s.len(),
    ensures
        r == occurs_at(s@, pat@, i as int),
{
    if pat.len() > s.len() - i {
        return false;
    }
    let mut j: usize = 0;
    while j < pat.len()
        invariant
            i + pat.len() <= s.len(),
            j <= pat.len(),
            forall|k: int| 0 <= k < j ==> s@[i + k] == pat@[k],
        decreases pat.len() - j,
    {
        if s[i + j] != pat[j] {
            assert(s@.subrange(i as int, i + pat.len())[j as int] != pat@[j as int]);
            return false;
        }
        j = j + 1;
    }
    assert(s@.subrange(i as int, i + pat.len()) =~= pat@);
    true
}

/// Replaces every occurrence of `pat` in `s` by `rep`.
pub fn replace_all(s: &str, pat: &str, rep: &str) -> (r: String)
    requires
        pat@.len() > 0,
    ensures
        r@ == replaced(s@, pat@, rep@),
{
    let text = chars_of(s);
    let p = chars_of(pat);
    let n = text.len();
    let mut out = String::new();
    let mut start: usize = 0;
    let mut i: usize = 0;
    assert(s@.skip(0) =~= s@);
    assert(s@.subrange(0, 0) =~= Seq::<char>::empty());
    while i < n
        invariant
            n == text@.len(),
            text@ == s@,
            p@ == pat@,
            p@.len() > 0,
            start <= i <= n,
            out@ + s@.subrange(start as int, i as int) + replaced(s@.skip(i as int), pat@, rep@)
                == replaced(s@, pat@, rep@),
        decreases n - i,
    {
        let rest = Ghost(s@.skip(i as int));
        if matches_at(&text, &p, i) {
            proof {
                assert(rest@.subrange(0, pat@.len() as int) =~= s@.subrange(i as int, i + pat@.len()));
                assert(rest@.skip(pat@.len() as int) =~= s@.skip(i + pat@.len()));
            }
            let seg = s.substring_char(start, i);
            out.append(seg);
            out.append(rep);
            i = i + p.len();
            start = i;
            assert(s@.subrange(start as int, i as int) =~= Seq::<char>::empty());
        } else {
            proof {
                if occurs_at(rest@, pat@, 0) {
                    assert(rest@.subrange(0, pat@.len() as int) =~= s@.subrange(i as int, i + pat@.len()));
                }
                assert(rest@.skip(1) =~= s@.skip(i + 1));
                assert(s@.subrange(start as int, i + 1) =~= s@.subrange(start as int, i as int).push(s@[i as int]));
            }
            i = i + 1;
        }
    }
    proof {
        assert(s@.skip(n as int) =~= Seq::<char>::empty());
    }
    let seg = s.substring_char(start, n);
    out.append(seg);
    assert(out@ =~= replaced(s@, pat@, rep@));
    out
}

} // verus!
