//! Literal, non-overlapping, left-to-right substring replacement.

use crate::text::{chars_of, string_of};
use vstd::prelude::*;

verus! {

/// `from` stands in `s` at index `i`.
pub open spec fn matches_at(s: Seq<char>, from: Seq<char>, i: int) -> bool {
    &&& 0 <= i
    &&& i + from.len() <= s.len()
    &&& s.subrange(i, i + from.len()) == from
}

/// `from` stands somewhere in `s`. The empty text stands in every text.
pub open spec fn occurs(s: Seq<char>, from: Seq<char>) -> bool {
    exists|i: int| matches_at(s, from, i)
}

/// The text `s` with every occurrence of `from` replaced by `to`, scanning
/// from the left and resuming after each replaced span, so that replaced
/// spans never overlap. An empty `from` replaces nothing: the text is
/// returned as it is.
pub open spec fn replaced(s: Seq<char>, from: Seq<char>, to: Seq<char>) -> Seq<char>
    decreases s.len(),
{
    if from.len() == 0 || s.len() < from.len() {
        s
    } else if matches_at(s, from, 0) {
        to + replaced(s.skip(from.len() as int), from, to)
    } else {
        seq![s[0]] + replaced(s.skip(1), from, to)
    }
}

/// Whether `from` stands in `source` at index `at`. Past the place where
/// `from` would still fit, it does not.
pub fn matches_from(source: &[char], from: &[char], at: usize) -> (hit: bool)
    ensures
        hit == matches_at(source@, from@, at as int),
{
    let n: usize = source.len();
    let m: usize = from.len();
    if m > n || at > n - m {
        return false;
    }
    let mut j: usize = 0;
    while j < m
        invariant
            n == source@.len(),
            m == from@.len(),
            at + m <= n,
            j <= m,
            forall|k: int| 0 <= k < j ==> source@[at + k] == from@[k],
        decreases m - j,
    {
        if source[at + j] != from[j] {
            assert(source@.subrange(at as int, at + m)[j as int] != from@[j as int]);
            return false;
        }
        j += 1;
    }
    assert(source@.subrange(at as int, at + m) =~= from@);
    true
}

/// Replaces every occurrence of `from` in `source` by `to`, left to right
/// and without overlap. An empty `from` leaves the text unchanged.
pub fn substitute_chars(source: &[char], from: &[char], to: &[char]) -> (out: Vec<char>)
    ensures
        out@ == replaced(source@, from@, to@),
        from@.len() == 0 || !occurs(source@, from@) ==> out@ == source@,
{
    let n: usize = source.len();
    let m: usize = from.len();
    let mut out: Vec<char> = Vec::new();
    let mut i: usize = 0;
    assert(source@.skip(0) =~= source@);
    assert(out@ + replaced(source@, from@, to@) =~= replaced(source@, from@, to@));
    while i < n
        invariant
            n == source@.len(),
            m == from@.len(),
            i <= n,
            out@ + replaced(source@.skip(i as int), from@, to@) == replaced(
                source@,
                from@,
                to@,
            ),
        decreases n - i,
    {
        let ghost rest = source@.skip(i as int);
        let ghost before = out@;
        proof {
            lemma_matches_skip(source@, from@, i as int, 0);
        }
        if m != 0 && matches_from(source, from, i) {
            let ghost after = replaced(rest.skip(m as int), from@, to@);
            append_chars(&mut out, to);
            assert(rest.skip(m as int) =~= source@.skip(i + m));
            assert(before + (to@ + after) =~= (before + to@) + after);
            i += m;
        } else {
            let ghost after = replaced(rest.skip(1), from@, to@);
            out.push(source[i]);
            proof {
                lemma_replaced_copy(rest, from@, to@);
                assert(rest.skip(1) =~= source@.skip(i + 1));
                assert(before + (seq![rest[0]] + after) =~= before.push(rest[0]) + after);
            }
            i += 1;
        }
    }
    proof {
        assert(source@.skip(n as int) =~= Seq::<char>::empty());
        assert(out@ + Seq::<char>::empty() =~= out@);
        if from@.len() == 0 || !occurs(source@, from@) {
            lemma_absent_unchanged(source@, from@, to@);
        }
    }
    out
}

/// Replaces every occurrence of the literal text `from` in `source` by
/// `to`. The scan runs from the left; after a match it resumes behind the
/// matched span, so matches never overlap, and text that `to` brings in is
/// not scanned again. An empty `from` matches nowhere: the source comes
/// back unchanged.
pub fn substitute(source: &str, from: &str, to: &str) -> (out: String)
    ensures
        out@ == replaced(source@, from@, to@),
        from@.len() == 0 || !occurs(source@, from@) ==> out@ == source@,
{
    let text = chars_of(source);
    let pattern = chars_of(from);
    let with = chars_of(to);
    let result = substitute_chars(text.as_slice(), pattern.as_slice(), with.as_slice());
    string_of(result.as_slice())
}

/// Appends the characters of `extra` to `out`.
fn append_chars(out: &mut Vec<char>, extra: &[char])
    ensures
        final(out)@ == old(out)@ + extra@,
{
    let k: usize = extra.len();
    let mut j: usize = 0;
    while j < k
        invariant
            k == extra@.len(),
            j <= k,
            out@ == old(out)@ + extra@.take(j as int),
        decreases k - j,
    {
        out.push(extra[j]);
        assert(extra@.take(j + 1) =~= extra@.take(j as int).push(extra@[j as int]));
        j += 1;
    }
    assert(extra@.take(k as int) =~= extra@);
}

/// Where no replacement starts at the head of a non-empty text, its first
/// character is kept and the rest is replaced on its own.
pub proof fn lemma_replaced_copy(s: Seq<char>, from: Seq<char>, to: Seq<char>)
    requires
        s.len() > 0,
        from.len() == 0 || !matches_at(s, from, 0),
    ensures
        replaced(s, from, to) == seq![s[0]] + replaced(s.skip(1), from, to),
{
    if from.len() == 0 || s.len() < from.len() {
        assert(seq![s[0]] + s.skip(1) =~= s);
    }
}

/// Where `from` is empty or does not occur in `s`, replacing changes
/// nothing.
pub proof fn lemma_absent_unchanged(s: Seq<char>, from: Seq<char>, to: Seq<char>)
    requires
        from.len() == 0 || !occurs(s, from),
    ensures
        replaced(s, from, to) == s,
    decreases s.len(),
{
    if from.len() == 0 || s.len() < from.len() {
    } else {
        assert(!matches_at(s, from, 0));
        assert forall|i: int| !matches_at(s.skip(1), from, i) by {
            if 0 <= i {
                lemma_matches_skip(s, from, 1, i);
            }
        }
        lemma_absent_unchanged(s.skip(1), from, to);
        assert(seq![s[0]] + s.skip(1) =~= s);
    }
}

/// An occurrence in the text after its first `k` characters is an
/// occurrence in the text itself, `k` places further on, and the other
/// way round.
pub proof fn lemma_matches_skip(s: Seq<char>, from: Seq<char>, k: int, i: int)
    requires
        0 <= k <= s.len(),
        0 <= i,
    ensures
        matches_at(s.skip(k), from, i) == matches_at(s, from, i + k),
{
    if i + from.len() <= s.len() - k {
        assert(s.skip(k).subrange(i, i + from.len()) =~= s.subrange(i + k, i + k + from.len()));
    }
}

/// Where a non-empty `from` occurs in `s` exactly once, at index `i`, the
/// result is `s` with that one span replaced by `to` and every other
/// character unchanged.
pub proof fn lemma_single_occurrence(s: Seq<char>, from: Seq<char>, to: Seq<char>, i: int)
    requires
        from.len() > 0,
        matches_at(s, from, i),
        forall|j: int| matches_at(s, from, j) ==> j == i,
    ensures
        replaced(s, from, to) == s.subrange(0, i) + to + s.subrange(
            i + from.len(),
            s.len() as int,
        ),
    decreases s.len(),
{
    let m = from.len() as int;
    if i == 0 {
        let rest = s.skip(m);
        assert forall|j: int| !matches_at(rest, from, j) by {
            if 0 <= j {
                lemma_matches_skip(s, from, m, j);
            }
        }
        lemma_absent_unchanged(rest, from, to);
        assert(s.subrange(0, 0) + to + s.subrange(m, s.len() as int) =~= to + rest);
    } else {
        let rest = s.skip(1);
        lemma_replaced_copy(s, from, to);
        lemma_matches_skip(s, from, 1, i - 1);
        assert forall|j: int| matches_at(rest, from, j) implies j == i - 1 by {
            lemma_matches_skip(s, from, 1, j);
        }
        lemma_single_occurrence(rest, from, to, i - 1);
        assert(seq![s[0]] + (rest.subrange(0, i - 1) + to + rest.subrange(
            i - 1 + m,
            rest.len() as int,
        )) =~= s.subrange(0, i) + to + s.subrange(i + m, s.len() as int));
    }
}

/// Where `to` is no longer than `from`, replacing never lengthens a text.
pub proof fn lemma_replaced_no_longer(s: Seq<char>, from: Seq<char>, to: Seq<char>)
    requires
        to.len() <= from.len(),
    ensures
        replaced(s, from, to).len() <= s.len(),
    decreases s.len(),
{
    if from.len() == 0 || s.len() < from.len() {
    } else if matches_at(s, from, 0) {
        lemma_replaced_no_longer(s.skip(from.len() as int), from, to);
    } else {
        lemma_replaced_no_longer(s.skip(1), from, to);
    }
}

/// Where `to` does not contain `from`, a text in which `from` occurs is
/// changed by replacing.
pub proof fn lemma_present_changed(s: Seq<char>, from: Seq<char>, to: Seq<char>)
    requires
        !occurs(to, from),
        occurs(s, from),
    ensures
        replaced(s, from, to) != s,
    decreases s.len(),
{
    let m = from.len() as int;
    assert(m > 0) by {
        if m == 0 {
            assert(to.subrange(0, 0) =~= from);
            assert(matches_at(to, from, 0));
        }
    }
    let i = choose|i: int| matches_at(s, from, i);
    if matches_at(s, from, 0) {
        let rest = s.skip(m);
        if to.len() >= m {
            if replaced(s, from, to) == s {
                assert(to.subrange(0, m) =~= s.subrange(0, m));
                assert(matches_at(to, from, 0));
            }
        } else {
            lemma_replaced_no_longer(rest, from, to);
        }
    } else {
        let rest = s.skip(1);
        lemma_replaced_copy(s, from, to);
        lemma_matches_skip(s, from, 1, i - 1);
        assert(matches_at(rest, from, i - 1));
        lemma_present_changed(rest, from, to);
        if replaced(s, from, to) == s {
            assert(replaced(rest, from, to) =~= (seq![s[0]] + replaced(rest, from, to)).skip(1));
        }
    }
}

/// Replacing a second time. Where `to` does not contain `from`, the second
/// pass returns the first result unchanged exactly when the first pass left
/// no occurrence of `from` behind; an occurrence can be left where a
/// replacement joins its neighbours (replacing `ab` by `b` in `aab` gives
/// `ab`).
pub proof fn lemma_second_pass(s: Seq<char>, from: Seq<char>, to: Seq<char>)
    requires
        !occurs(to, from),
    ensures
        replaced(replaced(s, from, to), from, to) == replaced(s, from, to) <==> !occurs(
            replaced(s, from, to),
            from,
        ),
{
    let once = replaced(s, from, to);
    if occurs(once, from) {
        lemma_present_changed(once, from, to);
    } else {
        lemma_absent_unchanged(once, from, to);
    }
}

/// No character of `a` is a character of `b`.
pub open spec fn disjoint(a: Seq<char>, b: Seq<char>) -> bool {
    forall|i: int, j: int| 0 <= i < a.len() && 0 <= j < b.len() ==> a[i] != b[j]
}

/// Where `to` is not empty, a text `w` that shares no character with `to`
/// and begins the result began the source already.
pub proof fn lemma_head_kept(s: Seq<char>, from: Seq<char>, to: Seq<char>, w: Seq<char>)
    requires
        to.len() > 0,
        disjoint(w, to),
        matches_at(replaced(s, from, to), w, 0),
    ensures
        matches_at(s, w, 0),
    decreases s.len(),
{
    let out = replaced(s, from, to);
    let k = w.len() as int;
    if k == 0 {
        assert(s.subrange(0, 0) =~= w);
    } else if from.len() == 0 || s.len() < from.len() {
    } else if matches_at(s, from, 0) {
        assert(out.subrange(0, k)[0] == to[0]);
        assert(w[0] != to[0]);
    } else {
        let rest = replaced(s.skip(1), from, to);
        assert(out.skip(1) =~= rest);
        assert(rest.subrange(0, k - 1) =~= out.subrange(0, k).skip(1));
        lemma_head_kept(s.skip(1), from, to, w.skip(1));
        assert(out.subrange(0, k)[0] == s[0]);
        assert(s.subrange(0, k) =~= seq![s[0]] + s.skip(1).subrange(0, k - 1));
        assert(w =~= seq![w[0]] + w.skip(1));
    }
}

/// Where `from` and `to` are not empty and share no character, no
/// occurrence of `from` is left in the result.
pub proof fn lemma_disjoint_clean(s: Seq<char>, from: Seq<char>, to: Seq<char>)
    requires
        from.len() > 0,
        to.len() > 0,
        disjoint(from, to),
    ensures
        !occurs(replaced(s, from, to), from),
    decreases s.len(),
{
    let out = replaced(s, from, to);
    let m = from.len() as int;
    if s.len() < m {
    } else if matches_at(s, from, 0) {
        let rest = replaced(s.skip(m), from, to);
        lemma_disjoint_clean(s.skip(m), from, to);
        assert(out.skip(to.len() as int) =~= rest);
        assert forall|j: int| !matches_at(out, from, j) by {
            if matches_at(out, from, j) {
                if j < to.len() {
                    assert(out.subrange(j, j + m)[0] == to[j]);
                    assert(from[0] != to[j]);
                } else {
                    lemma_matches_skip(out, from, to.len() as int, j - to.len());
                    assert(matches_at(rest, from, j - to.len()));
                }
            }
        }
    } else {
        let rest = replaced(s.skip(1), from, to);
        lemma_disjoint_clean(s.skip(1), from, to);
        assert(out.skip(1) =~= rest);
        assert forall|j: int| !matches_at(out, from, j) by {
            if matches_at(out, from, j) {
                if j == 0 {
                    lemma_head_kept(s, from, to, from);
                } else {
                    lemma_matches_skip(out, from, 1, j - 1);
                    assert(matches_at(rest, from, j - 1));
                }
            }
        }
    }
}

/// Where `to` is not empty and shares no character with `from`, replacing
/// a second time changes nothing.
pub proof fn lemma_disjoint_idempotent(s: Seq<char>, from: Seq<char>, to: Seq<char>)
    requires
        to.len() > 0,
        disjoint(from, to),
    ensures
        replaced(replaced(s, from, to), from, to) == replaced(s, from, to),
{
    if from.len() > 0 {
        lemma_disjoint_clean(s, from, to);
    }
    lemma_absent_unchanged(replaced(s, from, to), from, to);
}

} // verus!
