//! The candidates for the extreme of a sliding window: the samples that no
//! later sample beats. They form a monotone sequence whose first element is
//! the extreme of the window, and they follow the window by cheap steps: a
//! sample that enters replaces the trailing candidates that it beats, and a
//! sample that leaves takes the first candidate with it if it is that one.

use vstd::prelude::*;
use crate::series::{lemma_extreme_is_extreme, reaches, seq_extreme};

verus! {

/// Whether the first sample of `s` reaches every later one.
pub open spec fn leads(s: Seq<i64>, low: bool) -> bool
    recommends
        s.len() > 0,
{
    s.len() == 1 || reaches(s[0], seq_extreme(s.drop_first(), low), low)
}

/// The samples of `s` that reach every later sample, in their order: the
/// candidates for the minimum (`low`) or the maximum of the window as older
/// samples leave it.
pub open spec fn candidates(s: Seq<i64>, low: bool) -> Seq<i64>
    decreases s.len(),
{
    if s.len() == 0 {
        Seq::empty()
    } else if leads(s, low) {
        seq![s[0]] + candidates(s.drop_first(), low)
    } else {
        candidates(s.drop_first(), low)
    }
}

/// Whether `v` is strictly more extreme than `x`.
pub open spec fn beats(v: i64, x: i64, low: bool) -> bool {
    !reaches(x, v, low)
}

/// `t` without the trailing elements that `v` beats.
pub open spec fn cut_back(t: Seq<i64>, v: i64, low: bool) -> Seq<i64>
    decreases t.len(),
{
    if t.len() > 0 && beats(v, t.last(), low) {
        cut_back(t.drop_last(), v, low)
    } else {
        t
    }
}

proof fn lemma_leads(s: Seq<i64>, low: bool)
    requires
        s.len() > 0,
    ensures
        leads(s, low) <==> (forall|j: int|
            1 <= j < s.len() ==> reaches(s[0], #[trigger] s[j], low)),
        seq_extreme(s, low) == (if leads(s, low) {
            s[0]
        } else {
            seq_extreme(s.drop_first(), low)
        }),
{
    if s.len() > 1 {
        let t = s.drop_first();
        lemma_extreme_is_extreme(t, low);
        let e = seq_extreme(t, low);
        if leads(s, low) {
            assert forall|j: int| 1 <= j < s.len() implies reaches(s[0], #[trigger] s[j], low) by {
                assert(reaches(e, t[j - 1], low));
            }
        } else {
            let k = choose|k: int| 0 <= k < t.len() && t[k] == e;
            assert(s[k + 1] == e);
        }
    }
}

/// The first candidate is the extreme of the window.
pub proof fn lemma_candidates_front(s: Seq<i64>, low: bool)
    requires
        s.len() > 0,
    ensures
        candidates(s, low).len() > 0,
        candidates(s, low)[0] == seq_extreme(s, low),
    decreases s.len(),
{
    lemma_leads(s, low);
    if !leads(s, low) {
        lemma_candidates_front(s.drop_first(), low);
    }
}

/// Every candidate is a sample of the window.
proof fn lemma_candidates_within(s: Seq<i64>, low: bool)
    ensures
        forall|i: int|
            0 <= i < candidates(s, low).len() ==> s.contains(#[trigger] candidates(s, low)[i]),
    decreases s.len(),
{
    if s.len() > 0 {
        let t = s.drop_first();
        lemma_candidates_within(t, low);
        let c = candidates(s, low);
        let d = candidates(t, low);
        assert forall|i: int| 0 <= i < c.len() implies s.contains(#[trigger] c[i]) by {
            if leads(s, low) && i == 0 {
                assert(s[0] == c[0]);
            } else {
                let x = c[i];
                let off: int = if leads(s, low) { 1 } else { 0 };
                assert(x == d[i - off]);
                assert(t.contains(d[i - off]));
                let k = choose|k: int| 0 <= k < t.len() && t[k] == x;
                assert(s[k + 1] == x);
            }
        }
    }
}

/// When the oldest sample leaves, the candidates lose their first exactly if
/// it is that sample.
pub proof fn lemma_candidates_evict(s: Seq<i64>, low: bool)
    requires
        s.len() > 0,
    ensures
        reaches(candidates(s, low)[0], s[0], low),
        candidates(s.drop_first(), low) == (if s[0] == candidates(s, low)[0] {
            candidates(s, low).drop_first()
        } else {
            candidates(s, low)
        }),
{
    lemma_leads(s, low);
    lemma_candidates_front(s, low);
    lemma_extreme_is_extreme(s, low);
    if leads(s, low) {
        assert((seq![s[0]] + candidates(s.drop_first(), low)).drop_first() =~= candidates(
            s.drop_first(),
            low,
        ));
    } else {
        lemma_candidates_front(s.drop_first(), low);
    }
}

proof fn lemma_cut_back_keeps(x: i64, r: Seq<i64>, v: i64, low: bool)
    requires
        !beats(v, x, low),
    ensures
        cut_back(seq![x] + r, v, low) == seq![x] + cut_back(r, v, low),
    decreases r.len(),
{
    let t = seq![x] + r;
    if r.len() == 0 {
        assert(t =~= seq![x]);
        assert(t.last() == x);
    } else {
        assert(t.last() == r.last());
        assert(t.drop_last() =~= seq![x] + r.drop_last());
        if beats(v, r.last(), low) {
            lemma_cut_back_keeps(x, r.drop_last(), v, low);
        }
    }
}

proof fn lemma_cut_back_clears(t: Seq<i64>, v: i64, low: bool)
    requires
        forall|i: int| 0 <= i < t.len() ==> beats(v, #[trigger] t[i], low),
    ensures
        cut_back(t, v, low) == Seq::<i64>::empty(),
    decreases t.len(),
{
    if t.len() > 0 {
        assert(beats(v, t[t.len() - 1], low));
        lemma_cut_back_clears(t.drop_last(), v, low);
    }
}

/// When a sample enters, it replaces the trailing candidates that it beats.
pub proof fn lemma_candidates_push(s: Seq<i64>, v: i64, low: bool)
    ensures
        candidates(s.push(v), low) == cut_back(candidates(s, low), v, low).push(v),
    decreases s.len(),
{
    let s2 = s.push(v);
    if s.len() == 0 {
        assert(s2.drop_first() =~= Seq::<i64>::empty());
        assert(candidates(s2.drop_first(), low) =~= Seq::<i64>::empty());
        assert(leads(s2, low));
        assert(candidates(s2, low) =~= seq![v]);
        assert(cut_back(candidates(s, low), v, low).push(v) =~= seq![v]);
    } else {
        let t = s.drop_first();
        let r = candidates(t, low);
        assert(s2.drop_first() =~= t.push(v));
        lemma_candidates_push(t, v, low);
        lemma_leads(s, low);
        lemma_leads(s2, low);
        if leads(s2, low) {
            assert(reaches(s[0], s2[s.len() as int], low));
            assert forall|j: int| 1 <= j < s.len() implies reaches(s[0], #[trigger] s[j], low) by {
                assert(s2[j] == s[j]);
            }
            lemma_cut_back_keeps(s[0], r, v, low);
            assert((seq![s[0]] + cut_back(r, v, low)).push(v) =~= seq![s[0]] + cut_back(
                r,
                v,
                low,
            ).push(v));
        } else if leads(s, low) {
            assert(beats(v, s[0], low)) by {
                if !beats(v, s[0], low) {
                    assert forall|j: int| 1 <= j < s2.len() implies reaches(
                        s2[0],
                        #[trigger] s2[j],
                        low,
                    ) by {
                        if j < s.len() {
                            assert(s2[j] == s[j]);
                        }
                    }
                }
            }
            lemma_candidates_within(t, low);
            let whole = seq![s[0]] + r;
            assert forall|i: int| 0 <= i < r.len() implies beats(v, #[trigger] r[i], low) by {
                assert(t.contains(r[i]));
                let k = choose|k: int| 0 <= k < t.len() && t[k] == r[i];
                assert(reaches(s[0], s[k + 1], low));
            }
            assert forall|i: int| 0 <= i < whole.len() implies beats(
                v,
                #[trigger] whole[i],
                low,
            ) by {
                if i > 0 {
                    assert(whole[i] == r[i - 1]);
                }
            }
            lemma_cut_back_clears(r, v, low);
            lemma_cut_back_clears(whole, v, low);
        }
    }
}

/// The candidates are in order: each reaches every later one, so the
/// candidates for the minimum never fall and those for the maximum never
/// rise.
pub proof fn law_candidates_are_monotone(s: Seq<i64>, low: bool)
    ensures
        forall|i: int, j: int|
            0 <= i <= j < candidates(s, low).len() ==> reaches(
                #[trigger] candidates(s, low)[i],
                #[trigger] candidates(s, low)[j],
                low,
            ),
    decreases s.len(),
{
    if s.len() > 0 {
        let t = s.drop_first();
        let c = candidates(s, low);
        let d = candidates(t, low);
        law_candidates_are_monotone(t, low);
        lemma_candidates_within(t, low);
        lemma_leads(s, low);
        assert forall|i: int, j: int| 0 <= i <= j < c.len() implies reaches(
            #[trigger] c[i],
            #[trigger] c[j],
            low,
        ) by {
            if leads(s, low) {
                if i == 0 && j > 0 {
                    assert(c[j] == d[j - 1]);
                    assert(t.contains(d[j - 1]));
                    let k = choose|k: int| 0 <= k < t.len() && t[k] == d[j - 1];
                    assert(reaches(s[0], s[k + 1], low));
                } else if i > 0 {
                    assert(c[i] == d[i - 1] && c[j] == d[j - 1]);
                }
            }
        }
    }
}

/// The extreme of a series with one more sample at its end is the more
/// extreme of the two: the extreme of the series, and the sample.
pub proof fn lemma_extreme_push(s: Seq<i64>, v: i64, low: bool)
    ensures
        seq_extreme(s.push(v), low) == (if s.len() == 0 || beats(v, seq_extreme(s, low), low) {
            v
        } else {
            seq_extreme(s, low)
        }),
{
    let s2 = s.push(v);
    lemma_extreme_is_extreme(s2, low);
    let found = seq_extreme(s2, low);
    let at = choose|k: int| 0 <= k < s2.len() && s2[k] == found;
    assert(reaches(found, s2[s.len() as int], low));
    if s.len() > 0 {
        lemma_extreme_is_extreme(s, low);
        let e = seq_extreme(s, low);
        let k = choose|k: int| 0 <= k < s.len() && s[k] == e;
        assert(reaches(found, s2[k], low));
        if at < s.len() {
            assert(reaches(e, s[at], low));
        }
    }
}

/// With the candidates `aux` from `i` on being those of the window from
/// `gone` on, the candidate at `i` is the extreme of that part of the window,
/// and once the sample at `gone` has left, the candidates are those from `i`
/// on, or from the next on if that sample was the candidate at `i`.
pub proof fn lemma_window_step(window: Seq<i64>, aux: Seq<i64>, gone: int, i: int, low: bool)
    requires
        0 <= gone < window.len(),
        0 <= i <= aux.len(),
        aux.subrange(i, aux.len() as int) == candidates(
            window.subrange(gone, window.len() as int),
            low,
        ),
    ensures
        i < aux.len(),
        aux[i] == seq_extreme(window.subrange(gone, window.len() as int), low),
        window.subrange(gone, window.len() as int).drop_first() == window.subrange(
            gone + 1,
            window.len() as int,
        ),
        aux.subrange(if window[gone] == aux[i] {
            i + 1
        } else {
            i
        }, aux.len() as int) == candidates(window.subrange(gone + 1, window.len() as int), low),
{
    let rest = window.subrange(gone, window.len() as int);
    let part = aux.subrange(i, aux.len() as int);
    lemma_candidates_front(rest, low);
    lemma_candidates_evict(rest, low);
    assert(part.len() > 0);
    assert(part[0] == aux[i]);
    assert(rest[0] == window[gone]);
    assert(rest.drop_first() =~= window.subrange(gone + 1, window.len() as int));
    assert(part.drop_first() =~= aux.subrange(i + 1, aux.len() as int));
}

} // verus!
