//! Cutting a sequence into runs of items that satisfy a predicate.

use vstd::prelude::*;

verus! {

/// The length of the longest prefix of `s` whose items all satisfy `keep`.
pub open spec fn prefix_len<T>(s: Seq<T>, keep: spec_fn(T) -> bool) -> nat
    decreases s.len(),
{
    if s.len() > 0 && keep(s[0]) {
        1 + prefix_len(s.skip(1), keep)
    } else {
        0
    }
}

/// `n` items at the front of `s` satisfy `keep`, and the prefix cannot be extended.
pub open spec fn is_longest_prefix<T>(s: Seq<T>, keep: spec_fn(T) -> bool, n: int) -> bool {
    &&& 0 <= n <= s.len()
    &&& forall|i: int| 0 <= i < n ==> keep(#[trigger] s[i])
    &&& n < s.len() ==> !keep(s[n])
}

/// `prefix_len` is the one length that `is_longest_prefix` accepts.
pub proof fn lemma_prefix_len<T>(s: Seq<T>, keep: spec_fn(T) -> bool)
    ensures
        is_longest_prefix(s, keep, prefix_len(s, keep) as int),
        forall|n: int| is_longest_prefix(s, keep, n) ==> n == prefix_len(s, keep),
    decreases s.len(),
{
    if s.len() > 0 && keep(s[0]) {
        let t = s.skip(1);
        lemma_prefix_len(t, keep);
        let m = prefix_len(t, keep) as int;
        assert forall|i: int| 0 <= i < m + 1 implies keep(#[trigger] s[i]) by {
            if i > 0 {
                assert(s[i] == t[i - 1]);
            }
        }
    }
}

/// The maximal runs of items of `s` that satisfy `keep`, in order. The other items only
/// separate the runs, and no run is empty.
pub open spec fn runs<T>(s: Seq<T>, keep: spec_fn(T) -> bool) -> Seq<Seq<T>>
    decreases s.len(),
    via runs_terminates::<T>
{
    if s.len() == 0 {
        Seq::empty()
    } else if !keep(s[0]) {
        runs(s.skip(1), keep)
    } else {
        let n = prefix_len(s, keep) as int;
        seq![s.take(n)] + runs(s.skip(n), keep)
    }
}

#[via_fn]
proof fn runs_terminates<T>(s: Seq<T>, keep: spec_fn(T) -> bool) {
    lemma_prefix_len(s, keep);
}

/// Every run is non-empty and made of kept items only.
pub proof fn law_runs_shape<T>(s: Seq<T>, keep: spec_fn(T) -> bool)
    ensures
        forall|k: int|
            0 <= k < runs(s, keep).len() ==> {
                let run = #[trigger] runs(s, keep)[k];
                run.len() > 0 && forall|i: int| 0 <= i < run.len() ==> keep(#[trigger] run[i])
            },
    decreases s.len(),
{
    if s.len() == 0 {
    } else if !keep(s[0]) {
        law_runs_shape(s.skip(1), keep);
        assert(runs(s, keep) == runs(s.skip(1), keep));
    } else {
        lemma_prefix_len(s, keep);
        let n = prefix_len(s, keep) as int;
        law_runs_shape(s.skip(n), keep);
        assert(runs(s, keep) == seq![s.take(n)] + runs(s.skip(n), keep));
    }
}

/// A sequence without a kept item has no runs.
pub proof fn law_runs_of_separators<T>(s: Seq<T>, keep: spec_fn(T) -> bool)
    requires
        forall|i: int| 0 <= i < s.len() ==> !keep(#[trigger] s[i]),
    ensures
        runs(s, keep) == Seq::<Seq<T>>::empty(),
    decreases s.len(),
{
    if s.len() > 0 {
        law_runs_of_separators(s.skip(1), keep);
    }
}

/// A non-empty sequence of kept items is one run.
pub proof fn law_runs_of_one_run<T>(s: Seq<T>, keep: spec_fn(T) -> bool)
    requires
        s.len() > 0,
        forall|i: int| 0 <= i < s.len() ==> keep(#[trigger] s[i]),
    ensures
        runs(s, keep) == seq![s],
{
    lemma_prefix_len(s, keep);
    assert(s.take(s.len() as int) =~= s);
    assert(runs(s.skip(s.len() as int), keep) =~= Seq::<Seq<T>>::empty());
}

/// A sequence can be cut wherever no run is cut in two: the runs of the whole are the runs of
/// the two parts, one after the other.
pub proof fn law_runs_concat<T>(left: Seq<T>, right: Seq<T>, keep: spec_fn(T) -> bool)
    requires
        left.len() == 0 || right.len() == 0 || !keep(left.last()) || !keep(right[0]),
    ensures
        runs(left + right, keep) == runs(left, keep) + runs(right, keep),
    decreases left.len(),
{
    let whole = left + right;
    if left.len() > 0 {
        lemma_prefix_len(left, keep);
        lemma_prefix_len(whole, keep);
        let n = if keep(left[0]) {
            prefix_len(left, keep) as int
        } else {
            1
        };
        let rest = left.skip(n);
        assert(whole.take(n) =~= left.take(n));
        assert(whole.skip(n) =~= rest + right);
        law_runs_concat(rest, right, keep);
    }
}

} // verus!
