//! A fold over only the non-NaN elements of a container.

use crate::maybe_nan::MaybeNanValue;
use crate::maybe_nan::keep_not_nan;
use vstd::prelude::*;

verus! {

/// The not-NaN representations of the non-NaN elements of `s`, in order.
pub open spec fn not_nan_values<A: MaybeNanValue>(s: Seq<A>) -> Seq<A::NotNan> {
    keep_not_nan(s).map_values(|a: A| a.spec_not_nan())
}

/// Whether `accs` is a chain of accumulators that witnesses a fold of `f`
/// over `elems`: it starts at `init`, ends at `result`, and every step is a
/// possible call of `f` on the previous accumulator and the next element.
pub open spec fn fold_chain<B, W, F: Fn(B, &W) -> B>(
    f: F,
    init: B,
    elems: Seq<W>,
    accs: Seq<B>,
    result: B,
) -> bool {
    &&& accs.len() == elems.len() + 1
    &&& accs[0] == init
    &&& accs[elems.len() as int] == result
    &&& forall|k: int|
        0 <= k < elems.len() ==> call_ensures(f, (accs[k], &elems[k]), accs[k + 1])
}

/// Whether `b` is an accumulator that a fold of `f` over `elems`, started
/// at `init`, can reach.
pub open spec fn fold_reachable<B, W, F: Fn(B, &W) -> B>(
    f: F,
    init: B,
    elems: Seq<W>,
    b: B,
) -> bool {
    exists|accs: Seq<B>| #[trigger] fold_chain(f, init, elems, accs, b)
}

/// Extension trait for containers of maybe-NaN elements, providing
/// NaN-related functionality.
pub trait MaybeNanExt<A: MaybeNanValue> {
    /// The elements of the container, in traversal order.
    spec fn elems(&self) -> Seq<A>;

    /// Traverse the non-NaN elements and apply a fold, returning the
    /// resulting value.
    ///
    /// NaN elements are skipped; the non-NaN ones are visited in traversal
    /// order, which is deterministic but otherwise unspecified. The result
    /// is reached from `init` by a chain of calls of `f`, one per non-NaN
    /// element; `f` must accept every element on every accumulator such a
    /// chain can reach.
    fn fold_skipnan<B, F: Fn(B, &A::NotNan) -> B>(&self, init: B, f: F) -> (r: B)
        requires
            forall|b: B, k: int|
                0 <= k < not_nan_values::<A>(self.elems()).len()
                    && fold_reachable(f, init, not_nan_values::<A>(self.elems()).subrange(0, k), b)
                    ==> #[trigger] call_requires(f, (b, &not_nan_values::<A>(self.elems())[k])),
        ensures
            fold_reachable(f, init, not_nan_values::<A>(self.elems()), r),
    ;
}

impl<A: MaybeNanValue> MaybeNanExt<A> for Vec<A> {
    open spec fn elems(&self) -> Seq<A> {
        self@
    }

    fn fold_skipnan<B, F: Fn(B, &A::NotNan) -> B>(&self, init: B, f: F) -> (r: B) {
        let ghost all: Seq<A::NotNan> = not_nan_values::<A>(self@);
        let ghost mut accs: Seq<B> = seq![init];
        let mut acc = init;
        let mut idx: usize = 0;
        proof {
            assert(self.elems() == self@);
            assert(not_nan_values::<A>(self.elems()) == all);
            assert(self@.subrange(0, 0) =~= Seq::<A>::empty());
            lemma_not_nan_values_empty::<A>();
        }
        while idx < self.len()
            invariant
                idx <= self@.len(),
                forall|b: B, k: int|
                    0 <= k < all.len() && fold_reachable(f, init, all.subrange(0, k), b)
                        ==> #[trigger] call_requires(f, (b, &all[k])),
                all == not_nan_values::<A>(self@),
                not_nan_values::<A>(self@.subrange(0, idx as int))
                    == all.subrange(0, accs.len() - 1),
                1 <= accs.len() <= all.len() + 1,
                accs[0] == init,
                accs[accs.len() - 1] == acc,
                forall|k: int|
                    0 <= k < accs.len() - 1
                        ==> call_ensures(f, (#[trigger] accs[k], &all[k]), accs[k + 1]),
            decreases self@.len() - idx,
        {
            let ghost prefix = self@.subrange(0, idx as int);
            proof {
                assert(self@.subrange(0, idx + 1) =~= prefix.push(self@[idx as int]));
                lemma_not_nan_values_push::<A>(prefix, self@[idx as int]);
                lemma_not_nan_values_prefix::<A>(self@, idx as int);
            }
            match self[idx].try_as_not_nan() {
                Some(w) => {
                    let ghost m: int = accs.len() - 1;
                    proof {
                        assert(fold_chain(f, init, all.subrange(0, m), accs, acc));
                        assert(call_requires(f, (acc, &all[m])));
                    }
                    let next = f(acc, &w);
                    acc = next;
                    proof {
                        accs = accs.push(acc);
                        assert(all.subrange(0, m + 1) =~= all.subrange(0, m).push(all[m]));
                    }
                }
                None => {
                }
            }
            idx += 1;
        }
        proof {
            assert(self@.subrange(0, self@.len() as int) =~= self@);
            assert(all.subrange(0, all.len() as int) =~= all);
            assert(accs.len() - 1 == all.len());
            assert(fold_chain(f, init, all, accs, acc));
            assert(fold_reachable(f, init, all, acc));
        }
        acc
    }
}

/// An empty container has no non-NaN values.
proof fn lemma_not_nan_values_empty<A: MaybeNanValue>()
    ensures
        not_nan_values::<A>(Seq::<A>::empty()) == Seq::<A::NotNan>::empty(),
{
    reveal(Seq::filter);
    assert(not_nan_values::<A>(Seq::<A>::empty()) =~= Seq::<A::NotNan>::empty());
}

/// Appending an element appends its not-NaN representation when it is not a
/// NaN and nothing otherwise.
proof fn lemma_not_nan_values_push<A: MaybeNanValue>(s: Seq<A>, x: A)
    ensures
        !x.spec_is_nan() ==> not_nan_values::<A>(s.push(x))
            == not_nan_values::<A>(s).push(x.spec_not_nan()),
        x.spec_is_nan() ==> not_nan_values::<A>(s.push(x)) == not_nan_values::<A>(s),
{
    reveal(Seq::filter);
    let pred = crate::maybe_nan::not_nan_pred::<A>();
    assert(s.push(x).drop_last() =~= s);
    assert(s.push(x).last() == x);
    if pred(x) {
        assert(s.push(x).filter(pred) == s.filter(pred).push(x));
        assert(not_nan_values::<A>(s.push(x))
            =~= not_nan_values::<A>(s).push(x.spec_not_nan()));
    } else {
        assert(s.push(x).filter(pred) == s.filter(pred));
        assert(not_nan_values::<A>(s.push(x)) =~= not_nan_values::<A>(s));
    }
}

/// The not-NaN values of a prefix are a prefix of the not-NaN values, and
/// the next non-NaN element is the next not-NaN value.
proof fn lemma_not_nan_values_prefix<A: MaybeNanValue>(s: Seq<A>, idx: int)
    requires
        0 <= idx < s.len(),
    ensures
        ({
            let p = not_nan_values::<A>(s.subrange(0, idx)).len();
            &&& p <= not_nan_values::<A>(s).len()
            &&& not_nan_values::<A>(s.subrange(0, idx))
                == not_nan_values::<A>(s).subrange(0, p as int)
            &&& !s[idx].spec_is_nan() ==> p < not_nan_values::<A>(s).len()
                && not_nan_values::<A>(s)[p as int] == s[idx].spec_not_nan()
        }),
    decreases s.len() - idx,
{
    let pre = s.subrange(0, idx);
    let p = not_nan_values::<A>(pre).len();
    if idx + 1 == s.len() {
        assert(pre.push(s[idx]) =~= s);
        lemma_not_nan_values_push::<A>(pre, s[idx]);
        assert(not_nan_values::<A>(pre)
            =~= not_nan_values::<A>(s).subrange(0, p as int));
    } else {
        lemma_not_nan_values_prefix::<A>(s, idx + 1);
        let pre1 = s.subrange(0, idx + 1);
        assert(pre1 =~= pre.push(s[idx]));
        lemma_not_nan_values_push::<A>(pre, s[idx]);
        let p1 = not_nan_values::<A>(pre1).len();
        assert(not_nan_values::<A>(pre1)
            == not_nan_values::<A>(s).subrange(0, p1 as int));
        if !s[idx].spec_is_nan() {
            assert(not_nan_values::<A>(pre)
                =~= not_nan_values::<A>(s).subrange(0, p as int));
            assert(not_nan_values::<A>(s)[p as int]
                == not_nan_values::<A>(pre1)[p as int]);
        } else {
            assert(not_nan_values::<A>(pre)
                =~= not_nan_values::<A>(s).subrange(0, p as int));
        }
    }
}

} // verus!
