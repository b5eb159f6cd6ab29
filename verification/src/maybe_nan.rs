//! The maybe-NaN capability and the in-place NaN-removal partition.

use vstd::prelude::*;

verus! {

/// A value type that can have not-a-number values.
///
/// This is the value-level part of the capability: the NaN predicate and the
/// conversions between the maybe-NaN type and its not-NaN companion.
/// [`MaybeNan`] builds the partition operation on top of it.
pub trait MaybeNanValue: Copy + Sized {
    /// A type that is guaranteed not to be a NaN value.
    type NotNan;

    /// Whether the value is in the NaN (or absent) state.
    spec fn spec_is_nan(&self) -> bool;

    /// The not-NaN representation of a value; meaningful only when the value
    /// is not in the NaN state.
    spec fn spec_not_nan(&self) -> Self::NotNan;

    /// Whether a not-NaN representation is well formed, that is, stands for
    /// an actual non-NaN value.
    spec fn not_nan_wf(w: Self::NotNan) -> bool;

    /// The maybe-NaN value that a not-NaN representation stands for.
    spec fn spec_from_not_nan(w: Self::NotNan) -> Self;

    /// The canonical NaN (or absent) value of the type.
    spec fn spec_nan() -> Self;

    /// Law: converting a non-NaN value to its not-NaN representation and
    /// back reproduces the value exactly.
    proof fn lemma_round_trip(v: Self)
        requires
            !v.spec_is_nan(),
        ensures
            Self::not_nan_wf(v.spec_not_nan()),
            Self::spec_from_not_nan(v.spec_not_nan()) == v,
    ;

    /// Law: a well-formed not-NaN representation stands for a value that is
    /// not NaN, and converting that value reproduces the representation.
    proof fn lemma_from_not_nan_wf(w: Self::NotNan)
        requires
            Self::not_nan_wf(w),
        ensures
            !Self::spec_from_not_nan(w).spec_is_nan(),
            Self::spec_from_not_nan(w).spec_not_nan() == w,
    ;

    /// Law: the canonical NaN value is in the NaN state.
    proof fn lemma_nan_is_nan()
        ensures
            Self::spec_nan().spec_is_nan(),
    ;

    /// Returns `true` if the value is a NaN value.
    fn is_nan(&self) -> (r: bool)
        ensures
            r == self.spec_is_nan(),
    ;

    /// Tries to convert the value to `NotNan`.
    ///
    /// Returns `None` if the value is a NaN value.
    fn try_as_not_nan(&self) -> (r: Option<Self::NotNan>)
        ensures
            match r {
                Some(w) => !self.spec_is_nan() && w == self.spec_not_nan()
                    && Self::not_nan_wf(w),
                None => self.spec_is_nan(),
            },
    ;

    /// Converts the value.
    fn from_not_nan(value: Self::NotNan) -> (r: Self)
        ensures
            r == Self::spec_from_not_nan(value),
    ;

    /// Converts the value.
    ///
    /// If the value is `None`, the canonical NaN value is returned.
    fn from_not_nan_opt(value: Option<Self::NotNan>) -> (r: Self)
        ensures
            match value {
                Some(w) => r == Self::spec_from_not_nan(w),
                None => r == Self::spec_nan(),
            },
    ;

    /// Converts the value.
    ///
    /// If the value is `None`, the canonical NaN value is returned.
    fn from_not_nan_ref_opt(value: Option<&Self::NotNan>) -> (r: Self)
        ensures
            match value {
                Some(w) => r == Self::spec_from_not_nan(*w),
                None => r == Self::spec_nan(),
            },
    ;

}

/// A number type that can have not-a-number values, with the in-place
/// NaN-removal partition.
pub trait MaybeNan: MaybeNanValue {
    /// Moves the non-NaN elements of `v` to the front and returns them as
    /// not-NaN values.
    ///
    /// This modifies the input vector by moving elements as necessary: after
    /// the call the vector holds the same elements as before (as a
    /// multiset), its prefix holds exactly the non-NaN ones, and the result
    /// holds the not-NaN representation of that prefix, element by element.
    /// The final order of the elements is unspecified. However, this method
    /// is idempotent, and given the same input data, the result is always
    /// ordered the same way; an input without NaN values is left unchanged.
    fn remove_nan_mut(v: &mut Vec<Self>) -> (out: Vec<Self::NotNan>)
        ensures
            final(v)@.len() == old(v)@.len(),
            final(v)@.to_multiset() == old(v)@.to_multiset(),
            out@.len() == keep_not_nan(old(v)@).len(),
            forall|k: int|
                0 <= k < out@.len() ==> !(#[trigger] final(v)@[k]).spec_is_nan()
                    && out@[k] == final(v)@[k].spec_not_nan()
                    && Self::not_nan_wf(out@[k]),
            forall|k: int|
                out@.len() <= k < final(v)@.len()
                    ==> (#[trigger] final(v)@[k]).spec_is_nan(),
            from_not_nan_all::<Self>(out@).to_multiset() == keep_not_nan(old(v)@).to_multiset(),
            (forall|k: int| 0 <= k < old(v)@.len() ==> !(#[trigger] old(v)@[k]).spec_is_nan())
                ==> final(v)@ == old(v)@ && out@.len() == old(v)@.len(),
    {
        remove_nan_into(v)
    }
}

/// The predicate that keeps the non-NaN elements.
pub open spec fn not_nan_pred<A: MaybeNanValue>() -> spec_fn(A) -> bool {
    |x: A| !x.spec_is_nan()
}

/// The subsequence of the non-NaN elements of `s`, in order.
pub open spec fn keep_not_nan<A: MaybeNanValue>(s: Seq<A>) -> Seq<A> {
    s.filter(not_nan_pred::<A>())
}

/// The maybe-NaN values that a sequence of not-NaN representations stands
/// for, element by element.
pub open spec fn from_not_nan_all<A: MaybeNanValue>(ws: Seq<A::NotNan>) -> Seq<A> {
    ws.map_values(|w: A::NotNan| A::spec_from_not_nan(w))
}

/// Returns the number of non-NaN elements after moving them, in place, to
/// the front of `v`.
///
/// After the call the vector holds the same elements as before (as a
/// multiset); the prefix of the returned length holds exactly the non-NaN
/// elements and the rest of the vector holds exactly the NaN ones. An input
/// without NaN values is left unchanged.
pub fn remove_nan_mut<A: MaybeNanValue>(v: &mut Vec<A>) -> (n: usize)
    ensures
        n <= final(v)@.len(),
        final(v)@.len() == old(v)@.len(),
        final(v)@.to_multiset() == old(v)@.to_multiset(),
        forall|k: int| 0 <= k < n ==> !(#[trigger] final(v)@[k]).spec_is_nan(),
        forall|k: int| n <= k < final(v)@.len() ==> (#[trigger] final(v)@[k]).spec_is_nan(),
        n == keep_not_nan(old(v)@).len(),
        final(v)@.subrange(0, n as int).to_multiset() == keep_not_nan(old(v)@).to_multiset(),
        (forall|k: int| 0 <= k < old(v)@.len() ==> !(#[trigger] old(v)@[k]).spec_is_nan())
            ==> final(v)@ == old(v)@,
{
    let ghost orig: Seq<A> = v@;
    if v.len() == 0 {
        proof {
            lemma_keep_of_partitioned(v@, 0);
            lemma_filter_to_multiset(v@, not_nan_pred::<A>());
            assert(v@.subrange(0, 0) =~= keep_not_nan(v@));
        }
        return 0;
    }
    let mut i: usize = 0;
    let mut j: usize = v.len() - 1;
    loop
        invariant
            orig == old(v)@,
            v@.len() == orig.len(),
            v@.len() <= usize::MAX,
            0 < v@.len(),
            i <= j + 1,
            j < v@.len(),
            v@.to_multiset() == orig.to_multiset(),
            forall|k: int| 0 <= k < i ==> !(#[trigger] v@[k]).spec_is_nan(),
            forall|k: int| j < k < v@.len() ==> (#[trigger] v@[k]).spec_is_nan(),
            (forall|k: int| 0 <= k < orig.len() ==> !(#[trigger] orig[k]).spec_is_nan())
                ==> v@ == orig,
        decreases j + 1 - i,
    {
        while i <= j && !nan_at(v, i)
            invariant
                i <= j + 1,
                j < v@.len(),
                v@.len() <= usize::MAX,
                forall|k: int| 0 <= k < i ==> !(#[trigger] v@[k]).spec_is_nan(),
            decreases j + 1 - i,
        {
            i += 1;
        }
        let ghost j0 = j;
        while j > i && nan_at(v, j)
            invariant
                i <= j + 1,
                j <= j0,
                j < v@.len(),
                forall|k: int| j < k < v@.len() ==> (#[trigger] v@[k]).spec_is_nan(),
            decreases j,
        {
            j -= 1;
        }
        if i >= j {
            proof {
                assert(forall|k: int|
                    i <= k < v@.len() ==> (#[trigger] v@[k]).spec_is_nan());
                lemma_keep_of_partitioned(v@, i as int);
                lemma_filter_to_multiset(v@, not_nan_pred::<A>());
                lemma_filter_to_multiset(orig, not_nan_pred::<A>());
                broadcast use vstd::seq_lib::group_to_multiset_ensures;

                assert(keep_not_nan(v@).to_multiset() == keep_not_nan(orig).to_multiset());
                assert(keep_not_nan(orig).to_multiset().len() == keep_not_nan(orig).len());
                assert(v@.subrange(0, i as int).to_multiset().len() == i);
            }
            return i;
        } else {
            let ghost before: Seq<A> = v@;
            let a = v[i];
            let b = v[j];
            v[i] = b;
            v[j] = a;
            proof {
                broadcast use vstd::seq_lib::group_to_multiset_ensures;
                broadcast use vstd::multiset::group_multiset_axioms;

                assert(before.contains(a));
                assert(v@ =~= before.update(i as int, b).update(j as int, a));
                assert(v@.to_multiset() =~= before.to_multiset());
            }
            i += 1;
            j -= 1;
        }
    }
}

/// Moves the non-NaN elements of `v` to the front and returns them,
/// converted, as not-NaN values. The trait's `remove_nan_mut` delegates to
/// this function.
pub fn remove_nan_into<A: MaybeNanValue>(v: &mut Vec<A>) -> (out: Vec<A::NotNan>)
    ensures
        final(v)@.len() == old(v)@.len(),
        final(v)@.to_multiset() == old(v)@.to_multiset(),
        out@.len() == keep_not_nan(old(v)@).len(),
        forall|k: int|
            0 <= k < out@.len() ==> !(#[trigger] final(v)@[k]).spec_is_nan()
                && out@[k] == final(v)@[k].spec_not_nan()
                && A::not_nan_wf(out@[k]),
        forall|k: int|
            out@.len() <= k < final(v)@.len() ==> (#[trigger] final(v)@[k]).spec_is_nan(),
        from_not_nan_all::<A>(out@).to_multiset() == keep_not_nan(old(v)@).to_multiset(),
        (forall|k: int| 0 <= k < old(v)@.len() ==> !(#[trigger] old(v)@[k]).spec_is_nan())
            ==> final(v)@ == old(v)@ && out@.len() == old(v)@.len(),
{
    let ghost orig: Seq<A> = v@;
    let n = remove_nan_mut(v);
    let out = not_nan_prefix(v, n);
    proof {
        if forall|k: int| 0 <= k < orig.len() ==> !(#[trigger] orig[k]).spec_is_nan() {
            lemma_keep_of_partitioned(orig, orig.len() as int);
            assert(orig.subrange(0, orig.len() as int) =~= orig);
        }
        assert(from_not_nan_all::<A>(out@) =~= v@.subrange(0, n as int)) by {
            assert forall|k: int| 0 <= k < n implies from_not_nan_all::<A>(out@)[k]
                == v@.subrange(0, n as int)[k] by {
                A::lemma_round_trip(v@[k]);
            }
        }
    }
    out
}

/// Law: removing the NaN values is idempotent. The non-NaN elements of a
/// sequence contain no NaN value, so removing the NaN values from them
/// changes nothing; partitioning a partition's output therefore returns it
/// unchanged.
pub proof fn lemma_keep_not_nan_idempotent<A: MaybeNanValue>(s: Seq<A>)
    ensures
        keep_not_nan(keep_not_nan(s)) == keep_not_nan(s),
{
    lemma_keep_not_nan_excludes(s);
    lemma_filter_keeps_all(keep_not_nan(s), not_nan_pred::<A>());
}

/// Law: every element that survives the NaN removal is not a NaN value.
pub proof fn lemma_keep_not_nan_excludes<A: MaybeNanValue>(s: Seq<A>)
    ensures
        forall|k: int|
            0 <= k < keep_not_nan(s).len()
                ==> !(#[trigger] keep_not_nan(s)[k]).spec_is_nan(),
{
    broadcast use vstd::seq_lib::group_filter_ensures;

}

/// The non-NaN elements of a partitioned sequence are exactly its prefix.
pub proof fn lemma_keep_of_partitioned<A: MaybeNanValue>(s: Seq<A>, n: int)
    requires
        0 <= n <= s.len(),
        forall|k: int| 0 <= k < n ==> !(#[trigger] s[k]).spec_is_nan(),
        forall|k: int| n <= k < s.len() ==> (#[trigger] s[k]).spec_is_nan(),
    ensures
        keep_not_nan(s) == s.subrange(0, n),
{
    let pre = s.subrange(0, n);
    let suf = s.subrange(n, s.len() as int);
    assert(s =~= pre + suf);
    Seq::<A>::filter_distributes_over_add(pre, suf, not_nan_pred::<A>());
    lemma_filter_keeps_all(pre, not_nan_pred::<A>());
    lemma_filter_keeps_none(suf, not_nan_pred::<A>());
    assert(keep_not_nan(s) =~= pre);
}

/// Filtering a sequence whose elements all satisfy the predicate keeps it
/// unchanged.
proof fn lemma_filter_keeps_all<A>(s: Seq<A>, pred: spec_fn(A) -> bool)
    requires
        forall|k: int| 0 <= k < s.len() ==> pred(#[trigger] s[k]),
    ensures
        s.filter(pred) == s,
    decreases s.len(),
{
    reveal(Seq::filter);
    if s.len() == 0 {
        assert(s.filter(pred) =~= s);
    } else {
        lemma_filter_keeps_all(s.drop_last(), pred);
        assert(s.filter(pred) =~= s);
    }
}

/// Filtering a sequence none of whose elements satisfies the predicate
/// leaves nothing.
proof fn lemma_filter_keeps_none<A>(s: Seq<A>, pred: spec_fn(A) -> bool)
    requires
        forall|k: int| 0 <= k < s.len() ==> !pred(#[trigger] s[k]),
    ensures
        s.filter(pred) == Seq::<A>::empty(),
    decreases s.len(),
{
    reveal(Seq::filter);
    if s.len() == 0 {
        assert(s.filter(pred) =~= Seq::<A>::empty());
    } else {
        lemma_filter_keeps_none(s.drop_last(), pred);
        assert(s.filter(pred) =~= Seq::<A>::empty());
    }
}

/// Filtering a sequence and turning it into a multiset is the same as
/// turning it into a multiset and filtering that.
pub proof fn lemma_filter_to_multiset<A>(s: Seq<A>, pred: spec_fn(A) -> bool)
    ensures
        s.filter(pred).to_multiset() == s.to_multiset().filter(pred),
    decreases s.len(),
{
    broadcast use vstd::seq_lib::group_to_multiset_ensures;
    broadcast use vstd::multiset::group_multiset_axioms;

    reveal(Seq::filter);
    if s.len() == 0 {
        assert(s.filter(pred).to_multiset().len() == 0);
        assert(s.to_multiset().len() == 0);
        assert(s.filter(pred).to_multiset() =~= s.to_multiset().filter(pred)) by {
            assert forall|x: A|
                s.filter(pred).to_multiset().count(x)
                    == s.to_multiset().filter(pred).count(x) by {
                assert(s.filter(pred).to_multiset().count(x) == 0);
                assert(s.to_multiset().count(x) == 0);
            }
        }
    } else {
        let dl = s.drop_last();
        let last = s.last();
        lemma_filter_to_multiset(dl, pred);
        assert(s =~= dl.push(last));
        assert(s.to_multiset() == dl.push(last).to_multiset());
        assert(dl.push(last).to_multiset() =~= dl.to_multiset().insert(last));
        if pred(last) {
            assert(s.filter(pred) == dl.filter(pred).push(last));
            assert(s.filter(pred).to_multiset() =~= dl.filter(pred).to_multiset().insert(last));
        } else {
            assert(s.filter(pred) == dl.filter(pred));
        }
        assert(s.filter(pred).to_multiset() =~= s.to_multiset().filter(pred)) by {
            assert forall|x: A|
                s.filter(pred).to_multiset().count(x)
                    == s.to_multiset().filter(pred).count(x) by {
                assert(dl.filter(pred).to_multiset().count(x)
                    == dl.to_multiset().filter(pred).count(x));
            }
        }
    }
}

/// Converts the non-NaN prefix of `v` to not-NaN values, element by
/// element.
fn not_nan_prefix<A: MaybeNanValue>(v: &Vec<A>, n: usize) -> (out: Vec<A::NotNan>)
    requires
        n <= v@.len(),
        forall|k: int| 0 <= k < n ==> !(#[trigger] v@[k]).spec_is_nan(),
    ensures
        out@.len() == n,
        forall|k: int|
            0 <= k < n ==> #[trigger] out@[k] == v@[k].spec_not_nan()
                && A::not_nan_wf(out@[k]),
{
    let mut out: Vec<A::NotNan> = Vec::new();
    let mut idx: usize = 0;
    while idx < n
        invariant
            idx <= n,
            n <= v@.len(),
            forall|k: int| 0 <= k < n ==> !(#[trigger] v@[k]).spec_is_nan(),
            out@.len() == idx,
            forall|k: int|
                0 <= k < idx ==> #[trigger] out@[k] == v@[k].spec_not_nan()
                    && A::not_nan_wf(out@[k]),
        decreases n - idx,
    {
        let w = match v[idx].try_as_not_nan() {
            Some(w) => w,
            None => vstd::pervasive::unreached(),
        };
        out.push(w);
        idx += 1;
    }
    out
}

/// Whether the element of `v` at `k` is a NaN value.
fn nan_at<A: MaybeNanValue>(v: &Vec<A>, k: usize) -> (r: bool)
    requires
        k < v@.len(),
    ensures
        r == v@[k as int].spec_is_nan(),
{
    v[k].is_nan()
}

} // verus!
