//! The sparse vector: unique, ascending term ids with their frequencies.

use vstd::prelude::*;

verus! {

/// Sum of a sequence of frequencies, as a mathematical integer.
pub open spec fn sum_of(values: Seq<u32>) -> int
    decreases values.len(),
{
    if values.len() == 0 {
        0
    } else {
        sum_of(values.drop_last()) + values.last() as int
    }
}

/// Strictly ascending: sorted with no duplicates.
pub open spec fn strictly_ascending(indexes: Seq<u32>) -> bool {
    forall|i: int, j: int| 0 <= i < j < indexes.len() ==> indexes[i] < indexes[j]
}

/// The four construction invariants of a sparse vector.
pub open spec fn valid_vector(doc_len: u32, indexes: Seq<u32>, values: Seq<u32>) -> bool {
    &&& indexes.len() == values.len()
    &&& indexes.len() <= u32::MAX
    &&& strictly_ascending(indexes)
    &&& sum_of(values) == doc_len as int
}

/// A read-only sparse vector over slices owned by the caller.
#[derive(Debug, Clone, Copy)]
pub struct Bm25VectorBorrowed<'a> {
    doc_len: u32,
    indexes: &'a [u32],
    values: &'a [u32],
}

impl<'a> Bm25VectorBorrowed<'a> {
    #[verifier::type_invariant]
    spec fn well_formed(self) -> bool {
        valid_vector(self.doc_len, self.indexes@, self.values@)
    }

    pub closed spec fn spec_doc_len(self) -> u32 {
        self.doc_len
    }

    pub closed spec fn spec_indexes(self) -> Seq<u32> {
        self.indexes@
    }

    pub closed spec fn spec_values(self) -> Seq<u32> {
        self.values@
    }

    /// Checks the four invariants and builds the view, or returns `None`.
    pub fn new_checked(doc_len: u32, indexes: &'a [u32], values: &'a [u32]) -> (r: Option<Self>)
        ensures
            r is Some <==> valid_vector(doc_len, indexes@, values@),
            r matches Some(v) ==> v.spec_doc_len() == doc_len && v.spec_indexes() == indexes@
                && v.spec_values() == values@,
    {
        if indexes.len() != values.len() {
            return None;
        }
        if indexes.len() > u32::MAX as usize {
            return None;
        }
        let n = indexes.len();
        let mut i: usize = 1;
        while i < n
            invariant
                1 <= i,
                n == indexes@.len(),
                forall|a: int, b: int| 0 <= a < b < i && b < n ==> indexes@[a] < indexes@[b],
            decreases n - i,
        {
            if indexes[i] <= indexes[i - 1] {
                return None;
            }
            i = i + 1;
        }
        let mut total: u64 = 0;
        let mut k: usize = 0;
        while k < n
            invariant
                k <= n,
                n == values@.len(),
                total as int == sum_of(values@.subrange(0, k as int)),
                total <= doc_len,
            decreases n - k,
        {
            assert(values@.subrange(0, k as int + 1).drop_last() =~= values@.subrange(0, k as int));
            total = total + values[k] as u64;
            if total > doc_len as u64 {
                proof {
                    lemma_sum_prefix_le(values@, k as int + 1);
                }
                return None;
            }
            k = k + 1;
        }
        assert(values@.subrange(0, n as int) =~= values@);
        if total != doc_len as u64 {
            return None;
        }
        Some(Bm25VectorBorrowed { doc_len, indexes, values })
    }

    /// Builds the view from parts that already satisfy the invariants.
    pub fn new_unchecked(doc_len: u32, indexes: &'a [u32], values: &'a [u32]) -> (r: Self)
        requires
            valid_vector(doc_len, indexes@, values@),
        ensures
            r.spec_doc_len() == doc_len,
            r.spec_indexes() == indexes@,
            r.spec_values() == values@,
    {
        Bm25VectorBorrowed { doc_len, indexes, values }
    }

    pub fn is_empty(&self) -> (r: bool)
        ensures
            r == (self.spec_indexes().len() == 0),
    {
        self.indexes.len() == 0
    }

    pub fn len(&self) -> (r: u32)
        ensures
            r as int == self.spec_indexes().len(),
    {
        proof {
            use_type_invariant(*self);
        }
        self.indexes.len() as u32
    }

    pub fn doc_len(&self) -> (r: u32)
        ensures
            r == self.spec_doc_len(),
    {
        self.doc_len
    }

    pub fn indexes(&self) -> (r: &'a [u32])
        ensures
            r@ == self.spec_indexes(),
            valid_vector(self.spec_doc_len(), self.spec_indexes(), self.spec_values()),
    {
        proof {
            use_type_invariant(*self);
        }
        self.indexes
    }

    pub fn values(&self) -> (r: &'a [u32])
        ensures
            r@ == self.spec_values(),
            valid_vector(self.spec_doc_len(), self.spec_indexes(), self.spec_values()),
    {
        proof {
            use_type_invariant(*self);
        }
        self.values
    }
}

/// Ids of a valid vector ascend strictly, position by position.
pub proof fn lemma_indexes_ascend(doc_len: u32, indexes: Seq<u32>, values: Seq<u32>)
    requires
        valid_vector(doc_len, indexes, values),
    ensures
        forall|i: int| 0 <= i < indexes.len() - 1 ==> #[trigger] indexes[i] < indexes[i + 1],
{
}

/// The frequencies of a valid vector add up to its document length.
pub proof fn lemma_values_sum_to_doc_len(doc_len: u32, indexes: Seq<u32>, values: Seq<u32>)
    requires
        valid_vector(doc_len, indexes, values),
    ensures
        sum_of(values) == doc_len as int,
{
}

/// How many times `k` occurs in `ids`.
pub open spec fn occurrences(ids: Seq<u32>, k: u32) -> nat
    decreases ids.len(),
{
    if ids.len() == 0 {
        0
    } else {
        occurrences(ids.drop_last(), k) + if ids.last() == k {
            1nat
        } else {
            0nat
        }
    }
}

/// `indexes` and `values` hold exactly the ids of `ids`, each with the number
/// of times it occurs there.
pub open spec fn counts_ids(ids: Seq<u32>, indexes: Seq<u32>, values: Seq<u32>) -> bool {
    &&& indexes.len() == values.len()
    &&& forall|j: int| 0 <= j < indexes.len() ==> #[trigger] values[j] as int == occurrences(ids, indexes[j])
    &&& forall|j: int| 0 <= j < values.len() ==> #[trigger] values[j] > 0
    &&& forall|k: u32| occurrences(ids, k) > 0 ==> #[trigger] indexes.contains(k)
}

proof fn lemma_occurrences_push(ids: Seq<u32>, i: int, k: u32)
    requires
        0 <= i < ids.len(),
    ensures
        occurrences(ids.subrange(0, i + 1), k) == occurrences(ids.subrange(0, i), k) + if ids[i]
            == k {
            1nat
        } else {
            0nat
        },
{
    assert(ids.subrange(0, i + 1).drop_last() =~= ids.subrange(0, i));
}

proof fn lemma_occurrences_le_len(ids: Seq<u32>, k: u32)
    ensures
        occurrences(ids, k) <= ids.len(),
    decreases ids.len(),
{
    if ids.len() > 0 {
        lemma_occurrences_le_len(ids.drop_last(), k);
    }
}

proof fn lemma_sum_update(values: Seq<u32>, p: int, v: u32)
    requires
        0 <= p < values.len(),
    ensures
        sum_of(values.update(p, v)) == sum_of(values) - values[p] + v,
    decreases values.len(),
{
    if p < values.len() - 1 {
        lemma_sum_update(values.drop_last(), p, v);
        assert(values.update(p, v).drop_last() =~= values.drop_last().update(p, v));
    } else {
        assert(values.update(p, v).drop_last() =~= values.drop_last());
    }
}

proof fn lemma_sum_insert(values: Seq<u32>, p: int, v: u32)
    requires
        0 <= p <= values.len(),
    ensures
        sum_of(values.insert(p, v)) == sum_of(values) + v,
    decreases values.len(),
{
    if p < values.len() {
        lemma_sum_insert(values.drop_last(), p, v);
        assert(values.insert(p, v).drop_last() =~= values.drop_last().insert(p, v));
    } else {
        assert(values.insert(p, v).drop_last() =~= values);
    }
}

/// Counts the ids: the distinct ids in ascending order, each with its number of
/// occurrences, and the total count.
pub fn count_ids(ids: &[u32]) -> (r: (u32, Vec<u32>, Vec<u32>))
    requires
        ids@.len() <= u32::MAX,
    ensures
        valid_vector(r.0, r.1@, r.2@),
        counts_ids(ids@, r.1@, r.2@),
        r.0 as int == ids@.len(),
{
    let n = ids.len();
    let mut indexes: Vec<u32> = Vec::new();
    let mut values: Vec<u32> = Vec::new();
    let mut i: usize = 0;
    while i < n
        invariant
            i <= n,
            n == ids@.len(),
            n <= u32::MAX,
            indexes@.len() <= i,
            strictly_ascending(indexes@),
            counts_ids(ids@.subrange(0, i as int), indexes@, values@),
            sum_of(values@) == i as int,
        decreases n - i,
    {
        let id = ids[i];
        let ghost before = ids@.subrange(0, i as int);
        let ghost after = ids@.subrange(0, i as int + 1);
        proof {
            assert forall|k: u32| occurrences(after, k) == occurrences(before, k) + if id == k {
                1nat
            } else {
                0nat
            } by {
                lemma_occurrences_push(ids@, i as int, k);
            }
        }
        let len = indexes.len();
        let mut p: usize = 0;
        while p < len && indexes[p] < id
            invariant
                p <= len,
                len == indexes@.len(),
                forall|q: int| 0 <= q < p ==> indexes@[q] < id,
            decreases len - p,
        {
            p = p + 1;
        }
        if p < len && indexes[p] == id {
            let c = values[p];
            proof {
                lemma_occurrences_le_len(before, id);
                lemma_sum_update(values@, p as int, (c + 1) as u32);
            }
            values.set(p, c + 1);
            proof {
                assert forall|k: u32| occurrences(after, k) > 0 implies #[trigger] indexes@.contains(k) by {
                    if k != id {
                        assert(occurrences(before, k) > 0);
                    } else {
                        assert(indexes@[p as int] == k);
                    }
                }
            }
        } else {
            let ghost old_indexes = indexes@;
            let ghost old_values = values@;
            proof {
                if (p < len) {
                    assert(indexes@[p as int] > id);
                }
                lemma_sum_insert(values@, p as int, 1);
                assert(!old_indexes.contains(id));
                assert(occurrences(before, id) == 0);
            }
            indexes.insert(p, id);
            values.insert(p, 1);
            proof {
                assert forall|a: int, b: int| 0 <= a < b < indexes@.len() implies indexes@[a] < indexes@[b] by {
                    if b < p {
                    } else if b == p {
                    } else if a < p {
                        assert(indexes@[b] == old_indexes[b - 1]);
                        if p < len {
                            assert(old_indexes[p as int] <= old_indexes[b - 1]);
                        }
                    } else if a == p {
                        assert(old_indexes[p as int] <= old_indexes[b - 1]);
                    } else {
                    }
                }
                assert forall|j: int| 0 <= j < indexes@.len() implies #[trigger] values@[j] as int == occurrences(after, indexes@[j]) by {
                    if j < p {
                        assert(old_indexes[j] != id);
                    } else if j > p {
                        assert(indexes@[j] == old_indexes[j - 1]);
                        assert(old_indexes.contains(old_indexes[j - 1]));
                    }
                }
                assert forall|k: u32| occurrences(after, k) > 0 implies #[trigger] indexes@.contains(k) by {
                    if k != id {
                        assert(occurrences(before, k) > 0);
                        assert(old_indexes.contains(k));
                        let q = choose|q: int| 0 <= q < old_indexes.len() && old_indexes[q] == k;
                        if q < p {
                            assert(indexes@[q] == k);
                        } else {
                            assert(indexes@[q + 1] == k);
                        }
                    } else {
                        assert(indexes@[p as int] == k);
                    }
                }
            }
        }
        i = i + 1;
    }
    assert(ids@.subrange(0, n as int) =~= ids@);
    (n as u32, indexes, values)
}

proof fn lemma_occurrences_contains(ids: Seq<u32>, k: u32)
    ensures
        occurrences(ids, k) > 0 <==> ids.contains(k),
    decreases ids.len(),
{
    if ids.len() > 0 {
        lemma_occurrences_contains(ids.drop_last(), k);
        if ids.drop_last().contains(k) {
            let q = choose|q: int| 0 <= q < ids.drop_last().len() && ids.drop_last()[q] == k;
            assert(ids[q] == k);
        }
        if ids.contains(k) && ids.last() != k {
            let q = choose|q: int| 0 <= q < ids.len() && ids[q] == k;
            assert(ids.drop_last()[q] == k);
        }
    }
}

/// The counted ids are exactly the distinct ids of the input.
pub proof fn lemma_distinct_count(ids: Seq<u32>, indexes: Seq<u32>, values: Seq<u32>)
    requires
        counts_ids(ids, indexes, values),
        strictly_ascending(indexes),
    ensures
        indexes.to_set() == ids.to_set(),
        indexes.len() == ids.to_set().len(),
{
    assert forall|k: u32| indexes.to_set().contains(k) == ids.to_set().contains(k) by {
        lemma_occurrences_contains(ids, k);
        if indexes.contains(k) {
            let j = choose|j: int| 0 <= j < indexes.len() && indexes[j] == k;
            assert(values[j] > 0);
        }
    }
    assert(indexes.to_set() =~= ids.to_set());
    assert(indexes.no_duplicates()) by {
        assert forall|i: int, j: int|
            0 <= i < indexes.len() && 0 <= j < indexes.len() && i != j implies indexes[i]
            != indexes[j] by {
            if i < j {
            } else {
            }
        }
    }
    indexes.unique_seq_to_set();
}

/// A prefix of the frequencies never sums to more than the whole.
pub proof fn lemma_sum_prefix_le(values: Seq<u32>, k: int)
    requires
        0 <= k <= values.len(),
    ensures
        sum_of(values.subrange(0, k)) <= sum_of(values),
    decreases values.len(),
{
    if k < values.len() {
        lemma_sum_prefix_le(values.drop_last(), k);
        assert(values.drop_last().subrange(0, k) =~= values.subrange(0, k));
    } else {
        assert(values.subrange(0, k) =~= values);
    }
}

} // verus!
