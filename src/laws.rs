//! Laws of the filter, stated over the bit sequences that its operations
//! produce. A key is represented by its digests, as `insert_digests` and
//! `check_digests` take them.
use crate::filter::{all_positions_set, position, selects, with_positions};
use vstd::prelude::*;

verus! {

/// The bits after inserting each key of `keys`, in order, starting from `bits`.
pub open spec fn insert_all(bits: Seq<bool>, keys: Seq<Seq<u64>>) -> Seq<bool>
    decreases keys.len(),
{
    if keys.len() == 0 {
        bits
    } else {
        with_positions(insert_all(bits, keys.drop_last()), keys.last())
    }
}

/// Whether some digest of some key of `keys` selects bit `j` of `n` bits.
pub open spec fn covered(n: nat, keys: Seq<Seq<u64>>, j: int) -> bool {
    exists|a: int| 0 <= a < keys.len() && #[trigger] selects(keys[a], n, j)
}

/// Right after a key is inserted, every position it selects is set.
pub proof fn lemma_inserted_is_set(bits: Seq<bool>, digests: Seq<u64>)
    requires
        bits.len() > 0,
    ensures
        all_positions_set(with_positions(bits, digests), digests),
{
    let n = bits.len();
    assert forall|i: int| 0 <= i < digests.len() implies with_positions(bits, digests)[position(
        #[trigger] digests[i],
        n,
    )] by {
        assert(selects(digests, n, position(digests[i], n)));
    }
}

/// Monotonicity: inserting any sequence of keys keeps the number of bits,
/// never clears a set bit, and never turns a positive query negative.
pub proof fn lemma_monotone(bits: Seq<bool>, keys: Seq<Seq<u64>>, probe: Seq<u64>)
    requires
        bits.len() > 0,
    ensures
        insert_all(bits, keys).len() == bits.len(),
        forall|j: int| 0 <= j < bits.len() && bits[j] ==> #[trigger] insert_all(bits, keys)[j],
        all_positions_set(bits, probe) ==> all_positions_set(insert_all(bits, keys), probe),
    decreases keys.len(),
{
    if keys.len() > 0 {
        lemma_monotone(bits, keys.drop_last(), probe);
        let prev = insert_all(bits, keys.drop_last());
        if all_positions_set(bits, probe) {
            assert forall|i: int| 0 <= i < probe.len() implies insert_all(bits, keys)[position(
                #[trigger] probe[i],
                bits.len(),
            )] by {
                assert(prev[position(probe[i], prev.len())]);
            }
        }
    }
}

/// No false negatives: a key that was inserted is reported present right
/// after, and stays so whatever keys are inserted later.
pub proof fn lemma_no_false_negatives(bits: Seq<bool>, digests: Seq<u64>, later: Seq<Seq<u64>>)
    requires
        bits.len() > 0,
    ensures
        all_positions_set(with_positions(bits, digests), digests),
        all_positions_set(insert_all(with_positions(bits, digests), later), digests),
{
    lemma_inserted_is_set(bits, digests);
    lemma_monotone(with_positions(bits, digests), later, digests);
}

/// Determinism: starting from `n` clear bits, the bits after inserting `keys`
/// are fixed by `n` and the keys' digests alone: a bit is set exactly when a
/// digest of some key selects it. Two fresh filters of one size, given the
/// same keys, hold the same bits.
pub proof fn lemma_deterministic(n: nat, keys: Seq<Seq<u64>>)
    requires
        n > 0,
    ensures
        insert_all(Seq::new(n, |j: int| false), keys) == Seq::new(n, |j: int| covered(n, keys, j)),
    decreases keys.len(),
{
    let fresh = Seq::new(n, |j: int| false);
    if keys.len() > 0 {
        let front = keys.drop_last();
        lemma_deterministic(n, front);
        lemma_monotone(fresh, front, seq![]);
        assert forall|j: int| 0 <= j < n implies #[trigger] insert_all(fresh, keys)[j] == covered(
            n,
            keys,
            j,
        ) by {
            if covered(n, front, j) {
                let a = choose|a: int| 0 <= a < front.len() && #[trigger] selects(front[a], n, j);
                assert(keys[a] == front[a]);
            }
            if selects(keys.last(), n, j) {
                assert(selects(keys[keys.len() - 1], n, j));
            }
            if covered(n, keys, j) {
                let a = choose|a: int| 0 <= a < keys.len() && #[trigger] selects(keys[a], n, j);
                if a < keys.len() - 1 {
                    assert(front[a] == keys[a]);
                }
            }
        }
        assert(insert_all(fresh, keys) =~= Seq::new(n, |j: int| covered(n, keys, j)));
    } else {
        assert(fresh =~= Seq::new(n, |j: int| covered(n, keys, j)));
    }
}

/// Idempotence: inserting a key a second time leaves the bits as they were
/// after the first time.
pub proof fn lemma_idempotent(bits: Seq<bool>, digests: Seq<u64>)
    ensures
        with_positions(with_positions(bits, digests), digests) == with_positions(bits, digests),
{
    assert(with_positions(with_positions(bits, digests), digests) =~= with_positions(
        bits,
        digests,
    ));
}

} // verus!
