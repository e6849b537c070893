use vstd::prelude::*;

verus! {

/// The index reached from `start` after `steps` round-robin increments over `n` slots.
pub open spec fn advanced(start: int, steps: nat, n: int) -> int
    decreases steps,
{
    if steps == 0 {
        start
    } else {
        (advanced(start, (steps - 1) as nat, n) + 1) % n
    }
}

/// Calculates the next index into an array such that every index is visited in an infinite loop.
#[derive(Copy, Clone)]
pub struct ArrayIndexer<const N: usize> {
    index: usize,
}

impl<const N: usize> ArrayIndexer<N> {
    #[verifier::type_invariant]
    spec fn inv(self) -> bool {
        self.index < N
    }

    /// The index this indexer currently points at.
    pub closed spec fn position(self) -> int {
        self.index as int
    }

    /// Creates a new indexer starting at the given index.
    pub fn new(starting_index: usize) -> (r: ArrayIndexer<N>)
        requires
            starting_index < N,
        ensures
            r.position() == starting_index,
    {
        ArrayIndexer { index: starting_index }
    }

    /// The current index to use when accessing an array in a round robin fashion.
    pub fn index(&self) -> (r: usize)
        ensures
            r == self.position(),
            r < N,
    {
        proof {
            use_type_invariant(self);
        }
        self.index
    }

    /// Increment the index to get the next index to use when accessing an array with round robin.
    pub fn increment(&self) -> (r: ArrayIndexer<N>)
        ensures
            r.position() == (self.position() + 1) % (N as int),
    {
        proof {
            use_type_invariant(self);
        }
        ArrayIndexer { index: (self.index + 1) % N }
    }
}

/// After `k` increments from `start`, the indexer points at `(start + k) % n`; in particular
/// after `n` increments it is back at `start`, and every index below `n` is reached within
/// `n` increments.
pub proof fn lemma_round_robin_cycle(start: int, k: nat, n: int)
    requires
        0 <= start < n,
    ensures
        advanced(start, k, n) == (start + k) % n,
        advanced(start, n as nat, n) == start,
        forall|i: int| 0 <= i < n ==> #[trigger] advanced(start, ((i - start + n) % n) as nat, n) == i,
{
    lemma_advanced_closed(start, k, n);
    assert(advanced(start, n as nat, n) == start) by {
        lemma_advanced_closed(start, n as nat, n);
        vstd::arithmetic::div_mod::lemma_mod_add_multiples_vanish(start, n);
        vstd::arithmetic::div_mod::lemma_small_mod(start as nat, n as nat);
    }
    assert forall|i: int| 0 <= i < n implies #[trigger] advanced(start, ((i - start + n) % n) as nat, n) == i by {
        let steps = (i - start + n) % n;
        assert(0 <= steps < n) by {
            vstd::arithmetic::div_mod::lemma_mod_bound(i - start + n, n);
        }
        lemma_advanced_closed(start, steps as nat, n);
        vstd::arithmetic::div_mod::lemma_add_mod_noop_right(start, i - start + n, n);
        vstd::arithmetic::div_mod::lemma_mod_add_multiples_vanish(i, n);
        vstd::arithmetic::div_mod::lemma_small_mod(i as nat, n as nat);
    }
}

proof fn lemma_advanced_closed(start: int, k: nat, n: int)
    requires
        0 <= start < n,
    ensures
        advanced(start, k, n) == (start + k) % n,
    decreases k,
{
    if k > 0 {
        lemma_advanced_closed(start, (k - 1) as nat, n);
        let prev = advanced(start, (k - 1) as nat, n);
        assert(prev == (start + k - 1) % n);
        vstd::arithmetic::div_mod::lemma_add_mod_noop_right(1, start + k - 1, n);
        assert((1 + (start + k - 1) % n) % n == (1 + (start + k - 1)) % n);
        assert(advanced(start, k, n) == (prev + 1) % n);
        assert(prev + 1 == 1 + (start + k - 1) % n);
        assert(1 + (start + k - 1) == start + k);
    } else {
        vstd::arithmetic::div_mod::lemma_small_mod(start as nat, n as nat);
    }
}

} // verus!
