//! The order in which an all-pairs pass meets the entities.
//!
//! Among `n` entities the pass takes `i` from `0` up and, for each `i`, `j`
//! from `0` up to `i`: the pairs `(1, 0), (2, 0), (2, 1), (3, 0), ...`. Every
//! unordered pair of distinct entities comes up once, with the larger index
//! first, and no entity is paired with itself. [`Pairs`] walks that order one
//! pair at a time, so that the caller can do its own work between two pairs.

use vstd::prelude::*;

verus! {

/// The number of unordered pairs among `n` entities, counted up one entity at
/// a time: the `n`-th entity adds a pair with each of the `n - 1` before it.
pub open spec fn pair_count(n: nat) -> nat
    decreases n,
{
    if n == 0 {
        0
    } else {
        pair_count((n - 1) as nat) + (n - 1) as nat
    }
}

/// The position of the pair `(i, j)` in the pass: all pairs among the first
/// `i` entities come before it, then the pairs of `i` with those below `j`.
pub open spec fn rank(i: nat, j: nat) -> nat {
    pair_count(i) + j
}

/// The pair that follows `(i, j)` in the pass.
pub open spec fn successor(pair: (nat, nat)) -> (nat, nat) {
    if pair.1 + 1 < pair.0 {
        (pair.0, pair.1 + 1)
    } else {
        (pair.0 + 1, 0)
    }
}

/// The pair at position `k` of the pass.
pub open spec fn pair_at(k: nat) -> (nat, nat)
    decreases k,
{
    if k == 0 {
        (1, 0)
    } else {
        successor(pair_at((k - 1) as nat))
    }
}

/// `pair_count` in closed form: twice the count is `n * (n - 1)`.
pub proof fn lemma_pair_count(n: nat)
    ensures
        2 * pair_count(n) == n * (n - 1),
    decreases n,
{
    if n > 0 {
        let m = (n - 1) as nat;
        lemma_pair_count(m);
        assert(n * (n - 1) == m * (m - 1) + 2 * m) by (nonlinear_arith)
            requires
                n == m + 1,
        ;
    } else {
        assert(n * (n - 1) == 0) by (nonlinear_arith)
            requires
                n == 0,
        ;
    }
}

/// More entities never make fewer pairs.
pub proof fn lemma_pair_count_monotone(m: nat, n: nat)
    requires
        m <= n,
    ensures
        pair_count(m) <= pair_count(n),
    decreases n,
{
    if m < n {
        lemma_pair_count_monotone(m, (n - 1) as nat);
    }
}

/// Every position holds a pair with the larger index first, and the pair
/// tells its position. So no pair comes up at two positions, and no entity
/// meets itself.
pub proof fn lemma_pair_at_ordered(k: nat)
    ensures
        pair_at(k).1 < pair_at(k).0,
        rank(pair_at(k).0, pair_at(k).1) == k,
    decreases k,
{
    if k > 0 {
        let before = pair_at((k - 1) as nat);
        lemma_pair_at_ordered((k - 1) as nat);
        assert(pair_count(before.0 + 1) == pair_count(before.0) + before.0);
    } else {
        reveal_with_fuel(pair_count, 2);
    }
}

/// Every pair with the larger index first comes up, at the position that
/// `rank` names.
pub proof fn lemma_pair_at_rank(i: nat, j: nat)
    requires
        j < i,
    ensures
        pair_at(rank(i, j)) == (i, j),
    decreases i, j,
{
    if j > 0 {
        lemma_pair_at_rank(i, (j - 1) as nat);
        assert(pair_at(rank(i, j)) == successor(pair_at(rank(i, (j - 1) as nat))));
    } else if i > 1 {
        lemma_pair_at_rank((i - 1) as nat, (i - 2) as nat);
        assert(rank(i, 0) == rank((i - 1) as nat, (i - 2) as nat) + 1);
        assert(pair_at(rank(i, 0)) == successor(pair_at(rank((i - 1) as nat, (i - 2) as nat))));
    } else {
        reveal_with_fuel(pair_count, 2);
    }
}

/// The first `pair_count(n)` positions hold the pairs among the first `n`
/// entities, and no later position does.
pub proof fn lemma_pair_in_range(k: nat, n: nat)
    ensures
        k < pair_count(n) <==> pair_at(k).0 < n,
{
    let (i, j) = pair_at(k);
    lemma_pair_at_ordered(k);
    if i < n {
        lemma_pair_count_monotone(i + 1, n);
    } else {
        lemma_pair_count_monotone(n, i);
    }
}

/// A walk over the pairs among a fixed number of entities.
pub struct Pairs {
    n: usize,
    i: usize,
    j: usize,
}

impl Pairs {
    /// What holds of every walk: it stands at a pair, or behind the last.
    #[verifier::type_invariant]
    pub closed spec fn inv(self) -> bool {
        &&& self.j < self.i
        &&& self.i < self.n || (self.j == 0 && (self.i == self.n || (self.n == 0 && self.i
            == 1)))
    }

    /// The number of entities whose pairs are walked.
    pub closed spec fn total(self) -> nat {
        self.n as nat
    }

    /// How many pairs the walk has handed out.
    pub closed spec fn position(self) -> nat {
        rank(self.i as nat, self.j as nat)
    }

    /// A walk never stands beyond its last pair.
    pub proof fn lemma_position(self)
        requires
            self.inv(),
        ensures
            self.position() <= pair_count(self.total()),
    {
        reveal_with_fuel(pair_count, 2);
        if self.i < self.n {
            lemma_pair_count_monotone((self.i + 1) as nat, self.n as nat);
        }
    }

    /// A walk over the pairs among `n` entities, before its first pair.
    pub fn new(n: usize) -> (walk: Pairs)
        ensures
            walk.total() == n,
            walk.position() == 0,
    {
        proof {
            reveal_with_fuel(pair_count, 2);
        }
        Pairs { n, i: 1, j: 0 }
    }

    /// Hands out the next pair, larger index first, or `None` once all
    /// `pair_count(total)` pairs are out; from then on the walk stays put.
    pub fn next(&mut self) -> (pair: Option<(usize, usize)>)
        ensures
            final(self).total() == old(self).total(),
            old(self).position() <= pair_count(old(self).total()),
            pair is Some <==> old(self).position() < pair_count(old(self).total()),
            match pair {
                Some((i, j)) => {
                    &&& (i as nat, j as nat) == pair_at(old(self).position())
                    &&& j < i < old(self).total()
                    &&& final(self).position() == old(self).position() + 1
                },
                None => final(self).position() == old(self).position(),
            },
    {
        proof {
            use_type_invariant(&*self);
            reveal_with_fuel(pair_count, 2);
            lemma_pair_at_rank(self.i as nat, self.j as nat);
            lemma_pair_in_range(self.position(), self.n as nat);
            if self.i < self.n {
                lemma_pair_count_monotone((self.i + 1) as nat, self.n as nat);
            }
        }
        if self.i < self.n {
            let pair = (self.i, self.j);
            if self.j + 1 < self.i {
                *self = Pairs { n: self.n, i: self.i, j: self.j + 1 };
            } else {
                *self = Pairs { n: self.n, i: self.i + 1, j: 0 };
            }
            Some(pair)
        } else {
            None
        }
    }
}

} // verus!
