//! The logical-time order that the CRDT engine resolves operations by.
//!
//! Every move operation carries a Lamport timestamp: a counter paired with
//! the identity of the actor that produced it. The engine orders timestamps
//! by counter first and breaks ties by actor identity, compared as strings.
//! These spec functions restate that order over plain values, and the lemmas
//! prove that it is a strict total order — the fact the convergence argument
//! rests on.

use vstd::prelude::*;

verus! {

/// Strict lexicographic order on actor identifiers, matching the
/// character-wise order that `String` comparison gives for `Ord`.
pub open spec fn actor_lt(a: Seq<char>, b: Seq<char>) -> bool
    decreases a.len(),
{
    if b.len() == 0 {
        false
    } else if a.len() == 0 {
        true
    } else if a[0] != b[0] {
        (a[0] as int) < (b[0] as int)
    } else {
        actor_lt(a.drop_first(), b.drop_first())
    }
}

/// A Lamport timestamp as plain values: (counter, actor identity).
pub open spec fn clock_lt(a: (u64, Seq<char>), b: (u64, Seq<char>)) -> bool {
    a.0 < b.0 || (a.0 == b.0 && actor_lt(a.1, b.1))
}

pub proof fn lemma_actor_lt_irrefl(a: Seq<char>)
    ensures
        !actor_lt(a, a),
    decreases a.len(),
{
    if a.len() > 0 {
        lemma_actor_lt_irrefl(a.drop_first());
    }
}

pub proof fn lemma_actor_lt_connected(a: Seq<char>, b: Seq<char>)
    ensures
        actor_lt(a, b) || actor_lt(b, a) || a == b,
    decreases a.len(),
{
    if a.len() == 0 && b.len() == 0 {
        assert(a =~= b);
    } else if a.len() == 0 {
        assert(actor_lt(a, b));
    } else if b.len() == 0 {
        assert(actor_lt(b, a));
    } else if a[0] != b[0] {
        assert((a[0] as int) < (b[0] as int) || (b[0] as int) < (a[0] as int));
        assert(actor_lt(a, b) || actor_lt(b, a));
    } else {
        lemma_actor_lt_connected(a.drop_first(), b.drop_first());
        if a.drop_first() == b.drop_first() {
            assert(a =~= b) by {
                assert(a.drop_first().len() == b.drop_first().len());
                assert(a.len() == b.len());
                assert forall|i: int| 0 <= i < a.len() implies a[i] == b[i] by {
                    if i >= 1 {
                        assert(a[i] == a.drop_first()[i - 1]);
                        assert(b[i] == b.drop_first()[i - 1]);
                    }
                }
            }
        }
    }
}

pub proof fn lemma_actor_lt_asym(a: Seq<char>, b: Seq<char>)
    requires
        actor_lt(a, b),
    ensures
        !actor_lt(b, a),
    decreases a.len(),
{
    if a.len() > 0 && b.len() > 0 && a[0] == b[0] {
        lemma_actor_lt_asym(a.drop_first(), b.drop_first());
    }
}

pub proof fn lemma_actor_lt_trans(a: Seq<char>, b: Seq<char>, c: Seq<char>)
    requires
        actor_lt(a, b),
        actor_lt(b, c),
    ensures
        actor_lt(a, c),
    decreases a.len(),
{
    if a.len() > 0 && b.len() > 0 && c.len() > 0 && a[0] == b[0] && b[0] == c[0] {
        lemma_actor_lt_trans(a.drop_first(), b.drop_first(), c.drop_first());
    }
}

pub proof fn lemma_clock_lt_irrefl(a: (u64, Seq<char>))
    ensures
        !clock_lt(a, a),
{
    lemma_actor_lt_irrefl(a.1);
}

pub proof fn lemma_clock_lt_connected(a: (u64, Seq<char>), b: (u64, Seq<char>))
    ensures
        clock_lt(a, b) || clock_lt(b, a) || a == b,
{
    if a.0 == b.0 {
        lemma_actor_lt_connected(a.1, b.1);
    }
}

pub proof fn lemma_clock_lt_asym(a: (u64, Seq<char>), b: (u64, Seq<char>))
    requires
        clock_lt(a, b),
    ensures
        !clock_lt(b, a),
{
    if a.0 == b.0 {
        lemma_actor_lt_asym(a.1, b.1);
    }
}

pub proof fn lemma_clock_lt_trans(a: (u64, Seq<char>), b: (u64, Seq<char>), c: (u64, Seq<char>))
    requires
        clock_lt(a, b),
        clock_lt(b, c),
    ensures
        clock_lt(a, c),
{
    if a.0 == b.0 && b.0 == c.0 {
        lemma_actor_lt_trans(a.1, b.1, c.1);
    }
}

} // verus!
