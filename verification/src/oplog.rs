//! A plain-value model of the CRDT engine's operation log.
//!
//! The engine keeps every applied move operation in a log ordered by
//! timestamp; the tree it exposes is determined by that log. `log_insert`
//! restates, over plain values, where one `apply` call places an incoming
//! operation: before every logged operation with a greater timestamp, and
//! nowhere at all when an operation with the very same timestamp is already
//! present (the engine treats such an arrival as a no-op).
//!
//! The lemmas prove the convergence law: replicas that have applied the
//! same collection of operations — in any order, duplicates included — end
//! up with identical logs, provided distinct operations carry distinct
//! timestamps.

use vstd::prelude::*;

use crate::clock::clock_lt;
use crate::clock::lemma_clock_lt_asym;
use crate::clock::lemma_clock_lt_connected;
use crate::clock::lemma_clock_lt_irrefl;
use crate::clock::lemma_clock_lt_trans;

verus! {

/// A move operation as plain values:
/// (timestamp = (counter, actor), parent, metadata, child).
pub type OpModel = ((u64, Seq<char>), u64, Seq<char>, u64);

/// The log holds its operations in strictly ascending timestamp order.
pub open spec fn clock_sorted(s: Seq<OpModel>) -> bool {
    forall|i: int, j: int| 0 <= i < j < s.len() ==> clock_lt(s[i].0, s[j].0)
}

/// Some logged operation carries the timestamp `c`.
pub open spec fn has_clock(s: Seq<OpModel>, c: (u64, Seq<char>)) -> bool {
    exists|i: int| 0 <= i < s.len() && s[i].0 == c
}

/// Where one `apply` call places an incoming operation in the log:
/// ordered by timestamp, dropped when its timestamp is already present.
pub open spec fn log_insert(s: Seq<OpModel>, op: OpModel) -> Seq<OpModel>
    decreases s.len(),
{
    if s.len() == 0 {
        seq![op]
    } else if clock_lt(op.0, s.last().0) {
        log_insert(s.drop_last(), op).push(s.last())
    } else if op.0 == s.last().0 {
        s
    } else {
        s.push(op)
    }
}

/// The log that results from applying a whole sequence of operations,
/// oldest call first, to an empty replica.
pub open spec fn replay(ops: Seq<OpModel>) -> Seq<OpModel>
    decreases ops.len(),
{
    if ops.len() == 0 {
        Seq::empty()
    } else {
        log_insert(replay(ops.drop_last()), ops.last())
    }
}

/// One more applied operation extends a replayed history by one
/// insertion: the step a caller takes to track a replica's log across
/// successive applies.
pub proof fn lemma_replay_step(ops: Seq<OpModel>, op: OpModel)
    ensures
        replay(ops.push(op)) == log_insert(replay(ops), op),
{
    assert(ops.push(op).drop_last() =~= ops);
    assert(ops.push(op).last() == op);
}

/// Distinct operations in the collection carry distinct timestamps —
/// the uniqueness that Lamport clocks give a well-behaved set of actors.
pub open spec fn distinct_clocks(ops: Seq<OpModel>) -> bool {
    forall|x: OpModel, y: OpModel|
        ops.contains(x) && ops.contains(y) && x.0 == y.0 ==> x == y
}

/// How one insertion reshapes the log: order is kept, an operation whose
/// timestamp is already present is dropped, any other lands in the log.
pub proof fn lemma_log_insert(s: Seq<OpModel>, op: OpModel)
    requires
        clock_sorted(s),
    ensures
        clock_sorted(log_insert(s, op)),
        has_clock(s, op.0) ==> log_insert(s, op) == s,
        !has_clock(s, op.0) ==> forall|x: OpModel|
            log_insert(s, op).contains(x) <==> (s.contains(x) || x == op),
        !has_clock(s, op.0) ==> log_insert(s, op).len() == s.len() + 1,
    decreases s.len(),
{
    if s.len() == 0 {
        assert(!has_clock(s, op.0));
        assert(log_insert(s, op) == seq![op]);
        assert forall|x: OpModel| log_insert(s, op).contains(x) <==> (s.contains(x) || x == op) by {
            assert(log_insert(s, op)[0] == op);
            if x == op {
                assert(log_insert(s, op).contains(x));
            }
        }
    } else if clock_lt(op.0, s.last().0) {
        let sub = s.drop_last();
        let last = s.last();
        assert(clock_sorted(sub)) by {
            assert(forall|i: int, j: int|
                0 <= i < j < sub.len() ==> clock_lt(#[trigger] sub[i].0, #[trigger] sub[j].0));
        }
        lemma_log_insert(sub, op);
        let t = log_insert(sub, op);
        lemma_clock_lt_irrefl(op.0);
        assert(op.0 != last.0);
        assert(has_clock(s, op.0) == has_clock(sub, op.0)) by {
            if has_clock(s, op.0) {
                let i = choose|i: int| 0 <= i < s.len() && s[i].0 == op.0;
                assert(i < s.len() - 1);
                assert(sub[i].0 == op.0);
            }
            if has_clock(sub, op.0) {
                let i = choose|i: int| 0 <= i < sub.len() && sub[i].0 == op.0;
                assert(s[i].0 == op.0);
            }
        }
        if has_clock(sub, op.0) {
            assert(t == sub);
            assert(log_insert(s, op) == sub.push(last));
            assert(sub.push(last) =~= s);
        } else {
            // every element of t sits below `last` in clock order
            assert forall|i: int| 0 <= i < t.len() implies clock_lt(t[i].0, last.0) by {
                assert(t.contains(t[i]));
                if t[i] == op {
                    // branch condition
                } else {
                    assert(sub.contains(t[i]));
                    let k = choose|k: int| 0 <= k < sub.len() && sub[k] == t[i];
                    assert(s[k] == t[i]);
                    assert(clock_lt(s[k].0, s.last().0));
                }
            }
            assert(clock_sorted(t.push(last))) by {
                assert forall|i: int, j: int|
                    0 <= i < j < t.push(last).len() implies clock_lt(
                    t.push(last)[i].0,
                    t.push(last)[j].0,
                ) by {
                    if j < t.len() {
                        assert(clock_lt(t[i].0, t[j].0));
                    } else {
                        assert(t.push(last)[j] == last);
                        assert(clock_lt(t[i].0, last.0));
                    }
                }
            }
            assert forall|x: OpModel|
                log_insert(s, op).contains(x) <==> (s.contains(x) || x == op) by {
                assert(log_insert(s, op) == t.push(last));
                assert(t.push(last).contains(x) <==> (t.contains(x) || x == last)) by {
                    if t.push(last).contains(x) {
                        let i = choose|i: int| 0 <= i < t.push(last).len() && t.push(last)[i] == x;
                        if i < t.len() {
                            assert(t[i] == x);
                        }
                    }
                    if t.contains(x) {
                        let i = choose|i: int| 0 <= i < t.len() && t[i] == x;
                        assert(t.push(last)[i] == x);
                    }
                    assert(t.push(last)[t.len() as int] == last);
                }
                assert(s.contains(x) <==> (sub.contains(x) || x == last)) by {
                    if s.contains(x) {
                        let i = choose|i: int| 0 <= i < s.len() && s[i] == x;
                        if i < s.len() - 1 {
                            assert(sub[i] == x);
                        }
                    }
                    if sub.contains(x) {
                        let i = choose|i: int| 0 <= i < sub.len() && sub[i] == x;
                        assert(s[i] == x);
                    }
                    assert(s[s.len() - 1] == last);
                }
            }
        }
    } else if op.0 == s.last().0 {
        assert(s[s.len() - 1].0 == op.0);
        assert(has_clock(s, op.0));
    } else {
        let last = s.last();
        lemma_clock_lt_connected(op.0, last.0);
        assert(clock_lt(last.0, op.0));
        assert(!has_clock(s, op.0)) by {
            assert forall|i: int| 0 <= i < s.len() implies s[i].0 != op.0 by {
                if i < s.len() - 1 {
                    assert(clock_lt(s[i].0, last.0));
                    lemma_clock_lt_trans(s[i].0, last.0, op.0);
                    lemma_clock_lt_irrefl(op.0);
                } else {
                    lemma_clock_lt_irrefl(op.0);
                }
            }
        }
        assert(clock_sorted(s.push(op))) by {
            assert forall|i: int, j: int|
                0 <= i < j < s.push(op).len() implies clock_lt(s.push(op)[i].0, s.push(op)[j].0) by {
                if j < s.len() {
                    assert(clock_lt(s[i].0, s[j].0));
                } else {
                    assert(s.push(op)[j] == op);
                    if i < s.len() - 1 {
                        assert(clock_lt(s[i].0, last.0));
                        lemma_clock_lt_trans(s[i].0, last.0, op.0);
                    } else {
                        assert(s.push(op)[i] == last);
                    }
                }
            }
        }
        assert forall|x: OpModel| log_insert(s, op).contains(x) <==> (s.contains(x) || x == op) by {
            assert(log_insert(s, op) == s.push(op));
            if s.push(op).contains(x) {
                let i = choose|i: int| 0 <= i < s.push(op).len() && s.push(op)[i] == x;
                if i < s.len() {
                    assert(s[i] == x);
                }
            }
            if s.contains(x) {
                let i = choose|i: int| 0 <= i < s.len() && s[i] == x;
                assert(s.push(op)[i] == x);
            }
            assert(s.push(op)[s.len() as int] == op);
        }
    }
}

/// Replaying any sequence of operations whose distinct members carry
/// distinct timestamps yields a sorted log that records exactly the
/// operations that were applied.
pub proof fn lemma_replay(ops: Seq<OpModel>)
    requires
        distinct_clocks(ops),
    ensures
        clock_sorted(replay(ops)),
        forall|x: OpModel| replay(ops).contains(x) <==> ops.contains(x),
    decreases ops.len(),
{
    if ops.len() == 0 {
        assert forall|x: OpModel| replay(ops).contains(x) <==> ops.contains(x) by {
            if replay(ops).contains(x) {
                let i = choose|i: int| 0 <= i < replay(ops).len() && replay(ops)[i] == x;
            }
        }
    } else {
        let prefix = ops.drop_last();
        let op = ops.last();
        assert(ops[ops.len() - 1] == op);
        assert(ops.contains(op));
        assert(forall|x: OpModel| prefix.contains(x) ==> ops.contains(x)) by {
            assert forall|x: OpModel| prefix.contains(x) implies ops.contains(x) by {
                let i = choose|i: int| 0 <= i < prefix.len() && prefix[i] == x;
                assert(ops[i] == x);
            }
        }
        assert(distinct_clocks(prefix));
        lemma_replay(prefix);
        let r = replay(prefix);
        lemma_log_insert(r, op);
        if has_clock(r, op.0) {
            let i = choose|i: int| 0 <= i < r.len() && r[i].0 == op.0;
            assert(r.contains(r[i]));
            assert(ops.contains(r[i]));
            assert(r[i] == op);
            assert(r.contains(op));
            assert(log_insert(r, op) == r);
            assert forall|x: OpModel| replay(ops).contains(x) <==> ops.contains(x) by {
                assert(ops.contains(x) <==> (prefix.contains(x) || x == op)) by {
                    if ops.contains(x) {
                        let k = choose|k: int| 0 <= k < ops.len() && ops[k] == x;
                        if k < ops.len() - 1 {
                            assert(prefix[k] == x);
                        }
                    }
                }
            }
        } else {
            assert forall|x: OpModel| replay(ops).contains(x) <==> ops.contains(x) by {
                assert(replay(ops).contains(x) <==> (r.contains(x) || x == op));
                assert(ops.contains(x) <==> (prefix.contains(x) || x == op)) by {
                    if ops.contains(x) {
                        let k = choose|k: int| 0 <= k < ops.len() && ops[k] == x;
                        if k < ops.len() - 1 {
                            assert(prefix[k] == x);
                        }
                    }
                }
            }
        }
    }
}

/// Two sorted logs that record the same operations are identical.
pub proof fn lemma_clock_sorted_unique(s1: Seq<OpModel>, s2: Seq<OpModel>)
    requires
        clock_sorted(s1),
        clock_sorted(s2),
        forall|x: OpModel| s1.contains(x) <==> s2.contains(x),
    ensures
        s1 == s2,
    decreases s1.len(),
{
    if s1.len() == 0 {
        if s2.len() > 0 {
            assert(s2.contains(s2[0]));
            assert(s1.contains(s2[0]));
        }
        assert(s1 =~= s2);
    } else {
        assert(s1.contains(s1.last())) by {
            assert(s1[s1.len() - 1] == s1.last());
        }
        if s2.len() == 0 {
            assert(s2.contains(s1.last()));
            assert(false);
        }
        assert(s2.contains(s2.last())) by {
            assert(s2[s2.len() - 1] == s2.last());
        }
        let x = s1.last();
        let y = s2.last();
        // the two greatest elements must coincide
        assert(x == y) by {
            let j = choose|j: int| 0 <= j < s2.len() && s2[j] == x;
            let k = choose|k: int| 0 <= k < s1.len() && s1[k] == y;
            if j < s2.len() - 1 && k < s1.len() - 1 {
                assert(clock_lt(s2[j].0, s2.last().0));
                assert(clock_lt(s1[k].0, s1.last().0));
                lemma_clock_lt_asym(x.0, y.0);
                assert(false);
            } else if j == s2.len() - 1 {
                assert(s2.last() == x);
            } else {
                assert(s1.last() == y);
            }
        }
        let p1 = s1.drop_last();
        let p2 = s2.drop_last();
        assert(clock_sorted(p1)) by {
            assert(forall|i: int, j: int|
                0 <= i < j < p1.len() ==> clock_lt(#[trigger] p1[i].0, #[trigger] p1[j].0));
        }
        assert(clock_sorted(p2)) by {
            assert(forall|i: int, j: int|
                0 <= i < j < p2.len() ==> clock_lt(#[trigger] p2[i].0, #[trigger] p2[j].0));
        }
        assert forall|z: OpModel| p1.contains(z) <==> p2.contains(z) by {
            if p1.contains(z) {
                let i = choose|i: int| 0 <= i < p1.len() && p1[i] == z;
                assert(s1[i] == z);
                assert(s1.contains(z));
                assert(s2.contains(z));
                let m = choose|m: int| 0 <= m < s2.len() && s2[m] == z;
                if m == s2.len() - 1 {
                    // z would equal the shared last element, yet it sits
                    // strictly below it in s1
                    assert(z == x);
                    assert(clock_lt(s1[i].0, s1.last().0));
                    lemma_clock_lt_irrefl(x.0);
                    assert(false);
                }
                assert(p2[m] == z);
            }
            if p2.contains(z) {
                let i = choose|i: int| 0 <= i < p2.len() && p2[i] == z;
                assert(s2[i] == z);
                assert(s2.contains(z));
                assert(s1.contains(z));
                let m = choose|m: int| 0 <= m < s1.len() && s1[m] == z;
                if m == s1.len() - 1 {
                    assert(z == y);
                    assert(clock_lt(s2[i].0, s2.last().0));
                    lemma_clock_lt_irrefl(y.0);
                    assert(false);
                }
                assert(p1[m] == z);
            }
        }
        lemma_clock_sorted_unique(p1, p2);
        assert(s1 =~= s2) by {
            assert(s1.len() == p1.len() + 1);
            assert(s2.len() == p2.len() + 1);
            assert(s1.len() == s2.len());
            assert forall|i: int| 0 <= i < s1.len() implies s1[i] == s2[i] by {
                if i < s1.len() - 1 {
                    assert(s1[i] == p1[i]);
                    assert(s2[i] == p2[i]);
                    assert(p1[i] == p2[i]);
                } else {
                    assert(s1[i] == x);
                    assert(s2[i] == y);
                }
            }
        }
    }
}

/// Convergence: replicas that have applied the same multiset of
/// operations — whatever the interleaving, duplicate deliveries
/// included — hold identical operation logs, provided distinct
/// operations carry distinct timestamps.
pub proof fn lemma_convergence(ops1: Seq<OpModel>, ops2: Seq<OpModel>)
    requires
        distinct_clocks(ops1),
        ops1.to_multiset() == ops2.to_multiset(),
    ensures
        replay(ops1) == replay(ops2),
{
    broadcast use vstd::seq_lib::group_to_multiset_ensures;

    assert forall|x: OpModel| ops1.contains(x) <==> ops2.contains(x) by {
        assert(ops1.contains(x) <==> ops1.to_multiset().count(x) > 0);
        assert(ops2.contains(x) <==> ops2.to_multiset().count(x) > 0);
    }
    assert(distinct_clocks(ops2));
    lemma_replay(ops1);
    lemma_replay(ops2);
    assert forall|x: OpModel| replay(ops1).contains(x) <==> replay(ops2).contains(x) by {
        assert(replay(ops1).contains(x) <==> ops1.contains(x));
        assert(replay(ops2).contains(x) <==> ops2.contains(x));
        assert(ops1.contains(x) <==> ops1.to_multiset().count(x) > 0);
        assert(ops2.contains(x) <==> ops2.to_multiset().count(x) > 0);
    }
    lemma_clock_sorted_unique(replay(ops1), replay(ops2));
}

} // verus!
