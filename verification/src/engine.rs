//! The trusted boundary to the external CRDT engine.
//!
//! The engine owns the replica tree state and implements the move-operation
//! merge algorithm. Verus cannot read the engine's generic types, so the
//! adapter holds them inside two opaque structs of this crate, `Replica`
//! and `TreeState`, and reaches the engine only through the wrappers here.
//! Every contract in this module is checked against the engine's source,
//! not proved:
//!
//! - `replica_log` / `state_log` name the operation log a replica records,
//!   oldest timestamp first — the engine stores it newest-first and keeps
//!   it ordered by undoing, inserting and redoing on every apply;
//! - `replica_actor` names the actor identity the replica's Lamport clock
//!   carries;
//! - `tree_of` names the tree the engine derives from a log: the engine's
//!   undo/redo discipline makes the tree a function of the logged
//!   operations alone, keyed by child node.

use vstd::prelude::*;

use crate::brb_tree::MoveOp;
use crate::oplog::OpModel;
use crate::oplog::log_insert;

verus! {

/// One replica's tree state plus its Lamport clock, owned by the external
/// CRDT engine. Opaque: the contracts of this module say everything the
/// rest of the crate knows about it.
#[verifier::external_body]
#[derive(Debug, PartialEq, Eq)]
pub struct Replica {
    inner: crdt_tree::TreeReplica<u64, String, String>,
}

/// A snapshot of the tree state a replica records: the operation log and
/// the tree derived from it. Opaque, inspected through its methods.
#[verifier::external_body]
#[derive(Debug, PartialEq, Eq)]
pub struct TreeState {
    inner: crdt_tree::State<u64, String, String>,
}

/// The operation log a replica records, in ascending timestamp order.
pub uninterp spec fn replica_log(r: Replica) -> Seq<OpModel>;

/// The actor identity the replica's Lamport clock carries.
pub uninterp spec fn replica_actor(r: Replica) -> Seq<char>;

/// The operation log a tree-state snapshot records, in ascending
/// timestamp order.
pub uninterp spec fn state_log(s: TreeState) -> Seq<OpModel>;

/// The tree the engine derives from an operation log: each moved child
/// node mapped to its current (parent, metadata).
pub uninterp spec fn tree_of(log: Seq<OpModel>) -> Map<u64, (u64, Seq<char>)>;

/// The tree with no nodes — what an empty log derives to.
pub open spec fn empty_tree() -> Map<u64, (u64, Seq<char>)> {
    Map::empty()
}

/// Relies on crdt_tree::TreeReplica::new: a fresh replica holds an empty
/// tree state (hence an empty operation log) and a Lamport clock carrying
/// the given actor identity.
#[verifier::external_body]
pub(crate) fn replica_new(actor: &String) -> (r: Replica)
    ensures
        replica_actor(r) == actor@,
        replica_log(r) == Seq::<OpModel>::empty(),
        tree_of(replica_log(r)) == empty_tree(),
{
    Replica { inner: crdt_tree::TreeReplica::new(actor.clone()) }
}

/// Relies on crdt_tree::TreeReplica::opmove: the produced operation is
/// stamped with the replica's own actor identity and carries the given
/// parent, metadata and child unchanged. The replica itself is not touched.
#[verifier::external_body]
pub(crate) fn replica_opmove(r: &Replica, parent: u64, metadata: String, child: u64) -> (op:
    MoveOp)
    ensures
        op.actor@ == replica_actor(*r),
        op.parent == parent,
        op.metadata@ == metadata@,
        op.child == child,
{
    let m = r.inner.opmove(parent, metadata, child);
    MoveOp {
        actor: m.timestamp().actor_id().clone(),
        counter: m.timestamp().counter(),
        parent: *m.parent_id(),
        metadata: m.metadata().clone(),
        child: *m.child_id(),
    }
}

/// Relies on crdt_tree::TreeReplica::apply_op: the operation is folded
/// into the state's log at its timestamp position — dropped when that
/// timestamp is already logged — while the replica's clock keeps its own
/// actor identity. The call is total: it returns for every operation.
#[verifier::external_body]
pub(crate) fn replica_apply(r: &mut Replica, op: &MoveOp)
    ensures
        replica_actor(*final(r)) == replica_actor(*old(r)),
        replica_log(*final(r)) == log_insert(replica_log(*old(r)), op.model()),
{
    let stamp = crdt_tree::Clock::new(op.actor.clone(), Some(op.counter));
    let m = crdt_tree::OpMove::new(stamp, op.parent, op.metadata.clone(), op.child);
    r.inner.apply_op(m);
}

/// Relies on crdt_tree::TreeReplica::state and the derived clone of
/// crdt_tree::State: the snapshot holds exactly the tree state the
/// replica owns, whose log is the replica's log.
#[verifier::external_body]
pub(crate) fn replica_state(r: &Replica) -> (s: TreeState)
    ensures
        state_log(s) == replica_log(*r),
{
    TreeState { inner: r.inner.state().clone() }
}

/// Relies on crdt_tree::State::tree and crdt_tree::Tree::find: the lookup
/// answers from the tree the engine derived from the logged operations.
#[verifier::external_body]
pub(crate) fn state_find(s: &TreeState, child: u64) -> (r: Option<(u64, String)>)
    ensures
        (match r {
            Some(pm) => tree_of(state_log(*s)).dom().contains(child) && tree_of(state_log(*s))[child]
                == (pm.0, pm.1@),
            None => !tree_of(state_log(*s)).dom().contains(child),
        }),
{
    match s.inner.tree().find(&child) {
        Some(node) => Some((*node.parent_id(), node.metadata().clone())),
        None => None,
    }
}

/// Relies on crdt_tree::Tree::num_nodes: the count of child nodes the
/// derived tree currently records.
#[verifier::external_body]
pub(crate) fn state_num_nodes(s: &TreeState) -> (r: usize)
    ensures
        r == tree_of(state_log(*s)).dom().len(),
{
    s.inner.tree().num_nodes()
}

/// Relies on the derived equality of crdt_tree::State: two states are
/// equal exactly when they record the same operation log — every other
/// component of a state (the tree, each logged entry's prior-parent
/// record) is derived from that log by the engine.
#[verifier::external_body]
pub(crate) fn state_eq(a: &TreeState, b: &TreeState) -> (r: bool)
    ensures
        r == (state_log(*a) == state_log(*b)),
{
    a.inner == b.inner
}

} // verus!
