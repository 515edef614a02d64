//! The data-type adapter: one replica's gate between the broadcast layer
//! and the replicated tree.
//!
//! The adapter binds one actor identity to one engine-owned replica state.
//! `validate` performs the single Byzantine-safety check this layer owns —
//! an operation's stamped actor must equal the actor the broadcast layer is
//! vouching for — and `apply` folds an agreed operation into the replica
//! state, totally and unconditionally.

use vstd::prelude::*;

use crate::engine::Replica;
use crate::engine::TreeState;
use crate::engine::replica_actor;
use crate::engine::replica_apply;
use crate::engine::replica_log;
use crate::engine::replica_new;
use crate::engine::replica_opmove;
use crate::engine::replica_state;
use crate::engine::state_eq;
use crate::engine::state_find;
use crate::engine::state_log;
use crate::engine::state_num_nodes;
use crate::engine::empty_tree;
use crate::engine::tree_of;
use crate::oplog::OpModel;
use crate::oplog::clock_sorted;
use crate::oplog::distinct_clocks;
use crate::oplog::lemma_convergence;
use crate::oplog::lemma_log_insert;
use crate::oplog::lemma_clock_sorted_unique;
use crate::oplog::log_insert;
use crate::oplog::replay;

verus! {

/// An immutable, provenance-stamped request to re-parent the node `child`
/// under `parent` with the payload `metadata`, as of the Lamport timestamp
/// `(counter, actor)`.
#[derive(Debug, Clone, PartialEq, Eq, Hash)]
pub struct MoveOp {
    /// identity of the actor that produced the operation
    pub actor: String,
    /// counter half of the operation's Lamport timestamp
    pub counter: u64,
    /// the node the child is re-parented under
    pub parent: u64,
    /// payload attached to the new parent-child relationship
    pub metadata: String,
    /// the node being moved
    pub child: u64,
}

impl MoveOp {
    /// The operation as plain values, as the log model records it.
    pub open spec fn model(self) -> OpModel {
        ((self.counter, self.actor@), self.parent, self.metadata@, self.child)
    }
}

/// The one error this layer can report: the operation's stamped actor does
/// not equal the actor the broadcast layer is vouching for. Both identities
/// are retained for diagnosis.
#[derive(Debug, Clone, PartialEq, Eq)]
pub enum ValidationError {
    /// the claimed source and the actor the operation is actually stamped with
    SourceDoesNotMatchOp { source: String, op_actor: String },
}

/// Provenance acceptance: the operation's stamped actor equals the claimed
/// source.
pub open spec fn spec_validate(source: Seq<char>, op: MoveOp) -> bool {
    op.actor@ == source
}

/// One replica's adapter: the bound actor identity plus the replica tree
/// state owned by the external CRDT engine.
#[derive(Debug, PartialEq, Eq)]
pub struct BRBTree {
    actor: String,
    treereplica: Replica,
}

impl BRBTree {
    /// The engine-owned replica value.
    pub closed spec fn replica(self) -> Replica {
        self.treereplica
    }

    /// The actor identity this adapter is bound to.
    pub closed spec fn actor_view(self) -> Seq<char> {
        self.actor@
    }

    /// The operation log the owned replica state records.
    pub open spec fn log(self) -> Seq<OpModel> {
        replica_log(self.replica())
    }

    /// Well-formed: the replica's clock carries the bound actor, and the
    /// log is in strictly ascending timestamp order.
    pub open spec fn wf(self) -> bool {
        replica_actor(self.replica()) == self.actor_view() && clock_sorted(self.log())
    }

    /// Constructs an adapter bound to `actor`, with an empty replica state:
    /// no logged operation and a derived tree of zero nodes. Always succeeds.
    pub fn new(actor: String) -> (t: BRBTree)
        ensures
            t.wf(),
            t.actor_view() == actor@,
            t.log() == Seq::<OpModel>::empty(),
            tree_of(t.log()) == empty_tree(),
    {
        let treereplica = replica_new(&actor);
        BRBTree { actor, treereplica }
    }

    /// Returns the bound actor identity. Pure accessor.
    pub fn actor(&self) -> (a: &String)
        ensures
            a@ == self.actor_view(),
    {
        &self.actor
    }

    /// A snapshot of the tree state the replica owns, for inspection by
    /// collaborators. Reading it never changes the replica.
    pub fn treestate(&self) -> (s: TreeState)
        ensures
            state_log(s) == self.log(),
    {
        replica_state(&self.treereplica)
    }

    /// The engine-owned replica value itself. Pure accessor.
    pub fn treereplica(&self) -> (r: &Replica)
        ensures
            *r == self.replica(),
    {
        &self.treereplica
    }

    /// Generates a move operation stamped with this adapter's own actor
    /// identity and the replica's current logical clock.
    pub fn opmove(&self, parent: u64, metadata: String, child: u64) -> (op: MoveOp)
        requires
            self.wf(),
        ensures
            op.actor@ == self.actor_view(),
            op.parent == parent,
            op.metadata@ == metadata@,
            op.child == child,
            spec_validate(self.actor_view(), op),
    {
        replica_opmove(&self.treereplica, parent, metadata, child)
    }

    /// The provenance check: succeeds exactly when the operation's stamped
    /// actor equals `source`; otherwise reports both identities. A pure
    /// function of its inputs — the replica state is never consulted.
    pub fn validate(&self, source: &String, op: &MoveOp) -> (r: Result<
        (),
        ValidationError,
    >)
        ensures
            r is Ok <==> spec_validate(source@, *op),
            (match r {
                Ok(_) => op.actor@ == source@,
                Err(e) => op.actor@ != source@ && (match e {
                    ValidationError::SourceDoesNotMatchOp { source: s, op_actor: a } => s@
                        == source@ && a@ == op.actor@,
                }),
            }),
    {
        if op.actor == *source {
            Ok(())
        } else {
            Err(ValidationError::SourceDoesNotMatchOp {
                source: source.clone(),
                op_actor: op.actor.clone(),
            })
        }
    }

    /// Folds an agreed operation into the replica state. Total: it accepts
    /// every operation, never fails, and keeps the adapter well-formed.
    /// The operation lands in the log at its timestamp position; an
    /// operation whose timestamp is already logged leaves the state
    /// unchanged (the engine's rule for duplicate timestamps). The new log
    /// is a function of the prior log and the operation alone — which
    /// adapter instance applies it, and which actor it is bound to, play
    /// no part.
    pub fn apply(&mut self, op: MoveOp)
        requires
            old(self).wf(),
        ensures
            final(self).wf(),
            final(self).actor_view() == old(self).actor_view(),
            final(self).log() == log_insert(old(self).log(), op.model()),
    {
        proof {
            lemma_log_insert(replica_log(self.treereplica), op.model());
        }
        replica_apply(&mut self.treereplica, &op);
    }
}

impl TreeState {
    /// Looks up a moved child node in the derived tree: its current
    /// parent and metadata, or `None` when the log never moved it.
    pub fn find(&self, child: u64) -> (r: Option<(u64, String)>)
        ensures
            (match r {
                Some(pm) => tree_of(state_log(*self)).dom().contains(child) && tree_of(
                    state_log(*self),
                )[child] == (pm.0, pm.1@),
                None => !tree_of(state_log(*self)).dom().contains(child),
            }),
    {
        state_find(self, child)
    }

    /// The number of child nodes the derived tree records.
    pub fn num_nodes(&self) -> (r: usize)
        ensures
            r == tree_of(state_log(*self)).dom().len(),
    {
        state_num_nodes(self)
    }

    /// Structural equality of two tree states: they are equal exactly
    /// when they record the same operation log.
    pub fn eq_state(&self, other: &TreeState) -> (r: bool)
        ensures
            r == (state_log(*self) == state_log(*other)),
    {
        state_eq(self, other)
    }
}

/// Provenance construction law: an operation carrying an adapter's own
/// actor identity — as every operation built by that adapter's `opmove`
/// does — passes that same adapter's validation.
pub proof fn lemma_opmove_passes_own_validate(t: BRBTree, op: MoveOp)
    requires
        op.actor@ == t.actor_view(),
    ensures
        spec_validate(t.actor_view(), op),
{
}

/// Convergence at the adapter level: two well-formed adapters whose
/// replica states record the same operations hold identical logs,
/// whatever order those operations arrived in on each side.
pub proof fn lemma_adapter_convergence(t1: BRBTree, t2: BRBTree)
    requires
        t1.wf(),
        t2.wf(),
        forall|x: OpModel| t1.log().contains(x) <==> t2.log().contains(x),
    ensures
        t1.log() == t2.log(),
        tree_of(t1.log()) == tree_of(t2.log()),
{
    lemma_clock_sorted_unique(t1.log(), t2.log());
}

/// Convergence over delivery orders: two adapters that have applied the
/// same multiset of operations — each in its own order, duplicate
/// deliveries included — hold identical logs, and therefore identical
/// derived trees, provided distinct operations carry distinct timestamps.
pub proof fn lemma_adapter_replay_convergence(
    t1: BRBTree,
    t2: BRBTree,
    ops1: Seq<OpModel>,
    ops2: Seq<OpModel>,
)
    requires
        t1.log() == replay(ops1),
        t2.log() == replay(ops2),
        distinct_clocks(ops1),
        ops1.to_multiset() == ops2.to_multiset(),
    ensures
        t1.log() == t2.log(),
        tree_of(t1.log()) == tree_of(t2.log()),
{
    lemma_convergence(ops1, ops2);
}

} // verus!


