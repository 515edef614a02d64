//! An adapter that makes a replicated tree (a move-operation CRDT) pluggable
//! into a Byzantine-fault-tolerant broadcast layer.
//!
//! The adapter gates every incoming move operation with a provenance check
//! (`validate`) and folds agreed operations into the local replica state
//! (`apply`). The tree merge algorithm itself is delegated to the external
//! CRDT engine; the contracts here model its operation log and prove that
//! replicas which record the same set of operations hold identical logs.

pub mod brb_tree;
pub mod clock;
pub mod engine;
pub mod oplog;

pub use brb_tree::BRBTree;
pub use brb_tree::MoveOp;
pub use brb_tree::ValidationError;
