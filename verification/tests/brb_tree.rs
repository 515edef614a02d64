use brb_dt_tree::BRBTree;
use brb_dt_tree::MoveOp;
use brb_dt_tree::ValidationError;

#[test]
fn fresh_adapter_is_empty_and_bound_to_actor() {
    let t = BRBTree::new("a1".to_string());
    assert_eq!(t.actor(), &"a1".to_string());
    assert_eq!(t.treestate().num_nodes(), 0);
    assert_eq!(t.treestate().find(255), None);
}

#[test]
fn opmove_stamps_own_actor_and_fields() {
    let t = BRBTree::new("a1".to_string());
    let op = t.opmove(255, "Hello".to_string(), 1);
    assert_eq!(op.actor, "a1".to_string());
    assert_eq!(op.counter, 1);
    assert_eq!(op.parent, 255);
    assert_eq!(op.metadata, "Hello".to_string());
    assert_eq!(op.child, 1);
}

#[test]
fn validate_accepts_own_actor_and_rejects_others() {
    let t = BRBTree::new("a1".to_string());
    let op = t.opmove(255, "Hello".to_string(), 1);
    assert_eq!(t.validate(&"a1".to_string(), &op), Ok(()));
    assert_eq!(
        t.validate(&"a2".to_string(), &op),
        Err(ValidationError::SourceDoesNotMatchOp {
            source: "a2".to_string(),
            op_actor: "a1".to_string(),
        })
    );
}

#[test]
fn validate_is_pure_and_leaves_state_unchanged() {
    let mut t = BRBTree::new("a1".to_string());
    let first = t.opmove(255, "Hello".to_string(), 1);
    t.apply(first);
    let before = t.treestate();
    let op = t.opmove(255, "World".to_string(), 2);
    assert!(t.validate(&"a1".to_string(), &op).is_ok());
    assert!(t.validate(&"a2".to_string(), &op).is_err());
    let after = t.treestate();
    assert!(before.eq_state(&after));
    assert_eq!(before, after);
    assert_eq!(t.treestate().num_nodes(), 1);
}

#[test]
fn apply_folds_operation_into_tree() {
    let mut t = BRBTree::new("a1".to_string());
    let op = t.opmove(255, "Hello".to_string(), 1);
    t.apply(op);
    assert_eq!(t.treestate().num_nodes(), 1);
    assert_eq!(t.treestate().find(1), Some((255, "Hello".to_string())));
    assert_eq!(t.treestate().find(255), None);
}

#[test]
fn duplicate_delivery_leaves_state_unchanged() {
    let mut t = BRBTree::new("a1".to_string());
    let op = t.opmove(255, "Hello".to_string(), 1);
    t.apply(op.clone());
    let before = t.treestate();
    t.apply(op);
    assert!(before.eq_state(&t.treestate()));
    assert_eq!(t.treestate().num_nodes(), 1);
}

#[test]
fn replicas_converge_regardless_of_order() {
    let mut t1 = BRBTree::new("a1".to_string());
    let mut t2 = BRBTree::new("a2".to_string());
    let op_a = t1.opmove(255, "Hello".to_string(), 1);
    let op_b = t2.opmove(255, "World".to_string(), 2);
    t1.apply(op_a.clone());
    t1.apply(op_b.clone());
    t2.apply(op_b);
    t2.apply(op_a);
    assert!(t1.treestate().eq_state(&t2.treestate()));
    assert_eq!(t1.treestate().num_nodes(), 2);
    assert_eq!(t1.treestate().find(1), Some((255, "Hello".to_string())));
    assert_eq!(t2.treestate().find(2), Some((255, "World".to_string())));
}

#[test]
fn concurrent_moves_of_one_child_resolve_deterministically() {
    let mut t1 = BRBTree::new("a1".to_string());
    let mut t2 = BRBTree::new("a2".to_string());
    let op_a = t1.opmove(255, "Hello".to_string(), 1);
    let op_b = t2.opmove(255, "World".to_string(), 1);
    t1.apply(op_a.clone());
    t1.apply(op_b.clone());
    t2.apply(op_b);
    t2.apply(op_a);
    assert!(t1.treestate().eq_state(&t2.treestate()));
    // equal counters tie-break on the actor identity, so the operation
    // stamped by "a2" is the later writer on every replica
    assert_eq!(t1.treestate().find(1), Some((255, "World".to_string())));
    assert_eq!(t2.treestate().find(1), Some((255, "World".to_string())));
    assert_eq!(t1.treestate().num_nodes(), 1);
}

#[test]
fn different_logs_give_different_states() {
    let mut t1 = BRBTree::new("a1".to_string());
    let t2 = BRBTree::new("a2".to_string());
    let op = t1.opmove(255, "Hello".to_string(), 1);
    t1.apply(op);
    assert!(!t1.treestate().eq_state(&t2.treestate()));
    assert_ne!(t1.treestate(), t2.treestate());
    assert_ne!(t1.treereplica(), t2.treereplica());
}

#[test]
fn out_of_causal_order_delivery_converges() {
    let mut t1 = BRBTree::new("a1".to_string());
    let mut t2 = BRBTree::new("a2".to_string());
    let op_early = MoveOp {
        actor: "a3".to_string(),
        counter: 7,
        parent: 255,
        metadata: "x".to_string(),
        child: 4,
    };
    let op_late = MoveOp {
        actor: "a3".to_string(),
        counter: 9,
        parent: 4,
        metadata: "y".to_string(),
        child: 5,
    };
    // one replica receives the newer operation first
    t1.apply(op_late.clone());
    t1.apply(op_early.clone());
    t2.apply(op_early);
    t2.apply(op_late);
    assert!(t1.treestate().eq_state(&t2.treestate()));
    assert_eq!(t1.treestate().find(4), Some((255, "x".to_string())));
    assert_eq!(t1.treestate().find(5), Some((4, "y".to_string())));
    assert_eq!(t1.treestate().num_nodes(), 2);
}
