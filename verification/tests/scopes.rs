use podcast_worker::cancel::{CancelTree, ScopeId};

#[test]
fn fresh_tree_has_a_live_root() {
    let scopes = CancelTree::new();
    assert_eq!(scopes.root(), ScopeId { index: 0 });
    assert!(scopes.contains(scopes.root()));
    assert!(!scopes.contains(ScopeId { index: 1 }));
    assert!(!scopes.is_cancelled(scopes.root()));
}

#[test]
fn cancel_reaches_descendants_and_no_others() {
    let mut scopes = CancelTree::new();
    let root = scopes.root();
    let left = scopes.child(root);
    let right = scopes.child(root);
    let below_left = scopes.child(left);
    let below_right = scopes.child(right);
    scopes.cancel(left);
    assert!(scopes.is_cancelled(left));
    assert!(scopes.is_cancelled(below_left));
    assert!(!scopes.is_cancelled(root));
    assert!(!scopes.is_cancelled(right));
    assert!(!scopes.is_cancelled(below_right));
    assert!(scopes.token(left).is_cancelled());
    assert!(scopes.token(below_left).is_cancelled());
    assert!(!scopes.token(root).is_cancelled());
    assert!(!scopes.token(right).is_cancelled());
    assert!(!scopes.token(below_right).is_cancelled());
}

#[test]
fn child_of_a_cancelled_sibling_is_born_live() {
    let mut scopes = CancelTree::new();
    let root = scopes.root();
    let first = scopes.child(root);
    scopes.cancel(first);
    let second = scopes.child(root);
    assert_eq!(second, ScopeId { index: 2 });
    assert!(!scopes.is_cancelled(second));
    assert!(!scopes.token(second).is_cancelled());
}

#[test]
fn child_of_a_cancelled_parent_is_born_cancelled() {
    let mut scopes = CancelTree::new();
    let root = scopes.root();
    let parent = scopes.child(root);
    scopes.cancel(parent);
    let child = scopes.child(parent);
    assert!(scopes.is_cancelled(child));
    assert!(scopes.token(child).is_cancelled());
}

#[test]
fn cancel_is_idempotent() {
    let mut scopes = CancelTree::new();
    let root = scopes.root();
    let child = scopes.child(root);
    scopes.cancel(child);
    scopes.cancel(child);
    assert!(scopes.is_cancelled(child));
    assert!(!scopes.is_cancelled(root));
}

#[test]
fn cancelling_the_root_cancels_all() {
    let mut scopes = CancelTree::new();
    let root = scopes.root();
    let child = scopes.child(root);
    let grandchild = scopes.child(child);
    scopes.cancel(root);
    assert!(scopes.is_cancelled(root));
    assert!(scopes.is_cancelled(child));
    assert!(scopes.is_cancelled(grandchild));
    assert!(scopes.token(grandchild).is_cancelled());
}
