//! The tree of cancel scopes.
//!
//! Every scope but the root has a parent. Cancelling a scope cancels all
//! that descends from it and nothing else. The tree records this in plain
//! flags, over which its contracts are written; beside each flag it keeps a
//! `tokio_util` token, through which a task can wait for the cancellation.
use vstd::prelude::*;

verus! {

/// The token that wakes the tasks of a scope:
/// `tokio_util::sync::CancellationToken`, carried through unread.
#[verifier::external_type_specification]
#[verifier::external_body]
pub struct ExWakeToken(tokio_util::sync::CancellationToken);

/// A scope of a [`CancelTree`], by its place in the tree.
#[derive(Clone, Copy, PartialEq, Eq, Structural, Debug)]
pub struct ScopeId {
    pub index: usize,
}

/// What the tree knows of one scope.
pub struct ScopeState {
    /// The place of the parent; the root has none.
    pub parent: Option<int>,
    pub cancelled: bool,
}

/// The scope at `i` comes after its parent, and is cancelled where its
/// parent is.
pub open spec fn follows_parent(scopes: Seq<ScopeState>, i: int) -> bool {
    scopes[i].parent matches Some(p) && 0 <= p < i && (scopes[p].cancelled
        ==> scopes[i].cancelled)
}

/// The root is first and has no parent; every other scope follows its
/// parent.
pub open spec fn well_formed(scopes: Seq<ScopeState>) -> bool {
    &&& scopes.len() >= 1
    &&& scopes[0].parent is None
    &&& forall|i: int| 0 < i < scopes.len() ==> #[trigger] follows_parent(scopes, i)
}

/// `scope` is `ancestor` or descends from it.
pub open spec fn descends(scopes: Seq<ScopeState>, scope: int, ancestor: int) -> bool
    decreases scope,
{
    scope == ancestor || (0 < scope < scopes.len() && (scopes[scope].parent matches Some(p) && 0
        <= p < scope && descends(scopes, p, ancestor)))
}

/// The tree after `scope` has been cancelled: `scope` and its descendants
/// are cancelled, the others are as they were.
pub open spec fn after_cancel(scopes: Seq<ScopeState>, scope: int) -> Seq<ScopeState> {
    Seq::new(
        scopes.len(),
        |i: int|
            ScopeState {
                parent: scopes[i].parent,
                cancelled: scopes[i].cancelled || descends(scopes, i, scope),
            },
    )
}

/// The tree after a child of `parent` has been derived: the child comes
/// last, and is cancelled from birth only where its parent already is.
pub open spec fn with_child(scopes: Seq<ScopeState>, parent: int) -> Seq<ScopeState> {
    scopes.push(ScopeState { parent: Some(parent), cancelled: scopes[parent].cancelled })
}

/// A scope descends only from scopes that are not behind it.
pub proof fn lemma_ancestors_come_first(scopes: Seq<ScopeState>, scope: int, ancestor: int)
    requires
        descends(scopes, scope, ancestor),
    ensures
        ancestor <= scope,
    decreases scope,
{
    if scope != ancestor {
        lemma_ancestors_come_first(scopes, scopes[scope].parent->0, ancestor);
    }
}

/// Cancelling changes no parent, so who descends from whom stays as it is.
pub proof fn lemma_cancel_keeps_descent(
    scopes: Seq<ScopeState>,
    cancelled: int,
    scope: int,
    ancestor: int,
)
    ensures
        descends(after_cancel(scopes, cancelled), scope, ancestor) == descends(
            scopes,
            scope,
            ancestor,
        ),
    decreases scope,
{
    if scope != ancestor && 0 < scope < scopes.len() {
        if let Some(p) = scopes[scope].parent {
            if 0 <= p < scope {
                lemma_cancel_keeps_descent(scopes, cancelled, p, ancestor);
            }
        }
    }
}

/// A well-formed tree is well-formed after any of its scopes is cancelled.
pub proof fn lemma_cancel_keeps_well_formed(scopes: Seq<ScopeState>, scope: int)
    requires
        well_formed(scopes),
    ensures
        well_formed(after_cancel(scopes, scope)),
{
    let after = after_cancel(scopes, scope);
    assert forall|i: int| 0 < i < after.len() implies #[trigger] follows_parent(after, i) by {
        assert(follows_parent(scopes, i));
        let p = scopes[i].parent->0;
        if descends(scopes, p, scope) {
            lemma_ancestors_come_first(scopes, p, scope);
            assert(descends(scopes, i, scope));
        }
    }
}

/// A well-formed tree is well-formed after a child of one of its scopes is
/// derived.
pub proof fn lemma_child_keeps_well_formed(scopes: Seq<ScopeState>, parent: int)
    requires
        well_formed(scopes),
        0 <= parent < scopes.len(),
    ensures
        well_formed(with_child(scopes, parent)),
{
    let after = with_child(scopes, parent);
    assert forall|i: int| 0 < i < after.len() implies #[trigger] follows_parent(after, i) by {
        if i < scopes.len() {
            assert(follows_parent(scopes, i));
        }
    }
}

/// Every scope of a well-formed tree descends from the root.
pub proof fn lemma_all_descend_from_root(scopes: Seq<ScopeState>, scope: int)
    requires
        well_formed(scopes),
        0 <= scope < scopes.len(),
    ensures
        descends(scopes, scope, 0),
    decreases scope,
{
    if scope > 0 {
        assert(follows_parent(scopes, scope));
        lemma_all_descend_from_root(scopes, scopes[scope].parent->0);
    }
}

/// Cancelling the root cancels every scope of the tree.
pub proof fn lemma_root_cancel_reaches_all(scopes: Seq<ScopeState>)
    requires
        well_formed(scopes),
    ensures
        forall|i: int| 0 <= i < scopes.len() ==> (#[trigger] after_cancel(scopes, 0)[i]).cancelled,
{
    assert forall|i: int| 0 <= i < scopes.len() implies (#[trigger] after_cancel(
        scopes,
        0,
    )[i]).cancelled by {
        lemma_all_descend_from_root(scopes, i);
    }
}

/// Cancelling a scope that is already cancelled, once more, changes nothing.
pub proof fn lemma_cancel_is_idempotent(scopes: Seq<ScopeState>, scope: int)
    ensures
        after_cancel(after_cancel(scopes, scope), scope) == after_cancel(scopes, scope),
{
    let once = after_cancel(scopes, scope);
    let twice = after_cancel(once, scope);
    assert forall|i: int| 0 <= i < scopes.len() implies twice[i] == once[i] by {
        lemma_cancel_keeps_descent(scopes, scope, i, scope);
    }
    assert(twice =~= once);
}

/// Two different children of one parent do not descend from each other, so
/// that cancelling one leaves the other as it was.
pub proof fn lemma_cancel_spares_siblings(scopes: Seq<ScopeState>, one: int, other: int)
    requires
        well_formed(scopes),
        0 < one < scopes.len(),
        0 < other < scopes.len(),
        one != other,
        scopes[one].parent == scopes[other].parent,
    ensures
        after_cancel(scopes, one)[other] == scopes[other],
{
    assert(follows_parent(scopes, other));
    assert(follows_parent(scopes, one));
    let p = scopes[other].parent->0;
    if descends(scopes, p, one) {
        lemma_ancestors_come_first(scopes, p, one);
    }
}

/// The scopes of one process, the root first.
pub struct CancelTree {
    parents: Vec<Option<usize>>,
    flags: Vec<bool>,
    tokens: Vec<tokio_util::sync::CancellationToken>,
}

impl View for CancelTree {
    type V = Seq<ScopeState>;

    closed spec fn view(&self) -> Seq<ScopeState> {
        Seq::new(
            self.parents@.len(),
            |i: int|
                ScopeState {
                    parent: match self.parents@[i] {
                        Some(p) => Some(p as int),
                        None => None,
                    },
                    cancelled: self.flags@[i],
                },
        )
    }
}

impl CancelTree {
    /// Each scope has its flag and its token.
    pub closed spec fn complete(&self) -> bool {
        self.parents@.len() == self.flags@.len() && self.parents@.len() == self.tokens@.len()
    }

    /// The tree is complete and well-formed.
    pub open spec fn wf(&self) -> bool {
        self.complete() && well_formed(self@)
    }

    /// The token that the tree keeps beside a scope. It is made when the
    /// scope is, and stays the scope's for good.
    pub closed spec fn spec_token(&self, id: ScopeId) -> tokio_util::sync::CancellationToken {
        self.tokens@[id.index as int]
    }

    /// `id` is a scope of this tree.
    pub open spec fn spec_contains(&self, id: ScopeId) -> bool {
        id.index < self@.len()
    }

    /// A tree of one scope, the root, which is not cancelled.
    pub fn new() -> (tree: CancelTree)
        ensures
            tree.wf(),
            tree@ == seq![ScopeState { parent: None, cancelled: false }],
    {
        let mut parents: Vec<Option<usize>> = Vec::new();
        let mut flags: Vec<bool> = Vec::new();
        let mut tokens: Vec<tokio_util::sync::CancellationToken> = Vec::new();
        parents.push(None);
        flags.push(false);
        tokens.push(root_token());
        let tree = CancelTree { parents, flags, tokens };
        assert(tree@ =~= seq![ScopeState { parent: None, cancelled: false }]);
        tree
    }

    /// The root of the tree.
    pub fn root(&self) -> (id: ScopeId)
        ensures
            id.index == 0,
    {
        ScopeId { index: 0 }
    }

    /// Whether `id` is a scope of this tree.
    #[verifier::when_used_as_spec(spec_contains)]
    pub fn contains(&self, id: ScopeId) -> (known: bool)
        ensures
            known == self.spec_contains(id),
    {
        id.index < self.parents.len()
    }

    /// The parent of the scope; the root has none.
    pub fn parent(&self, id: ScopeId) -> (parent: Option<ScopeId>)
        requires
            self.wf(),
            self.contains(id),
        ensures
            parent is Some == self@[id.index as int].parent is Some,
            parent matches Some(above) ==> self@[id.index as int].parent == Some(
                above.index as int,
            ) && self.contains(above),
    {
        proof {
            if id.index > 0 {
                assert(follows_parent(self@, id.index as int));
            }
        }
        match self.parents[id.index] {
            Some(above) => Some(ScopeId { index: above }),
            None => None,
        }
    }

    /// Whether the scope is cancelled.
    pub fn is_cancelled(&self, id: ScopeId) -> (cancelled: bool)
        requires
            self.wf(),
            self.contains(id),
        ensures
            cancelled == self@[id.index as int].cancelled,
    {
        self.flags[id.index]
    }

    /// The token that is cancelled with the scope, for a task to wait on:
    /// the one that the tree keeps beside the scope.
    pub fn token(&self, id: ScopeId) -> (token: tokio_util::sync::CancellationToken)
        requires
            self.wf(),
            self.contains(id),
        ensures
            token == self.spec_token(id),
    {
        same_token(&self.tokens[id.index])
    }

    /// Derives a child of `parent`. It is the newest scope of the tree, and
    /// starts out cancelled only where `parent` already is.
    pub fn child(&mut self, parent: ScopeId) -> (id: ScopeId)
        requires
            old(self).wf(),
            old(self).contains(parent),
        ensures
            final(self).wf(),
            final(self)@ == with_child(old(self)@, parent.index as int),
            id.index == old(self)@.len(),
            forall|known: ScopeId|
                old(self).contains(known) ==> #[trigger] final(self).spec_token(known) == old(
                    self,
                ).spec_token(known),
    {
        let index = self.parents.len();
        let token = child_token(&self.tokens[parent.index]);
        let cancelled = self.flags[parent.index];
        self.parents.push(Some(parent.index));
        self.flags.push(cancelled);
        self.tokens.push(token);
        proof {
            assert(self@ =~= with_child(old(self)@, parent.index as int));
            lemma_child_keeps_well_formed(old(self)@, parent.index as int);
        }
        ScopeId { index }
    }

    /// Cancels the scope and all that descends from it.
    pub fn cancel(&mut self, id: ScopeId)
        requires
            old(self).wf(),
            old(self).contains(id),
        ensures
            final(self).wf(),
            final(self)@ == after_cancel(old(self)@, id.index as int),
            forall|known: ScopeId|
                old(self).contains(known) ==> #[trigger] final(self).spec_token(known) == old(
                    self,
                ).spec_token(known),
    {
        cancel_token(&self.tokens[id.index]);
        let count = self.parents.len();
        let ghost before = self@;
        let ghost target = id.index as int;
        proof {
            assert forall|j: int| 0 <= j < target implies !descends(before, j, target) by {
                if descends(before, j, target) {
                    lemma_ancestors_come_first(before, j, target);
                }
            }
        }
        let mut i: usize = id.index;
        while i < count
            invariant
                target <= i <= count,
                target == id.index,
                before == old(self)@,
                well_formed(before),
                self.parents@ == old(self).parents@,
                self.tokens@ == old(self).tokens@,
                self.parents@.len() == count,
                self.flags@.len() == count,
                forall|j: int|
                    0 <= j < i ==> #[trigger] self.flags@[j] == (before[j].cancelled || descends(
                        before,
                        j,
                        target,
                    )),
                forall|j: int| i <= j < count ==> #[trigger] self.flags@[j] == before[j].cancelled,
            decreases count - i,
        {
            proof {
                if i != target {
                    assert(follows_parent(before, i as int));
                    let p = before[i as int].parent->0;
                    assert(self.parents@[i as int] == Some(p as usize));
                    assert(self.flags@[p] == (before[p].cancelled || descends(before, p, target)));
                    if descends(before, p, target) {
                        lemma_ancestors_come_first(before, p, target);
                    }
                }
            }
            let reached = if i == id.index {
                true
            } else {
                match self.parents[i] {
                    Some(p) => self.flags[p],
                    None => false,
                }
            };
            assert(reached == descends(before, i as int, target) || before[i as int].cancelled);
            if reached {
                self.flags.set(i, true);
            }
            i += 1;
        }
        proof {
            assert(self@ =~= after_cancel(before, target));
            lemma_cancel_keeps_well_formed(before, target);
        }
    }
}

/// `CancellationToken::new`.
#[verifier::external_body]
fn root_token() -> tokio_util::sync::CancellationToken {
    tokio_util::sync::CancellationToken::new()
}

/// `CancellationToken::child_token`.
#[verifier::external_body]
fn child_token(parent: &tokio_util::sync::CancellationToken) -> tokio_util::sync::CancellationToken {
    parent.child_token()
}

/// `CancellationToken::clone`: the clone holds the node that the token
/// holds, and is the same token.
#[verifier::external_body]
pub(crate) fn same_token(token: &tokio_util::sync::CancellationToken) -> (copy:
    tokio_util::sync::CancellationToken)
    ensures
        copy == *token,
{
    token.clone()
}

/// `CancellationToken::cancel`.
#[verifier::external_body]
fn cancel_token(token: &tokio_util::sync::CancellationToken) {
    token.cancel()
}

} // verus!
