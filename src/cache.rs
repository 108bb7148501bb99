//! A content-addressed cache node: prune-on-open, and builds staged under a
//! `partial.` sibling that is published by one rename.
//!
//! The node's directory is modelled as the set of its child names. The
//! functions here decide; the caller performs the filesystem work they
//! prescribe, in order.

use vstd::prelude::*;
use crate::text::{cat, cat3, is_prefix, starts_with, views};

verus! {

/// The prefix reserved for artifacts that are still being produced.
pub open spec fn partial_prefix() -> Seq<char> {
    "partial."@
}

/// The staging sibling of `name`.
pub open spec fn partial_of(name: Seq<char>) -> Seq<char> {
    partial_prefix() + name
}

/// `name` lies in the reserved namespace.
pub open spec fn is_reserved(name: Seq<char>) -> bool {
    is_prefix(partial_prefix(), name)
}

/// `dir/name`.
pub open spec fn join(dir: Seq<char>, name: Seq<char>) -> Seq<char> {
    dir + "/"@ + name
}

/// The children of a node that opening with `retain` removes.
pub open spec fn pruned(children: Seq<Seq<char>>, retain: Seq<Seq<char>>) -> Seq<Seq<char>> {
    children.filter(|c: Seq<char>| !retain.contains(c))
}

/// The children left after `removed` were deleted.
pub open spec fn remaining(children: Seq<Seq<char>>, removed: Seq<Seq<char>>) -> Seq<Seq<char>> {
    children.filter(|c: Seq<char>| !removed.contains(c))
}

/// An opened cache node.
#[derive(Debug, PartialEq, Eq)]
pub struct Cache {
    pub path: String,
    pub cleaned: bool,
}

/// Why a build could not start.
#[derive(Clone, Copy, Debug, PartialEq, Eq, Structural)]
pub enum CacheError {
    /// The artifact name starts with the reserved `partial.` prefix.
    ReservedName,
    /// A staging sibling is left over from an earlier build that did not
    /// finish; it is kept for inspection.
    PartialExists,
}

/// One step of a build on the cache node.
#[derive(Clone, Copy, Debug, PartialEq, Eq, Structural)]
pub enum CacheOp {
    /// Delete the published artifact, recursively.
    RemoveTarget,
    /// Run the producer on the staging path; it creates the staging entry.
    Produce,
    /// Rename the staging entry to the artifact's name.
    Publish,
}

/// What a build does: the artifact's path, its staging path, the steps to
/// perform in order, and the error to report once they are done, if any. A
/// build that ends without error reports `rebuilt` when it publishes.
#[derive(Debug, PartialEq, Eq)]
pub struct BuildPlan {
    pub target: String,
    pub partial: String,
    pub ops: Vec<CacheOp>,
    pub failure: Option<CacheError>,
}

/// The steps of a build of an artifact that is (`exists`) or is not on the
/// node. A forced build removes the artifact before it looks at the staging
/// sibling, so it removes it also when it then fails on a leftover sibling.
pub open spec fn plan_ops(name: Seq<char>, force: bool, exists: bool, partial_exists: bool) -> Seq<CacheOp> {
    if is_reserved(name) {
        Seq::empty()
    } else if exists && !force {
        Seq::empty()
    } else if partial_exists {
        if exists {
            seq![CacheOp::RemoveTarget]
        } else {
            Seq::empty()
        }
    } else if exists {
        seq![CacheOp::RemoveTarget, CacheOp::Produce, CacheOp::Publish]
    } else {
        seq![CacheOp::Produce, CacheOp::Publish]
    }
}

/// The error a build ends with, after its steps.
pub open spec fn plan_failure(name: Seq<char>, force: bool, exists: bool, partial_exists: bool) -> Option<
    CacheError,
> {
    if is_reserved(name) {
        Some(CacheError::ReservedName)
    } else if exists && !force {
        None
    } else if partial_exists {
        Some(CacheError::PartialExists)
    } else {
        None
    }
}

/// The steps of the build of `name` on the node `node`.
pub open spec fn ops_on(node: Set<Seq<char>>, name: Seq<char>, force: bool) -> Seq<CacheOp> {
    plan_ops(name, force, node.contains(name), node.contains(partial_of(name)))
}

/// The error of the build of `name` on the node `node`.
pub open spec fn failure_on(node: Set<Seq<char>>, name: Seq<char>, force: bool) -> Option<CacheError> {
    plan_failure(name, force, node.contains(name), node.contains(partial_of(name)))
}

/// The node after one step of the build of `name`.
pub open spec fn apply_op(node: Set<Seq<char>>, name: Seq<char>, op: CacheOp) -> Set<Seq<char>> {
    match op {
        CacheOp::RemoveTarget => node.remove(name),
        CacheOp::Produce => node.insert(partial_of(name)),
        CacheOp::Publish => node.remove(partial_of(name)).insert(name),
    }
}

/// The node after the given steps of the build of `name`.
pub open spec fn apply_ops(node: Set<Seq<char>>, name: Seq<char>, ops: Seq<CacheOp>) -> Set<
    Seq<char>,
>
    decreases ops.len(),
{
    if ops.len() == 0 {
        node
    } else {
        apply_op(apply_ops(node, name, ops.drop_last()), name, ops.last())
    }
}

/// A build reports `rebuilt` exactly when it publishes.
pub open spec fn publishes(ops: Seq<CacheOp>) -> bool {
    ops.contains(CacheOp::Publish)
}

/// The staging sibling of a name never is the name itself.
pub proof fn lemma_partial_differs(name: Seq<char>)
    ensures
        partial_of(name) != name,
{
    assert(partial_of(name).len() == partial_prefix().len() + name.len());
    reveal_strlit("partial.");
}

/// Opening a node keeps only retained children: once the names that
/// [`Cache::new`] returns are removed, every child left is named in `retain`.
pub proof fn lemma_open_retains(children: Seq<Seq<char>>, retain: Seq<Seq<char>>)
    ensures
        forall|c: Seq<char>|
            #[trigger] remaining(children, pruned(children, retain)).contains(c) ==> retain.contains(
                c,
            ),
{
    let removed = pruned(children, retain);
    let keep_pred = |x: Seq<char>| !removed.contains(x);
    let prune_pred = |x: Seq<char>| !retain.contains(x);
    assert forall|c: Seq<char>|
        #[trigger] remaining(children, removed).contains(c) implies retain.contains(c) by {
        let rest = children.filter(keep_pred);
        let j = choose|j: int| 0 <= j < rest.len() && rest[j] == c;
        children.lemma_filter_pred(keep_pred, j);
        children.lemma_filter_contains_rev(keep_pred, c);
        if !retain.contains(c) {
            let k = choose|k: int| 0 <= k < children.len() && children[k] == c;
            children.lemma_filter_contains(prune_pred, k);
        }
    }
}

/// A name in the reserved namespace is refused, whatever the node holds, and
/// nothing is done.
pub proof fn lemma_reserved_refused(name: Seq<char>, force: bool, exists: bool, partial_exists: bool)
    requires
        is_prefix(partial_prefix(), name),
    ensures
        plan_failure(name, force, exists, partial_exists) == Some(CacheError::ReservedName),
        plan_ops(name, force, exists, partial_exists).len() == 0,
{
}

/// A forced build that ends without error always rebuilds; an unforced build
/// of an artifact that is present does nothing and reports no rebuild.
pub proof fn lemma_force(node: Set<Seq<char>>, name: Seq<char>, force: bool)
    ensures
        force && failure_on(node, name, force) is None ==> publishes(ops_on(node, name, force)),
        !force && node.contains(name) && !is_reserved(name) ==> ops_on(node, name, force).len() == 0,
        !force && node.contains(name) && !is_reserved(name) ==> failure_on(node, name, force) is None,
        !force && node.contains(name) && !is_reserved(name) ==> !publishes(ops_on(node, name, force)),
{
    let ops = ops_on(node, name, force);
    if force && failure_on(node, name, force) is None {
        assert(ops[ops.len() - 1] == CacheOp::Publish);
    }
}

/// A build that fails on a leftover staging sibling leaves that sibling as
/// it was and no artifact at the published name: a forced build removed it
/// first, an unforced one only fails when there was none.
pub proof fn lemma_partial_failure(node: Set<Seq<char>>, name: Seq<char>, force: bool)
    requires
        failure_on(node, name, force) == Some(CacheError::PartialExists),
    ensures
        apply_ops(node, name, ops_on(node, name, force)) == node.remove(name),
        !apply_ops(node, name, ops_on(node, name, force)).contains(name),
        apply_ops(node, name, ops_on(node, name, force)).contains(partial_of(name)),
        !publishes(ops_on(node, name, force)),
{
    let ops = ops_on(node, name, force);
    lemma_partial_differs(name);
    assert(node.contains(partial_of(name)));
    if node.contains(name) {
        assert(ops == seq![CacheOp::RemoveTarget]);
        assert(ops.drop_last() =~= Seq::<CacheOp>::empty());
        assert(apply_ops(node, name, ops.drop_last()) == node);
        assert(ops.last() == CacheOp::RemoveTarget);
        assert(!ops.contains(CacheOp::Publish)) by {
            if ops.contains(CacheOp::Publish) {
                let j = choose|j: int| 0 <= j < ops.len() && ops[j] == CacheOp::Publish;
            }
        }
    } else {
        assert(ops.len() == 0);
        assert(node.remove(name) =~= node);
    }
}

/// A build that ends without error and reports `rebuilt` leaves the artifact
/// published and no staging sibling behind.
pub proof fn lemma_rebuilt_published(node: Set<Seq<char>>, name: Seq<char>, force: bool)
    requires
        failure_on(node, name, force) is None,
        publishes(ops_on(node, name, force)),
    ensures
        apply_ops(node, name, ops_on(node, name, force)).contains(name),
        !apply_ops(node, name, ops_on(node, name, force)).contains(partial_of(name)),
{
    let ops = ops_on(node, name, force);
    lemma_build_atomic(node, name, force, ops.len() as int);
    assert(ops.subrange(0, ops.len() as int) =~= ops);
}

/// Every state that a build passes through, counted by the steps done: the
/// artifact and its staging sibling are never both present, and once the
/// producer has finished the artifact is present exactly when it has been
/// published by the last step.
pub proof fn lemma_build_atomic(node: Set<Seq<char>>, name: Seq<char>, force: bool, k: int)
    requires
        failure_on(node, name, force) is None,
        publishes(ops_on(node, name, force)),
        0 <= k <= ops_on(node, name, force).len(),
    ensures
        ({
            let ops = ops_on(node, name, force);
            let state = apply_ops(node, name, ops.subrange(0, k));
            &&& !(state.contains(name) && state.contains(partial_of(name)))
            &&& k >= ops.len() - 1 ==> (state.contains(name) <==> k == ops.len())
            &&& k >= ops.len() - 1 ==> (state.contains(partial_of(name)) <==> k < ops.len())
        }),
{
    let ops = ops_on(node, name, force);
    let p = partial_of(name);
    lemma_partial_differs(name);
    if ops.len() == 0 {
        assert(!ops.contains(CacheOp::Publish));
    }
    assert(!node.contains(p));
    assert(ops.subrange(0, 0) =~= Seq::<CacheOp>::empty());
    assert(apply_ops(node, name, ops.subrange(0, 0)) == node);
    if ops.len() == 3 {
        assert(ops == seq![CacheOp::RemoveTarget, CacheOp::Produce, CacheOp::Publish]);
        let s1 = apply_ops(node, name, ops.subrange(0, 1));
        assert(ops.subrange(0, 1).drop_last() =~= ops.subrange(0, 0));
        let s2 = apply_ops(node, name, ops.subrange(0, 2));
        assert(ops.subrange(0, 2).drop_last() =~= ops.subrange(0, 1));
        let s3 = apply_ops(node, name, ops.subrange(0, 3));
        assert(ops.subrange(0, 3).drop_last() =~= ops.subrange(0, 2));
        assert(s1 == node.remove(name));
        assert(s2 == s1.insert(p));
        assert(s3 == s2.remove(p).insert(name));
    } else {
        assert(ops == seq![CacheOp::Produce, CacheOp::Publish]);
        let s1 = apply_ops(node, name, ops.subrange(0, 1));
        assert(ops.subrange(0, 1).drop_last() =~= ops.subrange(0, 0));
        let s2 = apply_ops(node, name, ops.subrange(0, 2));
        assert(ops.subrange(0, 2).drop_last() =~= ops.subrange(0, 1));
        assert(!node.contains(name));
        assert(s1 == node.insert(p));
        assert(s2 == s1.remove(p).insert(name));
    }
}

/// A retained name is left by opening exactly when it is a child.
proof fn lemma_retained_kept(children: Seq<Seq<char>>, retain: Seq<Seq<char>>, c: Seq<char>)
    requires
        retain.contains(c),
    ensures
        remaining(children, pruned(children, retain)).contains(c) == children.contains(c),
{
    let removed = pruned(children, retain);
    let keep_pred = |x: Seq<char>| !removed.contains(x);
    let prune_pred = |x: Seq<char>| !retain.contains(x);
    if remaining(children, removed).contains(c) {
        children.lemma_filter_contains_rev(keep_pred, c);
    }
    if children.contains(c) {
        assert(!removed.contains(c)) by {
            if removed.contains(c) {
                let j = choose|j: int| 0 <= j < removed.len() && removed[j] == c;
                children.lemma_filter_pred(prune_pred, j);
            }
        }
        let k = choose|k: int| 0 <= k < children.len() && children[k] == c;
        children.lemma_filter_contains(keep_pred, k);
    }
}

/// Opening a node after a build was interrupted once its producer had
/// finished, with both the artifact and its staging sibling retained, finds
/// exactly one of the two: the published artifact, or only the staging
/// sibling.
pub proof fn lemma_open_after_interrupt(
    node: Set<Seq<char>>,
    name: Seq<char>,
    force: bool,
    k: int,
    children: Seq<Seq<char>>,
    retain: Seq<Seq<char>>,
)
    requires
        failure_on(node, name, force) is None,
        publishes(ops_on(node, name, force)),
        ops_on(node, name, force).len() - 1 <= k <= ops_on(node, name, force).len(),
        children.to_set() == apply_ops(node, name, ops_on(node, name, force).subrange(0, k)),
        retain.contains(name),
        retain.contains(partial_of(name)),
    ensures
        remaining(children, pruned(children, retain)).contains(name) != remaining(
            children,
            pruned(children, retain),
        ).contains(partial_of(name)),
        remaining(children, pruned(children, retain)).contains(name) <==> k == ops_on(
            node,
            name,
            force,
        ).len(),
{
    lemma_build_atomic(node, name, force, k);
    lemma_retained_kept(children, retain, name);
    lemma_retained_kept(children, retain, partial_of(name));
    broadcast use vstd::seq_lib::group_seq_properties;
    assert(children.to_set().contains(name) == children.contains(name));
    assert(children.to_set().contains(partial_of(name)) == children.contains(partial_of(name)));
}

impl BuildPlan {
    /// Whether the build produces the artifact anew.
    pub fn rebuilt(&self) -> (r: bool)
        ensures
            r == publishes(self.ops@),
    {
        let mut i: usize = 0;
        while i < self.ops.len()
            invariant
                i <= self.ops@.len(),
                forall|j: int| 0 <= j < i ==> self.ops@[j] != CacheOp::Publish,
            decreases self.ops@.len() - i,
        {
            if self.ops[i] == CacheOp::Publish {
                return true;
            }
            i = i + 1;
        }
        false
    }
}

/// Whether `name` is in `list`.
pub fn contains_name(list: &Vec<String>, name: &str) -> (r: bool)
    ensures
        r == views(list@).contains(name@),
{
    let mut i: usize = 0;
    while i < list.len()
        invariant
            i <= list@.len(),
            forall|j: int| 0 <= j < i ==> list@[j]@ != name@,
        decreases list@.len() - i,
    {
        if crate::text::str_eq(list[i].as_str(), name) {
            assert(views(list@)[i as int] == name@);
            return true;
        }
        i = i + 1;
    }
    assert forall|j: int| 0 <= j < views(list@).len() implies views(list@)[j] != name@ by {
        assert(views(list@)[j] == list@[j]@);
    }
    false
}

/// The children that opening with `retain` removes, in their order.
pub fn prune(children: &Vec<String>, retain: &Vec<String>) -> (r: Vec<String>)
    ensures
        views(r@) == pruned(views(children@), views(retain@)),
{
    let mut out: Vec<String> = Vec::new();
    let mut i: usize = 0;
    proof {
        reveal(Seq::filter);
        assert(views(children@).subrange(0, 0) =~= Seq::<Seq<char>>::empty());
        assert(views(out@) =~= Seq::<Seq<char>>::empty());
    }
    while i < children.len()
        invariant
            i <= children@.len(),
            views(out@) == pruned(views(children@).subrange(0, i as int), views(retain@)),
        decreases children@.len() - i,
    {
        let ghost pre = views(children@).subrange(0, i as int);
        let ghost c = children@[i as int]@;
        assert(views(children@).subrange(0, i + 1) =~= pre.push(c));
        assert(pre.push(c).drop_last() =~= pre);
        proof {
            reveal(Seq::filter);
        }
        let keep = contains_name(retain, children[i].as_str());
        if !keep {
            let ghost old_out = out@;
            out.push(children[i].clone());
            assert(views(out@) =~= views(old_out).push(c));
        }
        i = i + 1;
    }
    assert(views(children@).subrange(0, children@.len() as int) =~= views(children@));
    out
}

impl Cache {
    /// Opens the node at `path`, whose children are `children`: every child
    /// not named in `retain` is to be removed, and the node is `cleaned` when
    /// any is. Returns the node and the names to remove.
    pub fn new(path: &str, children: &Vec<String>, retain: &Vec<String>) -> (r: (Cache, Vec<String>))
        ensures
            r.0.path@ == path@,
            views(r.1@) == pruned(views(children@), views(retain@)),
            r.0.cleaned == (r.1@.len() > 0),
    {
        let removed = prune(children, retain);
        let cleaned = removed.len() > 0;
        (Cache { path: path.to_owned(), cleaned }, removed)
    }

    pub fn path(&self) -> (r: &str)
        ensures
            r@ == self.path@,
    {
        self.path.as_str()
    }

    pub fn cleaned(&self) -> (r: bool)
        ensures
            r == self.cleaned,
    {
        self.cleaned
    }

    /// The path of `name` in this node.
    pub fn join(&self, name: &str) -> (r: String)
        ensures
            r@ == join(self.path@, name@),
    {
        cat3(self.path.as_str(), "/", name)
    }

    /// The staging path of `name` in this node.
    pub fn partial_path(&self, name: &str) -> (r: String)
        ensures
            r@ == join(self.path@, partial_of(name@)),
    {
        let staged = cat("partial.", name);
        self.join(staged.as_str())
    }

    /// Opens the nested node `name`, whose children are `children`, as
    /// [`Cache::new`] does.
    pub fn child(&self, name: &str, children: &Vec<String>, retain: &Vec<String>) -> (r: (
        Cache,
        Vec<String>,
    ))
        ensures
            r.0.path@ == join(self.path@, name@),
            views(r.1@) == pruned(views(children@), views(retain@)),
            r.0.cleaned == (r.1@.len() > 0),
    {
        let path = self.join(name);
        Cache::new(path.as_str(), children, retain)
    }

    /// Plans the build of `name` on this node, where `exists` and
    /// `partial_exists` tell whether `name` and its staging sibling are
    /// present.
    pub fn build(&self, name: &str, force: bool, exists: bool, partial_exists: bool) -> (r: BuildPlan)
        ensures
            r.ops@ == plan_ops(name@, force, exists, partial_exists),
            r.failure == plan_failure(name@, force, exists, partial_exists),
            r.target@ == join(self.path@, name@),
            r.partial@ == join(self.path@, partial_of(name@)),
    {
        let target = self.join(name);
        let partial = self.partial_path(name);
        let none: Vec<CacheOp> = Vec::new();
        assert(none@ =~= Seq::<CacheOp>::empty());
        if starts_with(name, "partial.") {
            return BuildPlan { target, partial, ops: none, failure: Some(CacheError::ReservedName) };
        }
        if exists && !force {
            return BuildPlan { target, partial, ops: none, failure: None };
        }
        if partial_exists {
            let ops = if exists {
                vec![CacheOp::RemoveTarget]
            } else {
                none
            };
            assert(ops@ =~= plan_ops(name@, force, exists, partial_exists));
            return BuildPlan { target, partial, ops, failure: Some(CacheError::PartialExists) };
        }
        let ops = if exists {
            vec![CacheOp::RemoveTarget, CacheOp::Produce, CacheOp::Publish]
        } else {
            vec![CacheOp::Produce, CacheOp::Publish]
        };
        assert(ops@ =~= plan_ops(name@, force, exists, partial_exists));
        BuildPlan { target, partial, ops, failure: None }
    }

    /// Plans the builds of `names` that run side by side, as [`Cache::build`]
    /// does for each, in the same order; `force[i]`, `exists[i]` and
    /// `partial_exists[i]` go with `names[i]`.
    pub fn build_parallel(
        &self,
        names: &Vec<String>,
        force: &Vec<bool>,
        exists: &Vec<bool>,
        partial_exists: &Vec<bool>,
    ) -> (r: Vec<BuildPlan>)
        requires
            force@.len() == names@.len(),
            exists@.len() == names@.len(),
            partial_exists@.len() == names@.len(),
        ensures
            r@.len() == names@.len(),
            forall|i: int|
                0 <= i < names@.len() ==> {
                    &&& (#[trigger] r@[i]).ops@ == plan_ops(names@[i]@, force@[i], exists@[i], partial_exists@[i])
                    &&& r@[i].failure == plan_failure(names@[i]@, force@[i], exists@[i], partial_exists@[i])
                    &&& r@[i].target@ == join(self.path@, names@[i]@)
                    &&& r@[i].partial@ == join(self.path@, partial_of(names@[i]@))
                },
    {
        let mut out: Vec<BuildPlan> = Vec::new();
        let mut i: usize = 0;
        while i < names.len()
            invariant
                i <= names@.len(),
                force@.len() == names@.len(),
                exists@.len() == names@.len(),
                partial_exists@.len() == names@.len(),
                out@.len() == i,
                forall|j: int|
                    0 <= j < i ==> {
                        &&& (#[trigger] out@[j]).ops@ == plan_ops(names@[j]@, force@[j], exists@[j], partial_exists@[j])
                        &&& out@[j].failure == plan_failure(names@[j]@, force@[j], exists@[j], partial_exists@[j])
                        &&& out@[j].target@ == join(self.path@, names@[j]@)
                        &&& out@[j].partial@ == join(self.path@, partial_of(names@[j]@))
                    },
            decreases names@.len() - i,
        {
            let step = self.build(names[i].as_str(), force[i], exists[i], partial_exists[i]);
            out.push(step);
            i = i + 1;
        }
        out
    }
}

} // verus!
