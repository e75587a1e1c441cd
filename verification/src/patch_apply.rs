//! Applies a patch to a tree: removals, additions, updates, and last the
//! properties of the added instances.

use crate::dom::{value_ref_target, value_ref_to, Node};
use crate::model::{
    add_all, add_children, add_node, add_snapshot, apply_patch, assign_properties, begins_with,
    finalize_nodes, initial_state, remove_all, remove_step, resolve, update_all, update_step,
    updated_node, ApplyState,
};
use crate::patch::{
    applied_updates, requested_updates, AppliedPatchSet, AppliedPatchUpdate, Diagnostic,
    InstanceSnapshot, PatchSet, PatchUpdate, PropertyChange, UpdateView,
};
use crate::tree::{assoc_get, assoc_map, lemma_assoc_map_push, RojoTree};
use rbx_dom_weak::{RbxId, RbxValue};
use vstd::prelude::*;

verus! {

/// The state that lives for one application of a patch.
pub struct PatchApplyContext<'a> {
    /// From the transient identifiers of added snapshots to the identifiers
    /// that the tree gave them. An identifier without an entry is taken to
    /// name an instance that was in the tree before.
    snapshot_id_to_instance_id: Vec<(RbxId, RbxId)>,
    /// The properties of the instances added so far. None is assigned before
    /// every instance of the patch is in the tree, since any of them may
    /// refer to an instance that is added later.
    added_instance_properties: Vec<(RbxId, &'a Vec<(String, RbxValue)>)>,
    /// The changes made so far.
    applied_patch_set: AppliedPatchSet,
    /// The requests skipped so far.
    diagnostics: Vec<Diagnostic>,
}

/// The deferred properties as plain sequences.
pub open spec fn deferred_view(deferred: Seq<(RbxId, &Vec<(String, RbxValue)>)>) -> Seq<
    (RbxId, Seq<(String, RbxValue)>),
> {
    deferred.map_values(|e: (RbxId, &Vec<(String, RbxValue)>)| (e.0, e.1@))
}

/// Every instance with deferred properties is in the tree.
pub open spec fn deferred_in_tree(s: ApplyState) -> bool {
    forall|i: int| 0 <= i < s.deferred.len() ==> s.nodes.contains_key(#[trigger] s.deferred[i].0)
}

impl<'a> PatchApplyContext<'a> {
    /// The state that the context and the tree make together.
    pub closed spec fn with_tree(&self, tree: &RojoTree) -> ApplyState {
        ApplyState {
            root: tree.root(),
            nodes: tree.nodes(),
            metadata: tree.metadata(),
            translation: assoc_map(self.snapshot_id_to_instance_id@),
            deferred: deferred_view(self.added_instance_properties@),
            removed: self.applied_patch_set.removed@,
            added: self.applied_patch_set.added@,
            updated: applied_updates(self.applied_patch_set.updated@),
            diagnostics: self.diagnostics@,
        }
    }

    /// An empty context.
    pub fn new() -> (r: Self)
        ensures
            forall|tree: &RojoTree| #[trigger]
                r.with_tree(tree) == initial_state(tree.root(), tree.nodes(), tree.metadata()),
    {
        let r = PatchApplyContext {
            snapshot_id_to_instance_id: Vec::new(),
            added_instance_properties: Vec::new(),
            applied_patch_set: AppliedPatchSet {
                removed: Vec::new(),
                added: Vec::new(),
                updated: Vec::new(),
            },
            diagnostics: Vec::new(),
        };
        proof {
            assert forall|tree: &RojoTree| #[trigger]
                r.with_tree(tree) == initial_state(
                    tree.root(),
                    tree.nodes(),
                    tree.metadata(),
                ) by {
                let s = r.with_tree(tree);
                assert(s.translation =~= Map::empty());
                assert(s.deferred =~= Seq::empty());
                assert(s.updated =~= Seq::empty());
                assert(s.removed =~= Seq::empty());
                assert(s.added =~= Seq::empty());
                assert(s.diagnostics =~= Seq::empty());
            }
        }
        r
    }
}

/// The value to write for `value`: a reference to a translated identifier is
/// redirected, anything else is copied.
pub fn resolve_value(value: &RbxValue, translation: &Vec<(RbxId, RbxId)>) -> (r: RbxValue)
    ensures
        r == resolve(*value, assoc_map(translation@)),
{
    match value_ref_target(value) {
        Some(id) => match assoc_get(translation, id) {
            Some(instance_id) => value_ref_to(instance_id),
            None => value.clone(),
        },
        None => value.clone(),
    }
}

/// Removes one instance, or reports why it could not.
pub fn apply_remove_instance(context: &mut PatchApplyContext, tree: &mut RojoTree, removed_id: RbxId)
    ensures
        final(context).with_tree(final(tree)) == remove_step(
            old(context).with_tree(old(tree)),
            removed_id,
        ),
{
    if tree.remove_instance(removed_id) {
        context.applied_patch_set.removed.push(removed_id);
    } else if tree.contains(removed_id) {
        context.diagnostics.push(Diagnostic::RemoveRefused(removed_id));
    } else {
        context.diagnostics.push(Diagnostic::RemoveMissing(removed_id));
    }
}

/// Adds one snapshot under `parent_id`, then its children under it. The
/// properties are deferred; the transient identifier, where there is one, is
/// entered in the translation.
pub fn apply_add_child<'a>(
    context: &mut PatchApplyContext<'a>,
    tree: &mut RojoTree,
    parent_id: RbxId,
    snapshot: &'a InstanceSnapshot,
)
    requires
        deferred_in_tree(old(context).with_tree(old(tree))),
    ensures
        begins_with(
            final(context).with_tree(final(tree)).added,
            old(context).with_tree(old(tree)).added,
        ),
        forall|log: Seq<RbxId>| #[trigger]
            begins_with(log, final(context).with_tree(final(tree)).added)
                ==> final(context).with_tree(final(tree)) == add_snapshot(
                old(context).with_tree(old(tree)),
                parent_id,
                *snapshot,
                log,
            ),
        deferred_in_tree(final(context).with_tree(final(tree))),
        old(tree).nodes().dom().subset_of(final(tree).nodes().dom()),
        old(tree).nodes().contains_key(parent_id) ==> final(context).with_tree(
            final(tree),
        ).added.len() > old(context).with_tree(old(tree)).added.len(),
    decreases snapshot,
{
    let ghost before = context.with_tree(tree);
    if !tree.contains(parent_id) {
        context.diagnostics.push(Diagnostic::AddParentMissing(parent_id));
        return ;
    }
    let id = tree.insert_instance(
        snapshot.name.clone(),
        snapshot.class_name.clone(),
        snapshot.metadata,
        parent_id,
    );
    context.applied_patch_set.added.push(id);
    proof {
        assert(deferred_view(context.added_instance_properties@.push((id, &snapshot.properties)))
            =~= deferred_view(context.added_instance_properties@).push(
            (id, snapshot.properties@),
        ));
    }
    context.added_instance_properties.push((id, &snapshot.properties));
    match snapshot.snapshot_id {
        Some(transient) => {
            proof {
                lemma_assoc_map_push(context.snapshot_id_to_instance_id@, transient, id);
            }
            context.snapshot_id_to_instance_id.push((transient, id));
        },
        None => {},
    }
    let ghost entered = context.with_tree(tree);
    proof {
        assert(entered == add_node(before, parent_id, *snapshot, id));
        assert(entered.nodes.contains_key(id));
        assert forall|i: int| 0 <= i < entered.deferred.len() implies entered.nodes.contains_key(
            #[trigger] entered.deferred[i].0,
        ) by {
            if i < before.deferred.len() {
                assert(before.nodes.contains_key(before.deferred[i].0));
            }
        }
    }
    let mut i: usize = 0;
    while i < snapshot.children.len()
        invariant
            i <= snapshot.children.len(),
            begins_with(context.with_tree(tree).added, entered.added),
            forall|log: Seq<RbxId>| #[trigger]
                begins_with(log, context.with_tree(tree).added) ==> context.with_tree(tree)
                    == add_children(entered, id, *snapshot, i as nat, log),
            deferred_in_tree(context.with_tree(tree)),
            before.nodes.dom().subset_of(tree.nodes().dom()),
        decreases snapshot.children.len() - i,
    {
        let ghost earlier = context.with_tree(tree);
        apply_add_child(context, tree, id, &snapshot.children[i]);
        proof {
            let later = context.with_tree(tree);
            assert forall|log: Seq<RbxId>| #[trigger] begins_with(log, later.added) implies later
                == add_children(entered, id, *snapshot, (i + 1) as nat, log) by {
                assert(begins_with(log, earlier.added));
            }
        }
        i += 1;
    }
    proof {
        let later = context.with_tree(tree);
        assert forall|log: Seq<RbxId>| #[trigger] begins_with(log, later.added) implies later
            == add_snapshot(before, parent_id, *snapshot, log) by {
            assert(entered.added[before.added.len() as int] == id);
            assert(log[before.added.len() as int] == id);
        }
    }
}

/// A copy of a property change.
pub fn clone_change(change: &PropertyChange) -> (r: PropertyChange)
    ensures
        r == *change,
{
    match change {
        PropertyChange::SetTo(value) => PropertyChange::SetTo(value.clone()),
        PropertyChange::Remove => PropertyChange::Remove,
        PropertyChange::Unchanged => PropertyChange::Unchanged,
    }
}

/// A copy of an optional string.
pub fn clone_text(text: &Option<String>) -> (r: Option<String>)
    ensures
        r == *text,
{
    match text {
        Some(s) => Some(s.clone()),
        None => None,
    }
}

/// The instance during an update: its new name and class are in place, and
/// the first `count` property changes are made.
pub open spec fn partly_updated_node(
    node: Node,
    update: UpdateView,
    translation: Map<RbxId, RbxId>,
    count: int,
) -> Node {
    updated_node(
        node,
        UpdateView { changed_properties: update.changed_properties.take(count), ..update },
        translation,
    )
}

/// Makes the changes of one update on its target and logs them as they were
/// requested, or reports that the tree lacks the target.
pub fn apply_update_child(context: &mut PatchApplyContext, tree: &mut RojoTree, patch: &PatchUpdate)
    ensures
        final(context).with_tree(final(tree)) == update_step(
            old(context).with_tree(old(tree)),
            patch@,
        ),
{
    let ghost before = context.with_tree(tree);
    let id = patch.id;
    if !tree.contains(id) {
        context.diagnostics.push(Diagnostic::UpdateMissing(id));
        return ;
    }
    let ghost node = tree.nodes()[id];
    let mut applied_patch = AppliedPatchUpdate::new(id);
    match patch.changed_metadata {
        Some(metadata) => {
            tree.update_metadata(id, metadata);
            applied_patch.changed_metadata = Some(metadata);
        },
        None => {},
    }
    match &patch.changed_name {
        Some(name) => {
            tree.set_name(id, name.clone());
        },
        None => {},
    }
    applied_patch.changed_name = clone_text(&patch.changed_name);
    match &patch.changed_class_name {
        Some(class_name) => {
            tree.set_class_name(id, class_name.clone());
        },
        None => {},
    }
    applied_patch.changed_class_name = clone_text(&patch.changed_class_name);
    proof {
        assert(patch@.changed_properties.take(0) =~= Seq::empty());
        assert(tree.nodes() =~= before.nodes.insert(
            id,
            partly_updated_node(node, patch@, before.translation, 0),
        ));
        assert(applied_patch.changed_properties@ =~= patch.changed_properties@.take(0));
    }
    let mut i: usize = 0;
    while i < patch.changed_properties.len()
        invariant
            i <= patch.changed_properties.len(),
            id == patch.id,
            tree.nodes() == before.nodes.insert(
                id,
                partly_updated_node(node, patch@, before.translation, i as int),
            ),
            tree.root() == before.root,
            tree.metadata() == update_step(before, patch@).metadata,
            before.nodes.contains_key(id),
            before.translation == assoc_map(context.snapshot_id_to_instance_id@),
            applied_patch.id == id,
            applied_patch.changed_name == patch.changed_name,
            applied_patch.changed_class_name == patch.changed_class_name,
            applied_patch.changed_metadata == patch.changed_metadata,
            applied_patch.changed_properties@ == patch.changed_properties@.take(i as int),
        decreases patch.changed_properties.len() - i,
    {
        let key = &patch.changed_properties[i].0;
        let change = &patch.changed_properties[i].1;
        match change {
            PropertyChange::SetTo(value) => {
                let resolved = resolve_value(value, &context.snapshot_id_to_instance_id);
                tree.set_property(id, key.clone(), resolved);
            },
            PropertyChange::Remove => {
                tree.remove_property(id, key);
            },
            PropertyChange::Unchanged => {},
        }
        applied_patch.changed_properties.push((key.clone(), clone_change(change)));
        proof {
            let changes = patch@.changed_properties;
            assert(changes.take(i + 1).drop_last() =~= changes.take(i as int));
            assert(changes.take(i + 1).last() == changes[i as int]);
            assert(tree.nodes() =~= before.nodes.insert(
                id,
                partly_updated_node(node, patch@, before.translation, i + 1),
            ));
            assert(applied_patch.changed_properties@ =~= changes.take(i + 1));
        }
        i += 1;
    }
    proof {
        assert(patch@.changed_properties.take(i as int) =~= patch@.changed_properties);
        assert(applied_patch@ == patch@);
        assert(applied_updates(context.applied_patch_set.updated@.push(applied_patch))
            =~= applied_updates(context.applied_patch_set.updated@).push(patch@));
    }
    context.applied_patch_set.updated.push(applied_patch);
}

/// Assigns the deferred properties of the added instances, with the
/// translation complete, and hands out what the application has logged.
pub fn finalize_patch_application(context: PatchApplyContext, tree: &mut RojoTree) -> (r: (
    AppliedPatchSet,
    Vec<Diagnostic>,
))
    requires
        deferred_in_tree(context.with_tree(old(tree))),
    ensures
        final(tree).nodes() == finalize_nodes(
            old(tree).nodes(),
            context.with_tree(old(tree)).deferred,
            context.with_tree(old(tree)).translation,
        ),
        final(tree).metadata() == old(tree).metadata(),
        final(tree).root() == old(tree).root(),
        r.0.removed@ == context.with_tree(old(tree)).removed,
        r.0.added@ == context.with_tree(old(tree)).added,
        applied_updates(r.0.updated@) == context.with_tree(old(tree)).updated,
        r.1@ == context.with_tree(old(tree)).diagnostics,
{
    let ghost before = context.with_tree(tree);
    let ghost deferred = before.deferred;
    let ghost translation = before.translation;
    let mut i: usize = 0;
    proof {
        assert(deferred.take(0) =~= Seq::empty());
    }
    while i < context.added_instance_properties.len()
        invariant
            i <= context.added_instance_properties.len(),
            deferred == deferred_view(context.added_instance_properties@),
            deferred == before.deferred,
            translation == assoc_map(context.snapshot_id_to_instance_id@),
            tree.nodes() == finalize_nodes(before.nodes, deferred.take(i as int), translation),
            tree.nodes().dom() == before.nodes.dom(),
            tree.metadata() == before.metadata,
            tree.root() == before.root,
            deferred_in_tree(before),
        decreases context.added_instance_properties.len() - i,
    {
        let id = context.added_instance_properties[i].0;
        let properties = context.added_instance_properties[i].1;
        let ghost earlier = tree.nodes();
        proof {
            assert(before.nodes.contains_key(before.deferred[i as int].0));
            assert(properties@.take(0) =~= Seq::empty());
            assert(earlier[id].with_properties(earlier[id].properties) == earlier[id]);
            assert(earlier =~= earlier.insert(id, earlier[id]));
        }
        let mut k: usize = 0;
        while k < properties.len()
            invariant
                k <= properties.len(),
                earlier.contains_key(id),
                translation == assoc_map(context.snapshot_id_to_instance_id@),
                tree.nodes() == earlier.insert(
                    id,
                    earlier[id].with_properties(
                        assign_properties(
                            earlier[id].properties,
                            properties@.take(k as int),
                            translation,
                        ),
                    ),
                ),
                tree.metadata() == before.metadata,
                tree.root() == before.root,
            decreases properties.len() - k,
        {
            let value = resolve_value(&properties[k].1, &context.snapshot_id_to_instance_id);
            tree.set_property(id, properties[k].0.clone(), value);
            proof {
                assert(properties@.take(k + 1).drop_last() =~= properties@.take(k as int));
                assert(tree.nodes() =~= earlier.insert(
                    id,
                    earlier[id].with_properties(
                        assign_properties(
                            earlier[id].properties,
                            properties@.take(k + 1),
                            translation,
                        ),
                    ),
                ));
            }
            k += 1;
        }
        proof {
            assert(properties@.take(k as int) =~= properties@);
            assert(deferred.take(i + 1).drop_last() =~= deferred.take(i as int));
            assert(deferred.take(i + 1).last() == (id, properties@));
            assert(tree.nodes().dom() =~= before.nodes.dom());
        }
        i += 1;
    }
    proof {
        assert(deferred.take(i as int) =~= deferred);
    }
    (context.applied_patch_set, context.diagnostics)
}

/// Applies a patch to the tree and returns the changes that took effect
/// together with the requests that were skipped.
///
/// Removals come first, then additions, then updates, and last the
/// properties of the added instances. The tree chooses the identifiers of
/// the added instances; the result's `added` lists them in the order of
/// choosing, and with them the outcome is determined.
pub fn apply_patch_set_reporting(tree: &mut RojoTree, patch_set: &PatchSet) -> (r: (
    AppliedPatchSet,
    Vec<Diagnostic>,
))
    ensures
        applied_as(
            apply_patch(
                initial_state(old(tree).root(), old(tree).nodes(), old(tree).metadata()),
                *patch_set,
                r.0.added@,
            ),
            final(tree),
            r.0,
        ),
        r.1@ == apply_patch(
            initial_state(old(tree).root(), old(tree).nodes(), old(tree).metadata()),
            *patch_set,
            r.0.added@,
        ).diagnostics,
{
    let ghost start = initial_state(tree.root(), tree.nodes(), tree.metadata());
    let mut context = PatchApplyContext::new();
    assert(context.with_tree(tree) == start);

    let mut i: usize = 0;
    while i < patch_set.removed_instances.len()
        invariant
            i <= patch_set.removed_instances.len(),
            context.with_tree(tree) == remove_all(
                start,
                patch_set.removed_instances@.take(i as int),
            ),
            context.with_tree(tree).added.len() == 0,
            context.with_tree(tree).deferred.len() == 0,
        decreases patch_set.removed_instances.len() - i,
    {
        apply_remove_instance(&mut context, tree, patch_set.removed_instances[i]);
        proof {
            let ids = patch_set.removed_instances@;
            assert(ids.take(i + 1).drop_last() =~= ids.take(i as int));
        }
        i += 1;
    }
    let ghost cleared = context.with_tree(tree);
    proof {
        assert(patch_set.removed_instances@.take(i as int) =~= patch_set.removed_instances@);
    }

    let mut j: usize = 0;
    while j < patch_set.added_instances.len()
        invariant
            j <= patch_set.added_instances.len(),
            forall|log: Seq<RbxId>| #[trigger]
                begins_with(log, context.with_tree(tree).added) ==> context.with_tree(tree)
                    == add_all(cleared, patch_set.added_instances@.take(j as int), log),
            deferred_in_tree(context.with_tree(tree)),
        decreases patch_set.added_instances.len() - j,
    {
        let ghost earlier = context.with_tree(tree);
        let add_patch = &patch_set.added_instances[j];
        apply_add_child(&mut context, tree, add_patch.parent_id, &add_patch.instance);
        proof {
            let adds = patch_set.added_instances@;
            let later = context.with_tree(tree);
            assert(adds.take(j + 1).drop_last() =~= adds.take(j as int));
            assert forall|log: Seq<RbxId>| #[trigger] begins_with(log, later.added) implies later
                == add_all(cleared, adds.take(j + 1), log) by {
                assert(begins_with(log, earlier.added));
            }
        }
        j += 1;
    }
    let ghost grown = context.with_tree(tree);
    let ghost log = grown.added;
    proof {
        assert(patch_set.added_instances@.take(j as int) =~= patch_set.added_instances@);
        assert(begins_with(log, grown.added));
    }

    let mut k: usize = 0;
    while k < patch_set.updated_instances.len()
        invariant
            k <= patch_set.updated_instances.len(),
            context.with_tree(tree) == update_all(
                grown,
                requested_updates(patch_set.updated_instances@.take(k as int)),
            ),
            context.with_tree(tree).added == log,
            deferred_in_tree(context.with_tree(tree)),
        decreases patch_set.updated_instances.len() - k,
    {
        let ghost earlier = context.with_tree(tree);
        apply_update_child(&mut context, tree, &patch_set.updated_instances[k]);
        proof {
            let updates = patch_set.updated_instances@;
            assert(requested_updates(updates.take(k + 1)).drop_last() =~= requested_updates(
                updates.take(k as int),
            ));
            let later = context.with_tree(tree);
            assert forall|n: int| 0 <= n < later.deferred.len() implies later.nodes.contains_key(
                #[trigger] later.deferred[n].0,
            ) by {
                assert(earlier.nodes.contains_key(earlier.deferred[n].0));
            }
        }
        k += 1;
    }
    proof {
        assert(patch_set.updated_instances@.take(k as int) =~= patch_set.updated_instances@);
    }
    finalize_patch_application(context, tree)
}

/// The tree and the change log are those of the state `s`.
pub open spec fn applied_as(s: ApplyState, tree: &RojoTree, applied: AppliedPatchSet) -> bool {
    &&& tree.root() == s.root
    &&& tree.nodes() == s.nodes
    &&& tree.metadata() == s.metadata
    &&& applied.removed@ == s.removed
    &&& applied.added@ == s.added
    &&& applied_updates(applied.updated@) == s.updated
    &&& applied.updated@.len() == s.updated.len()
}

/// Applies a patch to the tree and returns the changes that took effect,
/// from which another tree can be kept in step with this one.
pub fn apply_patch_set(tree: &mut RojoTree, patch_set: PatchSet) -> (applied: AppliedPatchSet)
    ensures
        applied_as(
            apply_patch(
                initial_state(old(tree).root(), old(tree).nodes(), old(tree).metadata()),
                patch_set,
                applied.added@,
            ),
            final(tree),
            applied,
        ),
{
    let (applied, _) = apply_patch_set_reporting(tree, &patch_set);
    applied
}

} // verus!
