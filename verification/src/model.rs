//! What applying a patch means, as functions on a mathematical state.

use crate::dom::{nodes_after_insert, nodes_after_remove, ref_target, ref_to, removable, Node};
use crate::patch::{requested_updates, Diagnostic, InstanceMetadata, InstanceSnapshot, PatchAdd, PatchSet, PropertyChange, UpdateView};
use rbx_dom_weak::{RbxId, RbxValue};
use vstd::prelude::*;

verus! {

/// Everything that one application of a patch reads and writes.
pub struct ApplyState {
    /// The root of the tree, which never changes.
    pub root: RbxId,
    /// The instances of the tree.
    pub nodes: Map<RbxId, Node>,
    /// The metadata kept beside the instances.
    pub metadata: Map<RbxId, InstanceMetadata>,
    /// From the transient identifier of an added snapshot to the identifier
    /// that the tree gave it.
    pub translation: Map<RbxId, RbxId>,
    /// The properties of added instances, not yet assigned.
    pub deferred: Seq<(RbxId, Seq<(String, RbxValue)>)>,
    /// The identifiers removed so far.
    pub removed: Seq<RbxId>,
    /// The identifiers added so far.
    pub added: Seq<RbxId>,
    /// The updates made so far.
    pub updated: Seq<UpdateView>,
    /// The requests skipped so far.
    pub diagnostics: Seq<Diagnostic>,
}

/// The state in which an application starts.
pub open spec fn initial_state(
    root: RbxId,
    nodes: Map<RbxId, Node>,
    metadata: Map<RbxId, InstanceMetadata>,
) -> ApplyState {
    ApplyState {
        root,
        nodes,
        metadata,
        translation: Map::empty(),
        deferred: Seq::empty(),
        removed: Seq::empty(),
        added: Seq::empty(),
        updated: Seq::empty(),
        diagnostics: Seq::empty(),
    }
}

/// `log` begins with `added`.
pub open spec fn begins_with(log: Seq<RbxId>, added: Seq<RbxId>) -> bool {
    &&& added.len() <= log.len()
    &&& forall|i: int| 0 <= i < added.len() ==> log[i] == added[i]
}

/// One removal: the instance and its subtree leave the tree, their
/// metadata goes with them, and the identifier is logged; a request that
/// cannot be met is reported instead.
pub open spec fn remove_step(s: ApplyState, id: RbxId) -> ApplyState {
    if removable(s.nodes, s.root, id) {
        ApplyState {
            nodes: nodes_after_remove(s.nodes, id),
            metadata: s.metadata.restrict(nodes_after_remove(s.nodes, id).dom()),
            removed: s.removed.push(id),
            ..s
        }
    } else if s.nodes.contains_key(id) {
        ApplyState { diagnostics: s.diagnostics.push(Diagnostic::RemoveRefused(id)), ..s }
    } else {
        ApplyState { diagnostics: s.diagnostics.push(Diagnostic::RemoveMissing(id)), ..s }
    }
}

/// The removals of a patch, in order.
pub open spec fn remove_all(s: ApplyState, ids: Seq<RbxId>) -> ApplyState
    decreases ids.len(),
{
    if ids.len() == 0 {
        s
    } else {
        remove_step(remove_all(s, ids.drop_last()), ids.last())
    }
}

/// The instance `id` enters the tree under `parent` for `snapshot`: named
/// and classed, without properties, which are deferred.
pub open spec fn add_node(s: ApplyState, parent: RbxId, snapshot: InstanceSnapshot, id: RbxId) -> ApplyState {
    ApplyState {
        nodes: nodes_after_insert(s.nodes, parent, id, snapshot.name@, snapshot.class_name@),
        metadata: s.metadata.insert(id, snapshot.metadata),
        added: s.added.push(id),
        deferred: s.deferred.push((id, snapshot.properties@)),
        translation: match snapshot.snapshot_id {
            Some(transient) => s.translation.insert(transient, id),
            None => s.translation,
        },
        ..s
    }
}

/// One snapshot is added under `parent`, then its children under it, in
/// their order. The tree chooses the identifiers; `log` says which it chose,
/// in the order of choosing. Under a parent that the tree lacks nothing is
/// added.
pub open spec fn add_snapshot(
    s: ApplyState,
    parent: RbxId,
    snapshot: InstanceSnapshot,
    log: Seq<RbxId>,
) -> ApplyState
    decreases snapshot, snapshot.children@.len() + 1,
{
    if s.nodes.contains_key(parent) {
        let id = log[s.added.len() as int];
        add_children(add_node(s, parent, snapshot, id), id, snapshot, snapshot.children@.len(), log)
    } else {
        ApplyState { diagnostics: s.diagnostics.push(Diagnostic::AddParentMissing(parent)), ..s }
    }
}

/// The first `count` children of `snapshot` are added under `parent`.
pub open spec fn add_children(
    s: ApplyState,
    parent: RbxId,
    snapshot: InstanceSnapshot,
    count: nat,
    log: Seq<RbxId>,
) -> ApplyState
    decreases snapshot, count,
{
    if count == 0 || count > snapshot.children@.len() {
        s
    } else {
        add_snapshot(
            add_children(s, parent, snapshot, (count - 1) as nat, log),
            parent,
            snapshot.children@[count - 1],
            log,
        )
    }
}

/// The additions of a patch, in order.
pub open spec fn add_all(s: ApplyState, adds: Seq<PatchAdd>, log: Seq<RbxId>) -> ApplyState
    decreases adds.len(),
{
    if adds.len() == 0 {
        s
    } else {
        add_snapshot(
            add_all(s, adds.drop_last(), log),
            adds.last().parent_id,
            adds.last().instance,
            log,
        )
    }
}

/// A value as it is written to the tree: a reference to a translated
/// identifier points at the translation, every other value is itself.
pub open spec fn resolve(value: RbxValue, translation: Map<RbxId, RbxId>) -> RbxValue {
    match ref_target(value) {
        Some(id) => if translation.contains_key(id) {
            ref_to(translation[id])
        } else {
            value
        },
        None => value,
    }
}

/// One property change on a property map.
pub open spec fn apply_change(
    properties: Map<Seq<char>, RbxValue>,
    key: Seq<char>,
    change: PropertyChange,
    translation: Map<RbxId, RbxId>,
) -> Map<Seq<char>, RbxValue> {
    match change {
        PropertyChange::SetTo(value) => properties.insert(key, resolve(value, translation)),
        PropertyChange::Remove => properties.remove(key),
        PropertyChange::Unchanged => properties,
    }
}

/// The property changes of an update, in order.
pub open spec fn apply_changes(
    properties: Map<Seq<char>, RbxValue>,
    changes: Seq<(String, PropertyChange)>,
    translation: Map<RbxId, RbxId>,
) -> Map<Seq<char>, RbxValue>
    decreases changes.len(),
{
    if changes.len() == 0 {
        properties
    } else {
        apply_change(
            apply_changes(properties, changes.drop_last(), translation),
            changes.last().0@,
            changes.last().1,
            translation,
        )
    }
}

/// The instance that an update makes of `node`.
pub open spec fn updated_node(node: Node, update: UpdateView, translation: Map<RbxId, RbxId>) -> Node {
    Node {
        name: match update.changed_name {
            Some(name) => name@,
            None => node.name,
        },
        class_name: match update.changed_class_name {
            Some(class_name) => class_name@,
            None => node.class_name,
        },
        properties: apply_changes(node.properties, update.changed_properties, translation),
        ..node
    }
}

/// One update: where the tree holds the target, everything requested is
/// done and logged as requested; where it does not, nothing is done or
/// logged, and the request is reported.
pub open spec fn update_step(s: ApplyState, update: UpdateView) -> ApplyState {
    if s.nodes.contains_key(update.id) {
        ApplyState {
            nodes: s.nodes.insert(update.id, updated_node(s.nodes[update.id], update, s.translation)),
            metadata: match update.changed_metadata {
                Some(metadata) => s.metadata.insert(update.id, metadata),
                None => s.metadata,
            },
            updated: s.updated.push(update),
            ..s
        }
    } else {
        ApplyState { diagnostics: s.diagnostics.push(Diagnostic::UpdateMissing(update.id)), ..s }
    }
}

/// The updates of a patch, in order.
pub open spec fn update_all(s: ApplyState, updates: Seq<UpdateView>) -> ApplyState
    decreases updates.len(),
{
    if updates.len() == 0 {
        s
    } else {
        update_step(update_all(s, updates.drop_last()), updates.last())
    }
}

/// The deferred properties of one instance, assigned in order.
pub open spec fn assign_properties(
    properties: Map<Seq<char>, RbxValue>,
    deferred: Seq<(String, RbxValue)>,
    translation: Map<RbxId, RbxId>,
) -> Map<Seq<char>, RbxValue>
    decreases deferred.len(),
{
    if deferred.len() == 0 {
        properties
    } else {
        assign_properties(properties, deferred.drop_last(), translation).insert(
            deferred.last().0@,
            resolve(deferred.last().1, translation),
        )
    }
}

/// The tree after the deferred properties of all added instances were
/// assigned, with the translation complete.
pub open spec fn finalize_nodes(
    nodes: Map<RbxId, Node>,
    deferred: Seq<(RbxId, Seq<(String, RbxValue)>)>,
    translation: Map<RbxId, RbxId>,
) -> Map<RbxId, Node>
    decreases deferred.len(),
{
    if deferred.len() == 0 {
        nodes
    } else {
        let before = finalize_nodes(nodes, deferred.drop_last(), translation);
        let id = deferred.last().0;
        before.insert(
            id,
            before[id].with_properties(
                assign_properties(before[id].properties, deferred.last().1, translation),
            ),
        )
    }
}

/// A whole patch: removals, then additions, then updates, then the deferred
/// properties.
pub open spec fn apply_patch(s: ApplyState, patch: PatchSet, log: Seq<RbxId>) -> ApplyState {
    let removed = remove_all(s, patch.removed_instances@);
    let added = add_all(removed, patch.added_instances@, log);
    let updated = update_all(added, requested_updates(patch.updated_instances@));
    ApplyState {
        nodes: finalize_nodes(updated.nodes, updated.deferred, updated.translation),
        ..updated
    }
}

} // verus!
