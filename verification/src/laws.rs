//! What holds of every application of a patch.

use crate::dom::{nodes_after_remove, nodes_detached, ref_target, ref_to, removable, Node};
use crate::model::{
    add_all, add_children, add_node, add_snapshot, apply_change, apply_patch, finalize_nodes,
    initial_state, remove_all, remove_step, resolve, update_all, update_step, ApplyState,
};
use crate::patch::{
    requested_updates, Diagnostic, InstanceMetadata, InstanceSnapshot, PatchAdd, PatchSet,
    PropertyChange, UpdateView,
};
use rbx_dom_weak::{RbxId, RbxValue};
use vstd::prelude::*;

verus! {

/// Removing an identifier that the tree does not hold changes neither the
/// tree nor the list of removed identifiers, and reports exactly one skipped
/// request.
pub proof fn lemma_remove_missing_only_reports(s: ApplyState, id: RbxId)
    requires
        !s.nodes.contains_key(id),
    ensures
        remove_step(s, id) == (ApplyState {
            diagnostics: s.diagnostics.push(Diagnostic::RemoveMissing(id)),
            ..s
        }),
{
}

/// A removal is logged exactly when the tree could give the instance up,
/// and then the instance is gone, and its metadata with it.
pub proof fn lemma_remove_logged_iff_done(s: ApplyState, id: RbxId)
    ensures
        removable(s.nodes, s.root, id) ==> remove_step(s, id).removed == s.removed.push(id)
            && !remove_step(s, id).nodes.contains_key(id) && !remove_step(
            s,
            id,
        ).metadata.contains_key(id) && remove_step(s, id).diagnostics == s.diagnostics,
        !removable(s.nodes, s.root, id) ==> remove_step(s, id).removed == s.removed
            && remove_step(s, id).nodes == s.nodes && remove_step(s, id).diagnostics.len()
            == s.diagnostics.len() + 1,
{
}

/// An update is logged exactly when the tree holds its target; otherwise
/// neither the tree nor the log changes, and one skipped request is
/// reported.
pub proof fn lemma_update_logged_iff_done(s: ApplyState, update: UpdateView)
    ensures
        s.nodes.contains_key(update.id) ==> update_step(s, update).updated == s.updated.push(
            update,
        ) && update_step(s, update).diagnostics == s.diagnostics,
        !s.nodes.contains_key(update.id) ==> update_step(s, update) == (ApplyState {
            diagnostics: s.diagnostics.push(Diagnostic::UpdateMissing(update.id)),
            ..s
        }),
{
}

/// Removal never brings an instance into the tree.
pub proof fn lemma_remove_step_shrinks(s: ApplyState, id: RbxId)
    ensures
        remove_step(s, id).nodes.dom().subset_of(s.nodes.dom()),
{
    if removable(s.nodes, s.root, id) {
        let detached = nodes_detached(s.nodes, id);
        assert(detached.dom() =~= s.nodes.dom());
    }
}

/// Every identifier that a run of removals logs was in the tree when the
/// run began: no skipped request is logged.
pub proof fn lemma_removed_were_in_tree(s: ApplyState, ids: Seq<RbxId>)
    ensures
        remove_all(s, ids).nodes.dom().subset_of(s.nodes.dom()),
        s.removed.len() <= remove_all(s, ids).removed.len() <= s.removed.len() + ids.len(),
        forall|k: int|
            0 <= k < s.removed.len() ==> remove_all(s, ids).removed[k] == s.removed[k],
        forall|k: int|
            s.removed.len() <= k < remove_all(s, ids).removed.len() ==> s.nodes.contains_key(
                #[trigger] remove_all(s, ids).removed[k],
            ) && ids.contains(remove_all(s, ids).removed[k]),
    decreases ids.len(),
{
    if ids.len() > 0 {
        let earlier = remove_all(s, ids.drop_last());
        lemma_removed_were_in_tree(s, ids.drop_last());
        lemma_remove_step_shrinks(earlier, ids.last());
        let later = remove_all(s, ids);
        assert forall|k: int| s.removed.len() <= k < later.removed.len() implies s.nodes.contains_key(
            #[trigger] later.removed[k],
        ) && ids.contains(later.removed[k]) by {
            if k < earlier.removed.len() {
                assert(later.removed[k] == earlier.removed[k]);
                let j = choose|j: int|
                    0 <= j < ids.drop_last().len() && ids.drop_last()[j] == earlier.removed[k];
                assert(ids[j] == earlier.removed[k]);
            } else {
                assert(later.removed[k] == ids.last());
                assert(ids[ids.len() - 1] == ids.last());
            }
        }
    }
}

/// Every update that a run of updates logs names an instance of the tree,
/// and the run neither adds nor removes an instance: no skipped request is
/// logged.
pub proof fn lemma_updated_are_in_tree(s: ApplyState, updates: Seq<UpdateView>)
    ensures
        update_all(s, updates).nodes.dom() == s.nodes.dom(),
        s.updated.len() <= update_all(s, updates).updated.len(),
        forall|k: int|
            s.updated.len() <= k < update_all(s, updates).updated.len() ==> s.nodes.contains_key(
                (#[trigger] update_all(s, updates).updated[k]).id,
            ),
    decreases updates.len(),
{
    if updates.len() > 0 {
        let earlier = update_all(s, updates.drop_last());
        lemma_updated_are_in_tree(s, updates.drop_last());
        let later = update_all(s, updates);
        assert(later.nodes.dom() =~= earlier.nodes.dom());
        assert forall|k: int| s.updated.len() <= k < later.updated.len() implies s.nodes.contains_key(
            (#[trigger] later.updated[k]).id,
        ) by {
            if k < earlier.updated.len() {
                assert(later.updated[k] == earlier.updated[k]);
            } else {
                assert(later.updated[k] == updates.last());
                assert(earlier.nodes.dom().contains(updates.last().id));
            }
        }
    }
}

/// What cannot be removed stays so through any removal.
pub proof fn lemma_unremovable_stays(s: ApplyState, removed_id: RbxId, id: RbxId)
    requires
        !removable(s.nodes, s.root, id),
    ensures
        !removable(remove_step(s, removed_id).nodes, s.root, id),
        remove_step(s, removed_id).root == s.root,
{
    if removable(s.nodes, s.root, removed_id) {
        let detached = nodes_detached(s.nodes, removed_id);
        let later = nodes_after_remove(s.nodes, removed_id);
        assert(detached.dom() =~= s.nodes.dom());
        if later.contains_key(id) {
            assert(detached.contains_key(id));
            assert(later[id] == detached[id]);
            assert(detached[id].parent == s.nodes[id].parent);
            if later[id].parent is Some && later.contains_key(later[id].parent->0) {
                assert(detached.contains_key(later[id].parent->0));
            }
        }
    }
}

/// After a run of removals none of its identifiers can be removed.
pub proof fn lemma_nothing_left_to_remove(s: ApplyState, ids: Seq<RbxId>)
    ensures
        remove_all(s, ids).root == s.root,
        forall|j: int|
            0 <= j < ids.len() ==> !removable(remove_all(s, ids).nodes, s.root, #[trigger] ids[j]),
    decreases ids.len(),
{
    if ids.len() > 0 {
        let earlier = remove_all(s, ids.drop_last());
        lemma_nothing_left_to_remove(s, ids.drop_last());
        let later = remove_all(s, ids);
        assert forall|j: int| 0 <= j < ids.len() implies !removable(
            later.nodes,
            s.root,
            #[trigger] ids[j],
        ) by {
            if j < ids.len() - 1 {
                assert(ids.drop_last()[j] == ids[j]);
                lemma_unremovable_stays(earlier, ids.last(), ids[j]);
            }
        }
    }
}

/// A run of removals of which none can be done changes nothing but the
/// reports, of which it adds one for each request.
pub proof fn lemma_futile_removals(s: ApplyState, ids: Seq<RbxId>)
    requires
        forall|j: int| 0 <= j < ids.len() ==> !removable(s.nodes, s.root, #[trigger] ids[j]),
    ensures
        remove_all(s, ids).nodes == s.nodes,
        remove_all(s, ids).root == s.root,
        remove_all(s, ids).metadata == s.metadata,
        remove_all(s, ids).removed == s.removed,
        remove_all(s, ids).diagnostics.len() == s.diagnostics.len() + ids.len(),
    decreases ids.len(),
{
    if ids.len() > 0 {
        assert forall|j: int| 0 <= j < ids.drop_last().len() implies !removable(
            s.nodes,
            s.root,
            #[trigger] ids.drop_last()[j],
        ) by {
            assert(ids.drop_last()[j] == ids[j]);
        }
        lemma_futile_removals(s, ids.drop_last());
        assert(ids.last() == ids[ids.len() - 1]);
    }
}

/// Applying the same removals a second time, to the tree that the first
/// application left, removes nothing: the tree, its metadata and the list of
/// removed identifiers stay as the second application found them, and every
/// request is reported as skipped.
pub proof fn lemma_second_removal_removes_nothing(s: ApplyState, again: ApplyState, ids: Seq<RbxId>)
    requires
        again.nodes == remove_all(s, ids).nodes,
        again.root == s.root,
    ensures
        remove_all(again, ids).nodes == again.nodes,
        remove_all(again, ids).metadata == again.metadata,
        remove_all(again, ids).removed == again.removed,
        remove_all(again, ids).diagnostics.len() == again.diagnostics.len() + ids.len(),
{
    lemma_nothing_left_to_remove(s, ids);
    lemma_futile_removals(again, ids);
}

/// A reference whose target has no translation is written as it is, in an
/// update as among deferred properties.
pub proof fn lemma_untranslated_reference_written_unchanged(
    properties: Map<Seq<char>, RbxValue>,
    key: Seq<char>,
    value: RbxValue,
    translation: Map<RbxId, RbxId>,
)
    requires
        ref_target(value) matches Some(id) && !translation.contains_key(id),
    ensures
        resolve(value, translation) == value,
        apply_change(properties, key, PropertyChange::SetTo(value), translation)
            == properties.insert(key, value),
{
}

/// A reference whose target has a translation is written as the reference
/// to the translation, never as it came.
pub proof fn lemma_translated_reference_redirected(value: RbxValue, translation: Map<RbxId, RbxId>)
    requires
        ref_target(value) matches Some(id) && translation.contains_key(id),
    ensures
        resolve(value, translation) == ref_to(translation[ref_target(value)->0]),
{
}

/// A value that is no reference, or a reference to nothing, is written as it
/// is.
pub proof fn lemma_plain_value_written_unchanged(value: RbxValue, translation: Map<RbxId, RbxId>)
    requires
        ref_target(value) is None,
    ensures
        resolve(value, translation) == value,
{
}

/// Adding a snapshot leaves the lists of removals and updates alone, takes
/// no instance out of the tree and no entry out of the translation; where
/// the parent is in the tree and the snapshot has a transient identifier,
/// that identifier is translated afterwards.
pub proof fn lemma_add_snapshot_keeps(
    s: ApplyState,
    parent: RbxId,
    snapshot: InstanceSnapshot,
    log: Seq<RbxId>,
)
    ensures
        add_snapshot(s, parent, snapshot, log).removed == s.removed,
        add_snapshot(s, parent, snapshot, log).updated == s.updated,
        add_snapshot(s, parent, snapshot, log).root == s.root,
        s.nodes.dom().subset_of(add_snapshot(s, parent, snapshot, log).nodes.dom()),
        s.translation.dom().subset_of(add_snapshot(s, parent, snapshot, log).translation.dom()),
        s.nodes.contains_key(parent) ==> (snapshot.snapshot_id matches Some(transient)
            ==> add_snapshot(s, parent, snapshot, log).translation.contains_key(transient)),
    decreases snapshot, snapshot.children@.len() + 1,
{
    if s.nodes.contains_key(parent) {
        let id = log[s.added.len() as int];
        lemma_add_children_keeps(
            add_node(s, parent, snapshot, id),
            id,
            snapshot,
            snapshot.children@.len(),
            log,
        );
    }
}

/// Adding children leaves the lists of removals and updates alone and takes
/// no instance out of the tree and no entry out of the translation.
pub proof fn lemma_add_children_keeps(
    s: ApplyState,
    parent: RbxId,
    snapshot: InstanceSnapshot,
    count: nat,
    log: Seq<RbxId>,
)
    ensures
        add_children(s, parent, snapshot, count, log).removed == s.removed,
        add_children(s, parent, snapshot, count, log).updated == s.updated,
        add_children(s, parent, snapshot, count, log).root == s.root,
        s.nodes.dom().subset_of(add_children(s, parent, snapshot, count, log).nodes.dom()),
        s.translation.dom().subset_of(
            add_children(s, parent, snapshot, count, log).translation.dom(),
        ),
    decreases snapshot, count,
{
    if !(count == 0 || count > snapshot.children@.len()) {
        lemma_add_children_keeps(s, parent, snapshot, (count - 1) as nat, log);
        lemma_add_snapshot_keeps(
            add_children(s, parent, snapshot, (count - 1) as nat, log),
            parent,
            snapshot.children@[count - 1],
            log,
        );
    }
}

/// The additions of a patch leave the lists of removals and updates alone
/// and take no entry out of the translation.
pub proof fn lemma_add_all_keeps(s: ApplyState, adds: Seq<PatchAdd>, log: Seq<RbxId>)
    ensures
        add_all(s, adds, log).removed == s.removed,
        add_all(s, adds, log).updated == s.updated,
        add_all(s, adds, log).root == s.root,
        s.translation.dom().subset_of(add_all(s, adds, log).translation.dom()),
    decreases adds.len(),
{
    if adds.len() > 0 {
        lemma_add_all_keeps(s, adds.drop_last(), log);
        lemma_add_snapshot_keeps(
            add_all(s, adds.drop_last(), log),
            adds.last().parent_id,
            adds.last().instance,
            log,
        );
    }
}

/// Assigning deferred properties takes no instance out of the tree.
pub proof fn lemma_finalize_keeps_instances(
    nodes: Map<RbxId, Node>,
    deferred: Seq<(RbxId, Seq<(String, RbxValue)>)>,
    translation: Map<RbxId, RbxId>,
)
    ensures
        nodes.dom().subset_of(finalize_nodes(nodes, deferred, translation).dom()),
    decreases deferred.len(),
{
    if deferred.len() > 0 {
        lemma_finalize_keeps_instances(nodes, deferred.drop_last(), translation);
    }
}

/// The change log of a whole application lists no skipped request: every
/// identifier it lists as removed was requested and was in the tree before,
/// and every update it lists names an instance that the tree holds
/// afterwards.
pub proof fn lemma_log_lists_only_what_was_done(
    root: RbxId,
    nodes: Map<RbxId, Node>,
    metadata: Map<RbxId, InstanceMetadata>,
    patch: PatchSet,
    log: Seq<RbxId>,
)
    ensures
        forall|k: int|
            0 <= k < apply_patch(initial_state(root, nodes, metadata), patch, log).removed.len()
                ==> nodes.contains_key(
                #[trigger] apply_patch(initial_state(root, nodes, metadata), patch, log).removed[k],
            ) && patch.removed_instances@.contains(
                apply_patch(initial_state(root, nodes, metadata), patch, log).removed[k],
            ),
        forall|k: int|
            0 <= k < apply_patch(initial_state(root, nodes, metadata), patch, log).updated.len()
                ==> apply_patch(initial_state(root, nodes, metadata), patch, log).nodes.contains_key(
                (#[trigger] apply_patch(
                    initial_state(root, nodes, metadata),
                    patch,
                    log,
                ).updated[k]).id,
            ),
{
    let start = initial_state(root, nodes, metadata);
    let cleared = remove_all(start, patch.removed_instances@);
    let grown = add_all(cleared, patch.added_instances@, log);
    let changed = update_all(grown, requested_updates(patch.updated_instances@));
    let done = apply_patch(start, patch, log);
    lemma_removed_were_in_tree(start, patch.removed_instances@);
    lemma_add_all_keeps(cleared, patch.added_instances@, log);
    lemma_update_all_keeps_removed(grown, requested_updates(patch.updated_instances@));
    lemma_remove_all_keeps_updated(start, patch.removed_instances@);
    lemma_updated_are_in_tree(grown, requested_updates(patch.updated_instances@));
    lemma_finalize_keeps_instances(changed.nodes, changed.deferred, changed.translation);
    assert(done.removed == cleared.removed);
    assert(grown.updated.len() == 0);
    assert forall|k: int| 0 <= k < done.updated.len() implies done.nodes.contains_key(
        (#[trigger] done.updated[k]).id,
    ) by {
        assert(grown.nodes.contains_key(changed.updated[k].id));
        assert(changed.nodes.dom().contains(changed.updated[k].id));
    }
}

/// Updates leave the list of removals alone.
pub proof fn lemma_update_all_keeps_removed(s: ApplyState, updates: Seq<UpdateView>)
    ensures
        update_all(s, updates).removed == s.removed,
    decreases updates.len(),
{
    if updates.len() > 0 {
        lemma_update_all_keeps_removed(s, updates.drop_last());
    }
}

/// Removals leave the list of updates alone.
pub proof fn lemma_remove_all_keeps_updated(s: ApplyState, ids: Seq<RbxId>)
    ensures
        remove_all(s, ids).updated == s.updated,
    decreases ids.len(),
{
    if ids.len() > 0 {
        lemma_remove_all_keeps_updated(s, ids.drop_last());
    }
}

/// `later` continues the list `earlier`, and each identifier that it
/// appends names an instance of `nodes`.
pub open spec fn appends_instances(
    earlier: Seq<RbxId>,
    later: Seq<RbxId>,
    nodes: Map<RbxId, Node>,
) -> bool {
    &&& earlier.len() <= later.len()
    &&& forall|k: int| 0 <= k < earlier.len() ==> later[k] == earlier[k]
    &&& forall|k: int| earlier.len() <= k < later.len() ==> nodes.contains_key(#[trigger] later[k])
}

/// Every identifier that adding a snapshot logs names an instance of the
/// tree.
pub proof fn lemma_add_snapshot_lists_instances(
    s: ApplyState,
    parent: RbxId,
    snapshot: InstanceSnapshot,
    log: Seq<RbxId>,
)
    ensures
        appends_instances(
            s.added,
            add_snapshot(s, parent, snapshot, log).added,
            add_snapshot(s, parent, snapshot, log).nodes,
        ),
    decreases snapshot, snapshot.children@.len() + 1,
{
    if s.nodes.contains_key(parent) {
        let id = log[s.added.len() as int];
        let entered = add_node(s, parent, snapshot, id);
        let later = add_snapshot(s, parent, snapshot, log);
        lemma_add_children_lists_instances(entered, id, snapshot, snapshot.children@.len(), log);
        lemma_add_children_keeps(entered, id, snapshot, snapshot.children@.len(), log);
        assert(entered.nodes.contains_key(id));
        assert forall|k: int| s.added.len() <= k < later.added.len() implies later.nodes.contains_key(
            #[trigger] later.added[k],
        ) by {
            if k == s.added.len() {
                assert(later.added[k] == entered.added[k]);
                assert(entered.nodes.dom().contains(id));
            }
        }
    }
}

/// Every identifier that adding children logs names an instance of the
/// tree.
pub proof fn lemma_add_children_lists_instances(
    s: ApplyState,
    parent: RbxId,
    snapshot: InstanceSnapshot,
    count: nat,
    log: Seq<RbxId>,
)
    ensures
        appends_instances(
            s.added,
            add_children(s, parent, snapshot, count, log).added,
            add_children(s, parent, snapshot, count, log).nodes,
        ),
    decreases snapshot, count,
{
    if !(count == 0 || count > snapshot.children@.len()) {
        let earlier = add_children(s, parent, snapshot, (count - 1) as nat, log);
        let later = add_children(s, parent, snapshot, count, log);
        lemma_add_children_lists_instances(s, parent, snapshot, (count - 1) as nat, log);
        lemma_add_snapshot_lists_instances(earlier, parent, snapshot.children@[count - 1], log);
        lemma_add_snapshot_keeps(earlier, parent, snapshot.children@[count - 1], log);
        assert forall|k: int| s.added.len() <= k < later.added.len() implies later.nodes.contains_key(
            #[trigger] later.added[k],
        ) by {
            if k < earlier.added.len() {
                assert(later.added[k] == earlier.added[k]);
                assert(earlier.nodes.dom().contains(earlier.added[k]));
            }
        }
    }
}

/// Every identifier that the additions of a patch log names an instance of
/// the tree.
pub proof fn lemma_add_all_lists_instances(s: ApplyState, adds: Seq<PatchAdd>, log: Seq<RbxId>)
    ensures
        appends_instances(s.added, add_all(s, adds, log).added, add_all(s, adds, log).nodes),
    decreases adds.len(),
{
    if adds.len() > 0 {
        let earlier = add_all(s, adds.drop_last(), log);
        let later = add_all(s, adds, log);
        lemma_add_all_lists_instances(s, adds.drop_last(), log);
        lemma_add_snapshot_lists_instances(
            earlier,
            adds.last().parent_id,
            adds.last().instance,
            log,
        );
        lemma_add_snapshot_keeps(earlier, adds.last().parent_id, adds.last().instance, log);
        assert forall|k: int| s.added.len() <= k < later.added.len() implies later.nodes.contains_key(
            #[trigger] later.added[k],
        ) by {
            if k < earlier.added.len() {
                assert(later.added[k] == earlier.added[k]);
                assert(earlier.nodes.dom().contains(earlier.added[k]));
            }
        }
    }
}

/// Updates leave the list of added identifiers alone.
pub proof fn lemma_update_all_keeps_added(s: ApplyState, updates: Seq<UpdateView>)
    ensures
        update_all(s, updates).added == s.added,
    decreases updates.len(),
{
    if updates.len() > 0 {
        lemma_update_all_keeps_added(s, updates.drop_last());
    }
}

/// Removals leave the list of added identifiers alone.
pub proof fn lemma_remove_all_keeps_added(s: ApplyState, ids: Seq<RbxId>)
    ensures
        remove_all(s, ids).added == s.added,
    decreases ids.len(),
{
    if ids.len() > 0 {
        lemma_remove_all_keeps_added(s, ids.drop_last());
    }
}

/// Every identifier that a whole application lists as added names an
/// instance that the tree holds afterwards.
pub proof fn lemma_added_are_in_tree(
    root: RbxId,
    nodes: Map<RbxId, Node>,
    metadata: Map<RbxId, InstanceMetadata>,
    patch: PatchSet,
    log: Seq<RbxId>,
)
    ensures
        forall|k: int|
            0 <= k < apply_patch(initial_state(root, nodes, metadata), patch, log).added.len()
                ==> apply_patch(initial_state(root, nodes, metadata), patch, log).nodes.contains_key(
                #[trigger] apply_patch(initial_state(root, nodes, metadata), patch, log).added[k],
            ),
{
    let start = initial_state(root, nodes, metadata);
    let cleared = remove_all(start, patch.removed_instances@);
    let grown = add_all(cleared, patch.added_instances@, log);
    let changed = update_all(grown, requested_updates(patch.updated_instances@));
    let done = apply_patch(start, patch, log);
    lemma_remove_all_keeps_added(start, patch.removed_instances@);
    lemma_add_all_lists_instances(cleared, patch.added_instances@, log);
    lemma_update_all_keeps_added(grown, requested_updates(patch.updated_instances@));
    lemma_updated_are_in_tree(grown, requested_updates(patch.updated_instances@));
    lemma_finalize_keeps_instances(changed.nodes, changed.deferred, changed.translation);
    assert forall|k: int| 0 <= k < done.added.len() implies done.nodes.contains_key(
        #[trigger] done.added[k],
    ) by {
        assert(grown.nodes.contains_key(grown.added[k]));
        assert(changed.nodes.dom().contains(grown.added[k]));
    }
}

} // verus!
