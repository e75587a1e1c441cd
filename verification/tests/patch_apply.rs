use std::collections::HashMap;

use rbx_dom_weak::{RbxId, RbxInstanceProperties, RbxTree, RbxValue};
use tree_patch::patch::{
    AppliedPatchUpdate, Diagnostic, InstanceMetadata, InstanceSnapshot, PatchAdd, PatchSet,
    PatchUpdate, PropertyChange,
};
use tree_patch::patch_apply::{
    apply_add_child, apply_patch_set, apply_patch_set_reporting, apply_remove_instance,
    apply_update_child, clone_change, clone_text, finalize_patch_application, resolve_value,
    PatchApplyContext,
};
use tree_patch::tree::{assoc_get, RojoTree};

fn int32(value: i32) -> RbxValue {
    RbxValue::Int32 { value }
}

fn reference(id: RbxId) -> RbxValue {
    RbxValue::Ref { value: Some(id) }
}

fn tree_with_root(name: &str, class_name: &str, properties: Vec<(&str, RbxValue)>) -> RojoTree {
    let mut map = HashMap::new();
    for (key, value) in properties {
        map.insert(key.to_owned(), value);
    }
    RojoTree::new(
        RbxTree::new(RbxInstanceProperties {
            name: name.to_owned(),
            class_name: class_name.to_owned(),
            properties: map,
        }),
        InstanceMetadata::default(),
    )
}

fn folder_tree() -> RojoTree {
    tree_with_root("Folder", "Folder", Vec::new())
}

fn snapshot(
    snapshot_id: Option<RbxId>,
    name: &str,
    class_name: &str,
    properties: Vec<(&str, RbxValue)>,
    children: Vec<InstanceSnapshot>,
) -> InstanceSnapshot {
    InstanceSnapshot {
        snapshot_id,
        metadata: InstanceMetadata::default(),
        name: name.to_owned(),
        class_name: class_name.to_owned(),
        properties: properties
            .into_iter()
            .map(|(key, value)| (key.to_owned(), value))
            .collect(),
        children,
    }
}

fn additions(parent_id: RbxId, instances: Vec<InstanceSnapshot>) -> PatchSet {
    PatchSet {
        added_instances: instances
            .into_iter()
            .map(|instance| PatchAdd { parent_id, instance })
            .collect(),
        ..PatchSet::new()
    }
}

fn removals(ids: Vec<RbxId>) -> PatchSet {
    PatchSet {
        removed_instances: ids,
        ..PatchSet::new()
    }
}

fn update(id: RbxId, changes: Vec<(&str, PropertyChange)>) -> PatchUpdate {
    PatchUpdate {
        id,
        changed_name: None,
        changed_class_name: None,
        changed_properties: changes
            .into_iter()
            .map(|(key, change)| (key.to_owned(), change))
            .collect(),
        changed_metadata: None,
    }
}

fn updates(list: Vec<PatchUpdate>) -> PatchSet {
    PatchSet {
        updated_instances: list,
        ..PatchSet::new()
    }
}

fn children_of(tree: &RojoTree, id: RbxId) -> Vec<RbxId> {
    tree.inner()
        .get_instance(id)
        .unwrap()
        .get_children_ids()
        .to_vec()
}

fn properties_of(tree: &RojoTree, id: RbxId) -> HashMap<String, RbxValue> {
    tree.inner().get_instance(id).unwrap().properties.clone()
}

fn expected(properties: Vec<(&str, RbxValue)>) -> HashMap<String, RbxValue> {
    properties
        .into_iter()
        .map(|(key, value)| (key.to_owned(), value))
        .collect()
}

#[test]
fn add_from_empty() {
    let mut tree = folder_tree();

    let root_id = tree.get_root_id();

    let patch_set = additions(
        root_id,
        vec![snapshot(None, "Foo", "Bar", vec![("Baz", int32(5))], Vec::new())],
    );

    apply_patch_set(&mut tree, patch_set);

    let root_instance = tree.inner().get_instance(root_id).unwrap();
    let child_id = root_instance.get_children_ids()[0];
    let child_instance = tree.inner().get_instance(child_id).unwrap();

    assert_eq!(child_instance.name, "Foo");
    assert_eq!(child_instance.class_name, "Bar");
    assert_eq!(child_instance.properties, expected(vec![("Baz", int32(5))]));
    assert!(child_instance.get_children_ids().is_empty());
}

#[test]
fn update_existing() {
    let mut tree = tree_with_root(
        "OldName",
        "OldClassName",
        vec![
            ("Foo", int32(7)),
            ("Bar", int32(3)),
            ("Unchanged", int32(-5)),
        ],
    );

    let root_id = tree.get_root_id();

    let patch = PatchUpdate {
        id: root_id,
        changed_name: Some("Foo".to_owned()),
        changed_class_name: Some("NewClassName".to_owned()),
        changed_properties: vec![
            // The value of Foo has changed
            ("Foo".to_owned(), PropertyChange::SetTo(int32(8))),
            // Bar has been deleted
            ("Bar".to_owned(), PropertyChange::Remove),
            // Baz has been added
            ("Baz".to_owned(), PropertyChange::SetTo(int32(10))),
        ],
        changed_metadata: None,
    };

    let patch_set = updates(vec![patch]);

    apply_patch_set(&mut tree, patch_set);

    let expected_properties = expected(vec![
        ("Foo", int32(8)),
        ("Baz", int32(10)),
        ("Unchanged", int32(-5)),
    ]);

    let root_instance = tree.inner().get_instance(root_id).unwrap();
    assert_eq!(root_instance.name, "Foo");
    assert_eq!(root_instance.class_name, "NewClassName");
    assert_eq!(root_instance.properties, expected_properties);
}

#[test]
fn add_from_empty_logs_the_new_identifier() {
    let mut tree = folder_tree();
    let root_id = tree.get_root_id();
    let patch_set = additions(root_id, vec![snapshot(None, "Foo", "Bar", Vec::new(), Vec::new())]);

    let (applied, diagnostics) = apply_patch_set_reporting(&mut tree, &patch_set);

    assert_eq!(children_of(&tree, root_id), applied.added);
    assert_eq!(applied.added.len(), 1);
    assert!(applied.removed.is_empty());
    assert!(applied.updated.is_empty());
    assert!(diagnostics.is_empty());
    assert_eq!(
        tree.inner().get_instance(applied.added[0]).unwrap().get_parent_id(),
        Some(root_id)
    );
}

#[test]
fn update_existing_logs_what_was_requested() {
    let mut tree = tree_with_root("OldName", "OldClassName", vec![("Bar", int32(3))]);
    let root_id = tree.get_root_id();
    let mut patch = update(
        root_id,
        vec![
            ("Foo", PropertyChange::SetTo(int32(8))),
            ("Bar", PropertyChange::Remove),
            ("Qux", PropertyChange::Unchanged),
        ],
    );
    patch.changed_name = Some("Foo".to_owned());
    patch.changed_metadata = Some(InstanceMetadata { ignore_unknown_instances: true });

    let applied = apply_patch_set(&mut tree, updates(vec![patch]));

    assert_eq!(applied.updated.len(), 1);
    let record = &applied.updated[0];
    assert_eq!(record.id, root_id);
    assert_eq!(record.changed_name, Some("Foo".to_owned()));
    assert_eq!(record.changed_class_name, None);
    assert_eq!(
        record.changed_metadata,
        Some(InstanceMetadata { ignore_unknown_instances: true })
    );
    assert_eq!(record.changed_properties.len(), 3);
    assert_eq!(record.changed_properties[0].0, "Foo");
    assert!(matches!(&record.changed_properties[0].1, PropertyChange::SetTo(v) if *v == int32(8)));
    assert_eq!(record.changed_properties[1].0, "Bar");
    assert!(matches!(record.changed_properties[1].1, PropertyChange::Remove));
    assert_eq!(record.changed_properties[2].0, "Qux");
    assert!(matches!(record.changed_properties[2].1, PropertyChange::Unchanged));

    assert_eq!(properties_of(&tree, root_id), expected(vec![("Foo", int32(8))]));
    assert_eq!(tree.inner().get_instance(root_id).unwrap().class_name, "OldClassName");
    assert_eq!(
        tree.get_metadata(root_id),
        Some(InstanceMetadata { ignore_unknown_instances: true })
    );
}

#[test]
fn remove_missing_is_skipped_and_reported_once() {
    let mut tree = tree_with_root("Root", "Folder", vec![("Foo", int32(1))]);
    let root_id = tree.get_root_id();
    let stranger = RbxId::new();

    let (applied, diagnostics) = apply_patch_set_reporting(&mut tree, &removals(vec![stranger]));

    assert!(applied.removed.is_empty());
    assert!(applied.added.is_empty());
    assert!(applied.updated.is_empty());
    assert_eq!(diagnostics, vec![Diagnostic::RemoveMissing(stranger)]);
    assert!(tree.contains(root_id));
    assert_eq!(properties_of(&tree, root_id), expected(vec![("Foo", int32(1))]));
}

#[test]
fn remove_takes_the_subtree_along() {
    let mut tree = folder_tree();
    let root_id = tree.get_root_id();
    let patch = additions(
        root_id,
        vec![
            snapshot(
                None,
                "A",
                "Folder",
                Vec::new(),
                vec![snapshot(None, "A1", "Folder", Vec::new(), Vec::new())],
            ),
            snapshot(None, "B", "Folder", Vec::new(), Vec::new()),
        ],
    );
    let added = apply_patch_set(&mut tree, patch).added;
    assert_eq!(added.len(), 3);
    let (a, a1, b) = (added[0], added[1], added[2]);
    assert_eq!(children_of(&tree, root_id), vec![a, b]);
    assert_eq!(children_of(&tree, a), vec![a1]);

    let (applied, diagnostics) = apply_patch_set_reporting(&mut tree, &removals(vec![a]));

    assert_eq!(applied.removed, vec![a]);
    assert!(diagnostics.is_empty());
    assert!(!tree.contains(a));
    assert!(!tree.contains(a1));
    assert!(tree.contains(b));
    assert_eq!(children_of(&tree, root_id), vec![b]);
    assert_eq!(tree.get_metadata(a), None);
    assert_eq!(tree.get_metadata(a1), None);
    assert_eq!(tree.get_metadata(b), Some(InstanceMetadata::new()));
    assert_eq!(tree.get_metadata(root_id), Some(InstanceMetadata::new()));
}

#[test]
fn remove_twice_removes_nothing_the_second_time() {
    let mut tree = folder_tree();
    let root_id = tree.get_root_id();
    let added = apply_patch_set(
        &mut tree,
        additions(
            root_id,
            vec![
                snapshot(None, "A", "Folder", Vec::new(), Vec::new()),
                snapshot(None, "B", "Folder", vec![("Foo", int32(2))], Vec::new()),
            ],
        ),
    )
    .added;
    let (a, b) = (added[0], added[1]);

    let first = apply_patch_set(&mut tree, removals(vec![a]));
    assert_eq!(first.removed, vec![a]);

    let (second, diagnostics) = apply_patch_set_reporting(&mut tree, &removals(vec![a]));
    assert!(second.removed.is_empty());
    assert_eq!(diagnostics, vec![Diagnostic::RemoveMissing(a)]);
    assert_eq!(children_of(&tree, root_id), vec![b]);
    assert_eq!(properties_of(&tree, b), expected(vec![("Foo", int32(2))]));
    assert_eq!(tree.inner().get_instance(b).unwrap().name, "B");
}

#[test]
fn remove_of_parent_and_child_in_either_order() {
    for parent_first in [true, false] {
        let mut tree = folder_tree();
        let root_id = tree.get_root_id();
        let added = apply_patch_set(
            &mut tree,
            additions(
                root_id,
                vec![snapshot(
                    None,
                    "A",
                    "Folder",
                    Vec::new(),
                    vec![snapshot(None, "A1", "Folder", Vec::new(), Vec::new())],
                )],
            ),
        )
        .added;
        let (a, a1) = (added[0], added[1]);
        let ids = if parent_first { vec![a, a1] } else { vec![a1, a] };

        let (applied, diagnostics) = apply_patch_set_reporting(&mut tree, &removals(ids));

        if parent_first {
            assert_eq!(applied.removed, vec![a]);
            assert_eq!(diagnostics, vec![Diagnostic::RemoveMissing(a1)]);
        } else {
            assert_eq!(applied.removed, vec![a1, a]);
            assert!(diagnostics.is_empty());
        }
        assert!(!tree.contains(a));
        assert!(!tree.contains(a1));
        assert!(children_of(&tree, root_id).is_empty());
    }
}

#[test]
fn remove_of_the_root_is_refused() {
    let mut tree = folder_tree();
    let root_id = tree.get_root_id();
    assert!(!tree.can_remove(root_id));

    let (applied, diagnostics) = apply_patch_set_reporting(&mut tree, &removals(vec![root_id]));

    assert!(applied.removed.is_empty());
    assert_eq!(diagnostics, vec![Diagnostic::RemoveRefused(root_id)]);
    assert!(tree.contains(root_id));
}

#[test]
fn forward_reference_is_resolved_to_the_tree_identifier() {
    let mut tree = folder_tree();
    let root_id = tree.get_root_id();
    let s1 = RbxId::new();
    let s2 = RbxId::new();
    let patch = additions(
        root_id,
        vec![
            snapshot(Some(s1), "A", "ObjectValue", vec![("Value", reference(s2))], Vec::new()),
            snapshot(Some(s2), "B", "Folder", vec![("Back", reference(s1))], Vec::new()),
        ],
    );

    let applied = apply_patch_set(&mut tree, patch);

    assert_eq!(applied.added.len(), 2);
    let (a, b) = (applied.added[0], applied.added[1]);
    assert_ne!(a, s1);
    assert_ne!(b, s2);
    assert_eq!(properties_of(&tree, a), expected(vec![("Value", reference(b))]));
    assert_eq!(properties_of(&tree, b), expected(vec![("Back", reference(a))]));
    assert!(!tree.contains(s1));
    assert!(!tree.contains(s2));
}

#[test]
fn reference_to_a_descendant_is_resolved() {
    let mut tree = folder_tree();
    let root_id = tree.get_root_id();
    let inner = RbxId::new();
    let patch = additions(
        root_id,
        vec![snapshot(
            None,
            "Outer",
            "ObjectValue",
            vec![("Value", reference(inner)), ("Count", int32(4))],
            vec![
                snapshot(None, "First", "Folder", Vec::new(), Vec::new()),
                snapshot(Some(inner), "Second", "Folder", Vec::new(), Vec::new()),
            ],
        )],
    );

    let applied = apply_patch_set(&mut tree, patch);

    assert_eq!(applied.added.len(), 3);
    let (outer, first, second) = (applied.added[0], applied.added[1], applied.added[2]);
    assert_eq!(children_of(&tree, root_id), vec![outer]);
    assert_eq!(children_of(&tree, outer), vec![first, second]);
    assert_eq!(tree.inner().get_instance(first).unwrap().name, "First");
    assert_eq!(tree.inner().get_instance(second).unwrap().name, "Second");
    assert_eq!(
        properties_of(&tree, outer),
        expected(vec![("Value", reference(second)), ("Count", int32(4))])
    );
}

#[test]
fn update_reference_outside_the_translation_is_written_unchanged() {
    let mut tree = folder_tree();
    let root_id = tree.get_root_id();
    let elsewhere = RbxId::new();
    let patch = updates(vec![update(
        root_id,
        vec![
            ("Self", PropertyChange::SetTo(reference(root_id))),
            ("Dangling", PropertyChange::SetTo(reference(elsewhere))),
            ("Empty", PropertyChange::SetTo(RbxValue::Ref { value: None })),
        ],
    )]);

    apply_patch_set(&mut tree, patch);

    assert_eq!(
        properties_of(&tree, root_id),
        expected(vec![
            ("Self", reference(root_id)),
            ("Dangling", reference(elsewhere)),
            ("Empty", RbxValue::Ref { value: None }),
        ])
    );
}

#[test]
fn update_reference_to_an_added_snapshot_is_translated() {
    let mut tree = folder_tree();
    let root_id = tree.get_root_id();
    let transient = RbxId::new();
    let patch = PatchSet {
        removed_instances: Vec::new(),
        added_instances: vec![PatchAdd {
            parent_id: root_id,
            instance: snapshot(Some(transient), "New", "Folder", Vec::new(), Vec::new()),
        }],
        updated_instances: vec![update(
            root_id,
            vec![("Target", PropertyChange::SetTo(reference(transient)))],
        )],
    };

    let applied = apply_patch_set(&mut tree, patch);

    let minted = applied.added[0];
    assert_ne!(minted, transient);
    assert_eq!(properties_of(&tree, root_id), expected(vec![("Target", reference(minted))]));
    assert!(
        matches!(&applied.updated[0].changed_properties[0].1, PropertyChange::SetTo(v) if *v == reference(transient))
    );
}

#[test]
fn update_of_a_missing_instance_is_skipped_and_reported() {
    let mut tree = tree_with_root("Root", "Folder", vec![("Foo", int32(1))]);
    let root_id = tree.get_root_id();
    let stranger = RbxId::new();
    let mut patch = update(stranger, vec![("Foo", PropertyChange::SetTo(int32(2)))]);
    patch.changed_metadata = Some(InstanceMetadata { ignore_unknown_instances: true });

    let (applied, diagnostics) = apply_patch_set_reporting(&mut tree, &updates(vec![patch]));

    assert!(applied.updated.is_empty());
    assert_eq!(diagnostics, vec![Diagnostic::UpdateMissing(stranger)]);
    assert_eq!(properties_of(&tree, root_id), expected(vec![("Foo", int32(1))]));
    assert_eq!(tree.get_metadata(stranger), None);
}

#[test]
fn log_lists_only_what_took_effect() {
    let mut tree = folder_tree();
    let root_id = tree.get_root_id();
    let added = apply_patch_set(
        &mut tree,
        additions(root_id, vec![snapshot(None, "A", "Folder", Vec::new(), Vec::new())]),
    )
    .added;
    let a = added[0];
    let gone = RbxId::new();
    let patch = PatchSet {
        removed_instances: vec![gone, a],
        added_instances: Vec::new(),
        updated_instances: vec![
            update(a, vec![("Foo", PropertyChange::SetTo(int32(1)))]),
            update(root_id, vec![("Foo", PropertyChange::SetTo(int32(2)))]),
        ],
    };

    let (applied, diagnostics) = apply_patch_set_reporting(&mut tree, &patch);

    assert_eq!(applied.removed, vec![a]);
    assert_eq!(applied.updated.len(), 1);
    assert_eq!(applied.updated[0].id, root_id);
    assert_eq!(
        diagnostics,
        vec![Diagnostic::RemoveMissing(gone), Diagnostic::UpdateMissing(a)]
    );
}

#[test]
fn add_under_a_missing_parent_is_skipped_and_reported() {
    let mut tree = folder_tree();
    let root_id = tree.get_root_id();
    let stranger = RbxId::new();
    let patch = additions(
        stranger,
        vec![snapshot(
            None,
            "A",
            "Folder",
            Vec::new(),
            vec![snapshot(None, "A1", "Folder", Vec::new(), Vec::new())],
        )],
    );

    let (applied, diagnostics) = apply_patch_set_reporting(&mut tree, &patch);

    assert!(applied.added.is_empty());
    assert_eq!(diagnostics, vec![Diagnostic::AddParentMissing(stranger)]);
    assert!(children_of(&tree, root_id).is_empty());
}

#[test]
fn added_instances_get_their_metadata() {
    let mut tree = folder_tree();
    let root_id = tree.get_root_id();
    let mut instance = snapshot(None, "A", "Folder", Vec::new(), Vec::new());
    instance.metadata = InstanceMetadata { ignore_unknown_instances: true };

    let applied = apply_patch_set(&mut tree, additions(root_id, vec![instance]));

    assert_eq!(
        tree.get_metadata(applied.added[0]),
        Some(InstanceMetadata { ignore_unknown_instances: true })
    );
    assert_eq!(tree.get_metadata(root_id), Some(InstanceMetadata::new()));
    assert_eq!(InstanceMetadata::new(), InstanceMetadata { ignore_unknown_instances: false });
}

#[test]
fn later_deferred_property_replaces_an_earlier_one() {
    let mut tree = folder_tree();
    let root_id = tree.get_root_id();
    let patch = additions(
        root_id,
        vec![snapshot(
            None,
            "A",
            "Folder",
            vec![("Foo", int32(1)), ("Foo", int32(2))],
            Vec::new(),
        )],
    );

    let applied = apply_patch_set(&mut tree, patch);

    assert_eq!(properties_of(&tree, applied.added[0]), expected(vec![("Foo", int32(2))]));
}

#[test]
fn empty_patch_changes_nothing() {
    let mut tree = tree_with_root("Root", "Folder", vec![("Foo", int32(1))]);
    let root_id = tree.get_root_id();

    let (applied, diagnostics) = apply_patch_set_reporting(&mut tree, &PatchSet::new());

    assert!(applied.removed.is_empty());
    assert!(applied.added.is_empty());
    assert!(applied.updated.is_empty());
    assert!(diagnostics.is_empty());
    assert_eq!(tree.get_root_id(), root_id);
    assert_eq!(properties_of(&tree, root_id), expected(vec![("Foo", int32(1))]));
    assert_eq!(tree.inner().get_instance(root_id).unwrap().name, "Root");
}

#[test]
fn assoc_get_finds_the_latest_binding() {
    let a = RbxId::new();
    let b = RbxId::new();
    let c = RbxId::new();
    let entries = vec![(a, 1u64), (b, 2u64), (a, 3u64)];
    assert_eq!(assoc_get(&entries, a), Some(3));
    assert_eq!(assoc_get(&entries, b), Some(2));
    assert_eq!(assoc_get(&entries, c), None);
    assert_eq!(assoc_get(&Vec::<(RbxId, u64)>::new(), a), None);
}

#[test]
fn resolve_value_redirects_translated_references_only() {
    let transient = RbxId::new();
    let minted = RbxId::new();
    let other = RbxId::new();
    let translation = vec![(transient, minted)];
    assert_eq!(resolve_value(&reference(transient), &translation), reference(minted));
    assert_eq!(resolve_value(&reference(other), &translation), reference(other));
    assert_eq!(
        resolve_value(&RbxValue::Ref { value: None }, &translation),
        RbxValue::Ref { value: None }
    );
    assert_eq!(resolve_value(&int32(9), &translation), int32(9));
}

#[test]
fn copies_equal_their_originals() {
    assert!(matches!(
        clone_change(&PropertyChange::SetTo(int32(3))),
        PropertyChange::SetTo(v) if v == int32(3)
    ));
    assert!(matches!(clone_change(&PropertyChange::Remove), PropertyChange::Remove));
    assert!(matches!(clone_change(&PropertyChange::Unchanged), PropertyChange::Unchanged));
    assert_eq!(clone_text(&Some("Foo".to_owned())), Some("Foo".to_owned()));
    assert_eq!(clone_text(&None), None);
}

#[test]
fn new_update_record_lists_no_change() {
    let id = RbxId::new();
    let record = AppliedPatchUpdate::new(id);
    assert_eq!(record.id, id);
    assert_eq!(record.changed_name, None);
    assert_eq!(record.changed_class_name, None);
    assert_eq!(record.changed_metadata, None);
    assert!(record.changed_properties.is_empty());
}

#[test]
fn tree_store_operations() {
    let mut tree = folder_tree();
    let root_id = tree.get_root_id();
    assert_eq!(tree.inner().get_root_id(), root_id);
    let a = tree.insert_instance(
        "A".to_owned(),
        "Part".to_owned(),
        InstanceMetadata::new(),
        root_id,
    );
    assert!(tree.contains(a));
    assert!(tree.can_remove(a));
    assert!(properties_of(&tree, a).is_empty());
    tree.set_name(a, "A2".to_owned());
    tree.set_class_name(a, "Model".to_owned());
    tree.set_property(a, "Foo".to_owned(), int32(1));
    tree.set_property(a, "Bar".to_owned(), int32(2));
    tree.remove_property(a, &"Foo".to_owned());
    tree.update_metadata(a, InstanceMetadata { ignore_unknown_instances: true });
    let instance = tree.inner().get_instance(a).unwrap();
    assert_eq!(instance.name, "A2");
    assert_eq!(instance.class_name, "Model");
    assert_eq!(instance.properties, expected(vec![("Bar", int32(2))]));
    assert_eq!(
        tree.get_metadata(a),
        Some(InstanceMetadata { ignore_unknown_instances: true })
    );
    assert!(tree.remove_instance(a));
    assert!(!tree.contains(a));
    assert!(!tree.remove_instance(a));
    assert!(!tree.remove_instance(root_id));
    assert!(tree.contains(root_id));
}

#[test]
fn phases_by_hand_agree_with_the_whole() {
    let mut tree = folder_tree();
    let root_id = tree.get_root_id();
    let transient = RbxId::new();
    let stranger = RbxId::new();
    let instance = snapshot(
        Some(transient),
        "A",
        "ObjectValue",
        vec![("Value", reference(transient))],
        Vec::new(),
    );
    let patch = update(root_id, vec![("Target", PropertyChange::SetTo(reference(transient)))]);

    let mut context = PatchApplyContext::new();
    apply_remove_instance(&mut context, &mut tree, stranger);
    apply_add_child(&mut context, &mut tree, root_id, &instance);
    apply_update_child(&mut context, &mut tree, &patch);
    let (applied, diagnostics) = finalize_patch_application(context, &mut tree);

    assert!(applied.removed.is_empty());
    assert_eq!(applied.added.len(), 1);
    assert_eq!(applied.updated.len(), 1);
    assert_eq!(diagnostics, vec![Diagnostic::RemoveMissing(stranger)]);
    let a = applied.added[0];
    assert_eq!(properties_of(&tree, a), expected(vec![("Value", reference(a))]));
    assert_eq!(properties_of(&tree, root_id), expected(vec![("Target", reference(a))]));
}
