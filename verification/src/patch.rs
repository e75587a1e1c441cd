//! Patches, the snapshots they carry, and the record of what was applied.

use rbx_dom_weak::{RbxId, RbxValue};
use vstd::prelude::*;

verus! {

/// What the surrounding system keeps beside each instance.
#[derive(Clone, Copy, Debug, PartialEq, Eq)]
pub struct InstanceMetadata {
    pub ignore_unknown_instances: bool,
}

impl InstanceMetadata {
    pub fn new() -> (r: Self)
        ensures
            r == (InstanceMetadata { ignore_unknown_instances: false }),
    {
        InstanceMetadata { ignore_unknown_instances: false }
    }
}

impl Default for InstanceMetadata {
    fn default() -> (r: Self)
        ensures
            r == (InstanceMetadata { ignore_unknown_instances: false }),
    {
        InstanceMetadata { ignore_unknown_instances: false }
    }
}

/// A desired subtree that is not part of any tree yet. References among its
/// properties may use the transient identifiers of other snapshots of the
/// same patch.
#[derive(Debug)]
pub struct InstanceSnapshot {
    pub snapshot_id: Option<RbxId>,
    pub metadata: InstanceMetadata,
    pub name: String,
    pub class_name: String,
    /// The properties by key, assigned in this order: a later entry for a
    /// key replaces an earlier one.
    pub properties: Vec<(String, RbxValue)>,
    /// The children, in the order in which they are to stand in the tree.
    pub children: Vec<InstanceSnapshot>,
}

/// One subtree to add, and the tree instance to add it under.
#[derive(Debug)]
pub struct PatchAdd {
    pub parent_id: RbxId,
    pub instance: InstanceSnapshot,
}

/// What an update asks for one property key.
#[derive(Clone, Debug)]
pub enum PropertyChange {
    /// The key is bound to the value.
    SetTo(RbxValue),
    /// The key's binding is dropped.
    Remove,
    /// The key is left as it is, as is a key that the update does not name.
    Unchanged,
}

/// The content of an update, requested or applied.
pub struct UpdateView {
    pub id: RbxId,
    pub changed_name: Option<String>,
    pub changed_class_name: Option<String>,
    pub changed_properties: Seq<(String, PropertyChange)>,
    pub changed_metadata: Option<InstanceMetadata>,
}

/// The changes requested for one existing instance.
#[derive(Clone, Debug)]
pub struct PatchUpdate {
    pub id: RbxId,
    pub changed_name: Option<String>,
    pub changed_class_name: Option<String>,
    pub changed_properties: Vec<(String, PropertyChange)>,
    pub changed_metadata: Option<InstanceMetadata>,
}

impl View for PatchUpdate {
    type V = UpdateView;

    open spec fn view(&self) -> UpdateView {
        UpdateView {
            id: self.id,
            changed_name: self.changed_name,
            changed_class_name: self.changed_class_name,
            changed_properties: self.changed_properties@,
            changed_metadata: self.changed_metadata,
        }
    }
}

/// The changes that were made to one existing instance.
#[derive(Clone, Debug)]
pub struct AppliedPatchUpdate {
    pub id: RbxId,
    pub changed_name: Option<String>,
    pub changed_class_name: Option<String>,
    pub changed_properties: Vec<(String, PropertyChange)>,
    pub changed_metadata: Option<InstanceMetadata>,
}

impl View for AppliedPatchUpdate {
    type V = UpdateView;

    open spec fn view(&self) -> UpdateView {
        UpdateView {
            id: self.id,
            changed_name: self.changed_name,
            changed_class_name: self.changed_class_name,
            changed_properties: self.changed_properties@,
            changed_metadata: self.changed_metadata,
        }
    }
}

impl AppliedPatchUpdate {
    /// A record for `id` that lists no change.
    pub fn new(id: RbxId) -> (r: Self)
        ensures
            r.id == id,
            r.changed_name is None,
            r.changed_class_name is None,
            r.changed_metadata is None,
            r.changed_properties@.len() == 0,
    {
        AppliedPatchUpdate {
            id,
            changed_name: None,
            changed_class_name: None,
            changed_properties: Vec::new(),
            changed_metadata: None,
        }
    }
}

/// A set of changes that moves a tree towards a desired state.
#[derive(Debug)]
pub struct PatchSet {
    pub removed_instances: Vec<RbxId>,
    pub added_instances: Vec<PatchAdd>,
    pub updated_instances: Vec<PatchUpdate>,
}

impl PatchSet {
    /// The patch that changes nothing.
    pub fn new() -> (r: Self)
        ensures
            r.removed_instances@.len() == 0,
            r.added_instances@.len() == 0,
            r.updated_instances@.len() == 0,
    {
        PatchSet {
            removed_instances: Vec::new(),
            added_instances: Vec::new(),
            updated_instances: Vec::new(),
        }
    }
}

/// The changes of a patch that took effect.
#[derive(Clone, Debug)]
pub struct AppliedPatchSet {
    pub removed: Vec<RbxId>,
    pub added: Vec<RbxId>,
    pub updated: Vec<AppliedPatchUpdate>,
}

/// A requested change that was skipped, and why.
#[derive(Clone, Copy, Debug, PartialEq, Eq)]
pub enum Diagnostic {
    /// The instance to remove was not in the tree.
    RemoveMissing(RbxId),
    /// The instance to remove is the root, or hangs under no instance of the
    /// tree.
    RemoveRefused(RbxId),
    /// The instance to add a snapshot under was not in the tree.
    AddParentMissing(RbxId),
    /// The instance to update was not in the tree.
    UpdateMissing(RbxId),
}

/// The requested updates as a sequence of their contents.
pub open spec fn requested_updates(updates: Seq<PatchUpdate>) -> Seq<UpdateView> {
    updates.map_values(|u: PatchUpdate| u@)
}

/// The applied updates as a sequence of their contents.
pub open spec fn applied_updates(updates: Seq<AppliedPatchUpdate>) -> Seq<UpdateView> {
    updates.map_values(|u: AppliedPatchUpdate| u@)
}

} // verus!
