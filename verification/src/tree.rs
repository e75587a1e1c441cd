//! The live tree: the instance store together with the metadata that is kept
//! beside each instance.

use crate::dom::{nodes_after_insert, nodes_after_remove, removable, same_id, store_contains, store_insert, store_parent, store_remove, store_remove_property, store_root, store_set_class_name, store_set_name, store_set_property, tree_nodes, tree_root, Node};
use crate::patch::InstanceMetadata;
use rbx_dom_weak::{RbxId, RbxTree, RbxValue};
use vstd::prelude::*;

verus! {

/// The map that a list of bindings stands for: a later binding of a key
/// replaces an earlier one.
pub open spec fn assoc_map<V>(entries: Seq<(RbxId, V)>) -> Map<RbxId, V>
    decreases entries.len(),
{
    if entries.len() == 0 {
        Map::empty()
    } else {
        assoc_map(entries.drop_last()).insert(entries.last().0, entries.last().1)
    }
}

/// Appending a binding to the list binds the key in the map.
pub proof fn lemma_assoc_map_push<V>(entries: Seq<(RbxId, V)>, key: RbxId, value: V)
    ensures
        assoc_map(entries.push((key, value))) == assoc_map(entries).insert(key, value),
{
    assert(entries.push((key, value)).drop_last() =~= entries);
}

/// Looks `id` up in a list of bindings.
pub fn assoc_get<V: Copy>(entries: &Vec<(RbxId, V)>, id: RbxId) -> (r: Option<V>)
    ensures
        r == if assoc_map(entries@).contains_key(id) {
            Some(assoc_map(entries@)[id])
        } else {
            None
        },
{
    let mut i: usize = entries.len();
    proof {
        assert(entries@.take(i as int) =~= entries@);
    }
    while i > 0
        invariant
            i <= entries.len(),
            assoc_map(entries@).contains_key(id) == assoc_map(entries@.take(i as int)).contains_key(
                id,
            ),
            assoc_map(entries@).contains_key(id) ==> assoc_map(entries@)[id] == assoc_map(
                entries@.take(i as int),
            )[id],
        decreases i,
    {
        proof {
            assert(entries@.take(i as int).drop_last() =~= entries@.take(i - 1));
        }
        if same_id(entries[i - 1].0, id) {
            return Some(entries[i - 1].1);
        }
        i -= 1;
    }
    None
}

/// The bindings whose key the store holds, in their order.
fn retain_present(tree: &RbxTree, entries: &Vec<(RbxId, InstanceMetadata)>) -> (kept: Vec<
    (RbxId, InstanceMetadata),
>)
    ensures
        assoc_map(kept@) == assoc_map(entries@).restrict(tree_nodes(*tree).dom()),
{
    let ghost present = tree_nodes(*tree).dom();
    let mut kept: Vec<(RbxId, InstanceMetadata)> = Vec::new();
    let mut i: usize = 0;
    proof {
        assert(assoc_map(kept@) =~= assoc_map(entries@.take(0)).restrict(present));
    }
    while i < entries.len()
        invariant
            i <= entries.len(),
            present == tree_nodes(*tree).dom(),
            assoc_map(kept@) == assoc_map(entries@.take(i as int)).restrict(present),
        decreases entries.len() - i,
    {
        let entry = entries[i];
        proof {
            assert(entries@.take(i + 1).drop_last() =~= entries@.take(i as int));
            lemma_assoc_map_push(kept@, entry.0, entry.1);
        }
        if store_contains(tree, entry.0) {
            kept.push(entry);
        }
        proof {
            assert(assoc_map(kept@) =~= assoc_map(entries@.take(i + 1)).restrict(present));
        }
        i += 1;
    }
    proof {
        assert(entries@.take(i as int) =~= entries@);
    }
    kept
}

/// An instance tree with the metadata of its instances.
pub struct RojoTree {
    inner: RbxTree,
    metadata: Vec<(RbxId, InstanceMetadata)>,
}

impl RojoTree {
    /// The instances of the tree, by identifier.
    pub closed spec fn nodes(&self) -> Map<RbxId, Node> {
        tree_nodes(self.inner)
    }

    /// The root's identifier.
    pub closed spec fn root(&self) -> RbxId {
        tree_root(self.inner)
    }

    /// The metadata on record, by identifier.
    pub closed spec fn metadata(&self) -> Map<RbxId, InstanceMetadata> {
        assoc_map(self.metadata@)
    }

    /// Takes over a store; its root gets `root_metadata`.
    pub fn new(inner: RbxTree, root_metadata: InstanceMetadata) -> (r: Self)
        ensures
            r.nodes() == tree_nodes(inner),
            r.root() == tree_root(inner),
            r.metadata() == Map::<RbxId, InstanceMetadata>::empty().insert(
                tree_root(inner),
                root_metadata,
            ),
    {
        let root = store_root(&inner);
        let mut metadata: Vec<(RbxId, InstanceMetadata)> = Vec::new();
        proof {
            lemma_assoc_map_push(metadata@, root, root_metadata);
        }
        metadata.push((root, root_metadata));
        RojoTree { inner, metadata }
    }

    /// The store under the tree, to read from.
    pub fn inner(&self) -> (r: &RbxTree)
        ensures
            tree_nodes(*r) == self.nodes(),
            tree_root(*r) == self.root(),
    {
        &self.inner
    }

    pub fn get_root_id(&self) -> (r: RbxId)
        ensures
            r == self.root(),
    {
        store_root(&self.inner)
    }

    /// Whether the tree holds an instance `id`.
    pub fn contains(&self, id: RbxId) -> (r: bool)
        ensures
            r == self.nodes().contains_key(id),
    {
        store_contains(&self.inner, id)
    }

    /// The metadata on record for `id`.
    pub fn get_metadata(&self, id: RbxId) -> (r: Option<InstanceMetadata>)
        ensures
            r == if self.metadata().contains_key(id) {
                Some(self.metadata()[id])
            } else {
                None
            },
    {
        assoc_get(&self.metadata, id)
    }

    /// Whether `id` can be removed: it is in the tree, is not the root, and
    /// its parent is in the tree.
    pub fn can_remove(&self, id: RbxId) -> (r: bool)
        ensures
            r == removable(self.nodes(), self.root(), id),
    {
        if !store_contains(&self.inner, id) {
            return false;
        }
        if same_id(id, store_root(&self.inner)) {
            return false;
        }
        match store_parent(&self.inner, id) {
            Some(parent) => store_contains(&self.inner, parent),
            None => false,
        }
    }

    /// Records `metadata` for `id`, replacing what was on record.
    pub fn update_metadata(&mut self, id: RbxId, metadata: InstanceMetadata)
        ensures
            final(self).metadata() == old(self).metadata().insert(id, metadata),
            final(self).nodes() == old(self).nodes(),
            final(self).root() == old(self).root(),
    {
        proof {
            lemma_assoc_map_push(self.metadata@, id, metadata);
        }
        self.metadata.push((id, metadata));
    }

    /// Creates an instance without properties under `parent` and returns
    /// its identifier.
    pub fn insert_instance(
        &mut self,
        name: String,
        class_name: String,
        metadata: InstanceMetadata,
        parent: RbxId,
    ) -> (id: RbxId)
        requires
            old(self).nodes().contains_key(parent),
        ensures
            final(self).nodes() == nodes_after_insert(
                old(self).nodes(),
                parent,
                id,
                name@,
                class_name@,
            ),
            final(self).metadata() == old(self).metadata().insert(id, metadata),
            final(self).root() == old(self).root(),
    {
        let id = store_insert(&mut self.inner, name, class_name, parent);
        proof {
            lemma_assoc_map_push(self.metadata@, id, metadata);
        }
        self.metadata.push((id, metadata));
        id
    }

    /// Removes `id` with its subtree where `can_remove` allows it, and says
    /// whether it did. The metadata of what left the tree is dropped.
    pub fn remove_instance(&mut self, id: RbxId) -> (r: bool)
        ensures
            r == removable(old(self).nodes(), old(self).root(), id),
            final(self).nodes() == if r {
                nodes_after_remove(old(self).nodes(), id)
            } else {
                old(self).nodes()
            },
            r ==> !final(self).nodes().contains_key(id),
            final(self).nodes().dom().subset_of(old(self).nodes().dom()),
            final(self).metadata() == if r {
                old(self).metadata().restrict(final(self).nodes().dom())
            } else {
                old(self).metadata()
            },
            final(self).root() == old(self).root(),
    {
        if self.can_remove(id) {
            store_remove(&mut self.inner, id);
            self.metadata = retain_present(&self.inner, &self.metadata);
            true
        } else {
            false
        }
    }

    /// Renames the instance `id`.
    pub fn set_name(&mut self, id: RbxId, name: String)
        requires
            old(self).nodes().contains_key(id),
        ensures
            final(self).nodes() == old(self).nodes().insert(
                id,
                old(self).nodes()[id].with_name(name@),
            ),
            final(self).metadata() == old(self).metadata(),
            final(self).root() == old(self).root(),
    {
        store_set_name(&mut self.inner, id, name);
    }

    /// Gives the instance `id` another class.
    pub fn set_class_name(&mut self, id: RbxId, class_name: String)
        requires
            old(self).nodes().contains_key(id),
        ensures
            final(self).nodes() == old(self).nodes().insert(
                id,
                old(self).nodes()[id].with_class_name(class_name@),
            ),
            final(self).metadata() == old(self).metadata(),
            final(self).root() == old(self).root(),
    {
        store_set_class_name(&mut self.inner, id, class_name);
    }

    /// Binds `key` to `value` on the instance `id`.
    pub fn set_property(&mut self, id: RbxId, key: String, value: RbxValue)
        requires
            old(self).nodes().contains_key(id),
        ensures
            final(self).nodes() == old(self).nodes().insert(
                id,
                old(self).nodes()[id].with_properties(
                    old(self).nodes()[id].properties.insert(key@, value),
                ),
            ),
            final(self).metadata() == old(self).metadata(),
            final(self).root() == old(self).root(),
    {
        store_set_property(&mut self.inner, id, key, value);
    }

    /// Drops the binding of `key` on the instance `id`, if there is one.
    pub fn remove_property(&mut self, id: RbxId, key: &String)
        requires
            old(self).nodes().contains_key(id),
        ensures
            final(self).nodes() == old(self).nodes().insert(
                id,
                old(self).nodes()[id].with_properties(
                    old(self).nodes()[id].properties.remove(key@),
                ),
            ),
            final(self).metadata() == old(self).metadata(),
            final(self).root() == old(self).root(),
    {
        store_remove_property(&mut self.inner, id, key);
    }
}

} // verus!
