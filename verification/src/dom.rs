//! The instance store of `rbx_dom_weak` as the verified code sees it: opaque
//! identifiers, opaque property values and a tree whose contents are
//! described by a map from identifier to [`Node`].

use rbx_dom_weak::{RbxId, RbxInstanceProperties, RbxTree, RbxValue};
use std::collections::HashMap;
use vstd::prelude::*;

verus! {

#[verifier::external_type_specification]
#[verifier::external_body]
pub struct ExRbxId(RbxId);

#[verifier::external_type_specification]
#[verifier::external_body]
pub struct ExRbxValue(RbxValue);

#[verifier::external_type_specification]
#[verifier::external_body]
pub struct ExRbxTree(RbxTree);

/// What the store holds for one instance.
pub struct Node {
    pub name: Seq<char>,
    pub class_name: Seq<char>,
    pub properties: Map<Seq<char>, RbxValue>,
    pub children: Seq<RbxId>,
    pub parent: Option<RbxId>,
}

impl Node {
    pub open spec fn with_name(self, name: Seq<char>) -> Node {
        Node { name, ..self }
    }

    pub open spec fn with_class_name(self, class_name: Seq<char>) -> Node {
        Node { class_name, ..self }
    }

    pub open spec fn with_properties(self, properties: Map<Seq<char>, RbxValue>) -> Node {
        Node { properties, ..self }
    }

    pub open spec fn with_children(self, children: Seq<RbxId>) -> Node {
        Node { children, ..self }
    }
}

/// The instances of a store, by identifier.
pub uninterp spec fn tree_nodes(tree: RbxTree) -> Map<RbxId, Node>;

/// The identifier of a store's root instance.
pub uninterp spec fn tree_root(tree: RbxTree) -> RbxId;

/// The identifier that a reference value points at; `None` for an empty
/// reference and for every value of another kind.
pub uninterp spec fn ref_target(value: RbxValue) -> Option<RbxId>;

/// The reference value that points at `id`.
pub uninterp spec fn ref_to(id: RbxId) -> RbxValue;

/// The identifiers that leave a store together with `id` when `id` is
/// removed from it: whatever is reachable from `id` through lists of
/// children.
pub uninterp spec fn subtree_ids(nodes: Map<RbxId, Node>, id: RbxId) -> Set<RbxId>;

/// A freshly inserted instance: the given name and class, no properties, no
/// children, and `parent` above it.
pub open spec fn fresh_node(name: Seq<char>, class_name: Seq<char>, parent: RbxId) -> Node {
    Node {
        name,
        class_name,
        properties: Map::empty(),
        children: Seq::empty(),
        parent: Some(parent),
    }
}

/// The store after an instance `id` was inserted under `parent`: the new
/// instance is entered first, then `id` is appended to the children of
/// whatever `parent` then names.
pub open spec fn nodes_after_insert(
    nodes: Map<RbxId, Node>,
    parent: RbxId,
    id: RbxId,
    name: Seq<char>,
    class_name: Seq<char>,
) -> Map<RbxId, Node> {
    let entered = nodes.insert(id, fresh_node(name, class_name, parent));
    entered.insert(parent, entered[parent].with_children(entered[parent].children.push(id)))
}

/// Whether `id` can be taken out of the store: it names an instance other
/// than the root, and that instance's parent is in the store.
pub open spec fn removable(nodes: Map<RbxId, Node>, root: RbxId, id: RbxId) -> bool {
    &&& nodes.contains_key(id)
    &&& id != root
    &&& nodes[id].parent is Some
    &&& nodes.contains_key(nodes[id].parent->0)
}

/// The store after `id` and its subtree were removed: the parent no longer
/// lists `id`, and every identifier of the subtree is gone.
pub open spec fn nodes_after_remove(nodes: Map<RbxId, Node>, id: RbxId) -> Map<RbxId, Node> {
    let detached = nodes_detached(nodes, id);
    detached.remove_keys(subtree_ids(detached, id).insert(id))
}

/// The store after `id` was struck from its parent's list of children.
pub open spec fn nodes_detached(nodes: Map<RbxId, Node>, id: RbxId) -> Map<RbxId, Node> {
    let parent = nodes[id].parent->0;
    nodes.insert(
        parent,
        nodes[parent].with_children(nodes[parent].children.filter(|c: RbxId| c != id)),
    )
}

/// `PartialEq::eq` of `RbxId`, which compares the two identifiers' bits: the
/// result is `true` exactly for equal identifiers.
#[verifier::external_body]
pub(crate) fn same_id(a: RbxId, b: RbxId) -> (r: bool)
    ensures
        r == (a == b),
{
    a == b
}

/// Reads the target out of `RbxValue::Ref`. The result is the value's
/// `ref_target`; a value with a target is the reference to that target.
#[verifier::external_body]
pub(crate) fn value_ref_target(value: &RbxValue) -> (r: Option<RbxId>)
    ensures
        r == ref_target(*value),
        r matches Some(id) ==> *value == ref_to(id),
{
    match value {
        RbxValue::Ref { value } => *value,
        _ => None,
    }
}

/// Builds `RbxValue::Ref` with a target: the reference to `id`, whose target
/// is `id`.
#[verifier::external_body]
pub(crate) fn value_ref_to(id: RbxId) -> (r: RbxValue)
    ensures
        r == ref_to(id),
        ref_target(r) == Some(id),
{
    RbxValue::Ref { value: Some(id) }
}

/// `Clone::clone` of `RbxValue`, which copies the value field by field.
pub assume_specification[ <RbxValue as Clone>::clone ](value: &RbxValue) -> (r: RbxValue)
    ensures
        r == *value,
;

/// `Clone::clone` of `RbxId`, a `Copy` type: the same identifier.
pub assume_specification[ <RbxId as Clone>::clone ](id: &RbxId) -> (r: RbxId)
    ensures
        r == *id,
;

/// `RbxTree::get_root_id`: the root's identifier.
#[verifier::external_body]
pub(crate) fn store_root(tree: &RbxTree) -> (r: RbxId)
    ensures
        r == tree_root(*tree),
{
    tree.get_root_id()
}

/// `RbxTree::get_instance`, asked only whether it finds anything: `true`
/// exactly when the store holds `id`.
#[verifier::external_body]
pub(crate) fn store_contains(tree: &RbxTree, id: RbxId) -> (r: bool)
    ensures
        r == tree_nodes(*tree).contains_key(id),
{
    tree.get_instance(id).is_some()
}

/// `RbxTree::get_instance` followed by `RbxInstance::get_parent_id`: the
/// parent recorded for `id`, `None` where the store does not hold `id`.
#[verifier::external_body]
pub(crate) fn store_parent(tree: &RbxTree, id: RbxId) -> (r: Option<RbxId>)
    ensures
        r == if tree_nodes(*tree).contains_key(id) {
            tree_nodes(*tree)[id].parent
        } else {
            None
        },
{
    tree.get_instance(id).and_then(|instance| instance.get_parent_id())
}

/// `RbxTree::insert_instance` with an empty property map. It panics where
/// `parent` is not in the store, which `requires` excludes. The identifier
/// it returns is drawn at random, so nothing is said of which one it is; the
/// store afterwards is the old one with the new instance entered under that
/// identifier and the identifier appended to the parent's children. The
/// root stays the root.
#[verifier::external_body]
pub(crate) fn store_insert(
    tree: &mut RbxTree,
    name: String,
    class_name: String,
    parent: RbxId,
) -> (id: RbxId)
    requires
        tree_nodes(*old(tree)).contains_key(parent),
    ensures
        tree_nodes(*final(tree)) == nodes_after_insert(
            tree_nodes(*old(tree)),
            parent,
            id,
            name@,
            class_name@,
        ),
        tree_root(*final(tree)) == tree_root(*old(tree)),
{
    tree.insert_instance(
        RbxInstanceProperties { name, class_name, properties: HashMap::new() },
        parent,
    )
}

/// `RbxTree::remove_instance`, whose result is dropped. It panics for the
/// root, for an identifier that the store does not hold, and for one whose
/// parent is missing; `requires` excludes all three. It first strikes `id`
/// from its parent's children and then takes `id` and everything reachable
/// from it out of the store; `id` itself always leaves.
#[verifier::external_body]
pub(crate) fn store_remove(tree: &mut RbxTree, id: RbxId)
    requires
        removable(tree_nodes(*old(tree)), tree_root(*old(tree)), id),
    ensures
        tree_nodes(*final(tree)) == nodes_detached(tree_nodes(*old(tree)), id).remove_keys(
            subtree_ids(nodes_detached(tree_nodes(*old(tree)), id), id).insert(id),
        ),
        tree_root(*final(tree)) == tree_root(*old(tree)),
{
    let _ = tree.remove_instance(id);
}

/// Assignment to the `name` field reached through `RbxTree::get_instance_mut`:
/// the instance's name is replaced and nothing else changes.
#[verifier::external_body]
pub(crate) fn store_set_name(tree: &mut RbxTree, id: RbxId, name: String)
    requires
        tree_nodes(*old(tree)).contains_key(id),
    ensures
        tree_nodes(*final(tree)) == tree_nodes(*old(tree)).insert(
            id,
            tree_nodes(*old(tree))[id].with_name(name@),
        ),
        tree_root(*final(tree)) == tree_root(*old(tree)),
{
    if let Some(instance) = tree.get_instance_mut(id) {
        instance.name = name;
    }
}

/// Assignment to the `class_name` field reached through
/// `RbxTree::get_instance_mut`: the instance's class is replaced and nothing
/// else changes.
#[verifier::external_body]
pub(crate) fn store_set_class_name(tree: &mut RbxTree, id: RbxId, class_name: String)
    requires
        tree_nodes(*old(tree)).contains_key(id),
    ensures
        tree_nodes(*final(tree)) == tree_nodes(*old(tree)).insert(
            id,
            tree_nodes(*old(tree))[id].with_class_name(class_name@),
        ),
        tree_root(*final(tree)) == tree_root(*old(tree)),
{
    if let Some(instance) = tree.get_instance_mut(id) {
        instance.class_name = class_name;
    }
}

/// `HashMap::insert` on the `properties` field reached through
/// `RbxTree::get_instance_mut`: the key is bound to the value, replacing an
/// earlier binding, and nothing else changes.
#[verifier::external_body]
pub(crate) fn store_set_property(tree: &mut RbxTree, id: RbxId, key: String, value: RbxValue)
    requires
        tree_nodes(*old(tree)).contains_key(id),
    ensures
        tree_nodes(*final(tree)) == tree_nodes(*old(tree)).insert(
            id,
            tree_nodes(*old(tree))[id].with_properties(
                tree_nodes(*old(tree))[id].properties.insert(key@, value),
            ),
        ),
        tree_root(*final(tree)) == tree_root(*old(tree)),
{
    if let Some(instance) = tree.get_instance_mut(id) {
        instance.properties.insert(key, value);
    }
}

/// `HashMap::remove` on the `properties` field reached through
/// `RbxTree::get_instance_mut`: the key's binding is dropped where there is
/// one, and nothing else changes.
#[verifier::external_body]
pub(crate) fn store_remove_property(tree: &mut RbxTree, id: RbxId, key: &String)
    requires
        tree_nodes(*old(tree)).contains_key(id),
    ensures
        tree_nodes(*final(tree)) == tree_nodes(*old(tree)).insert(
            id,
            tree_nodes(*old(tree))[id].with_properties(
                tree_nodes(*old(tree))[id].properties.remove(key@),
            ),
        ),
        tree_root(*final(tree)) == tree_root(*old(tree)),
{
    if let Some(instance) = tree.get_instance_mut(id) {
        instance.properties.remove(key);
    }
}

} // verus!
