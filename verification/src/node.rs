//! Scene-graph nodes: transform, optional mesh/skin references and children.
use vstd::prelude::*;

use crate::element::{Vec3Data, Vec4Data};
use crate::json::{lemma_model_fields, lemma_model_seq, model_fields, model_seq, JsonModel,
    JsonValue};
use crate::storage::{Storage, StorageIndex};

verus! {

/// A reference to a mesh by its position in the document's mesh list.
#[derive(Clone, Copy, Debug)]
pub struct MeshIndex(pub usize);

pub type NodeIndex = StorageIndex<Node>;

/// One scene-graph node. Every optional field is omitted from the document
/// when absent, and the child list is omitted when empty.
#[derive(Clone, Debug)]
pub struct Node {
    pub mesh: Option<MeshIndex>,
    pub skin: Option<crate::skin::SkinIndex>,
    pub name: Option<String>,
    pub translation: Option<Vec3Data>,
    pub rotation: Option<Vec4Data>,
    pub children: Vec<NodeIndex>,
}

impl Default for Node {
    fn default() -> (r: Self)
        ensures
            r.mesh is None,
            r.skin is None,
            r.name is None,
            r.translation is None,
            r.rotation is None,
            r.children@ == Seq::<NodeIndex>::empty(),
    {
        Node {
            mesh: None,
            skin: None,
            name: None,
            translation: None,
            rotation: None,
            children: Vec::new(),
        }
    }
}

/// The fields a node's object carries: present fields only, in declared
/// order.
pub open spec fn spec_node_fields(n: Node) -> Seq<(Seq<char>, JsonModel)> {
    (match n.mesh {
            Some(m) => seq![("mesh"@, JsonModel::Num(m.0 as u64))],
            None => Seq::empty(),
        }) + (match n.skin {
            Some(s) => seq![("skin"@, JsonModel::Num(s.0 as u64))],
            None => Seq::empty(),
        }) + (match n.name {
            Some(name) => seq![("name"@, JsonModel::Text(name@))],
            None => Seq::empty(),
        }) + (match n.translation {
            Some(t) => seq![("translation"@, t.spec_json())],
            None => Seq::empty(),
        }) + (match n.rotation {
            Some(q) => seq![("rotation"@, q.spec_json())],
            None => Seq::empty(),
        }) + (if n.children.len() > 0 {
            seq![
                (
                    "children"@,
                    JsonModel::Arr(
                        n.children@.map_values(|c: NodeIndex| JsonModel::Num(c.0 as u64)),
                    ),
                ),
            ]
        } else {
            Seq::empty()
        })
}

/// The object a node renders as.
pub open spec fn spec_node_json(n: Node) -> JsonModel {
    JsonModel::Obj(spec_node_fields(n))
}

/// Renders one node as its document object.
pub fn node_to_json(node: &Node) -> (r: JsonValue)
    ensures
        r.model() == spec_node_json(*node),
{
    let mut fields: Vec<(String, JsonValue)> = Vec::new();
    if let Some(m) = &node.mesh {
        fields.push(("mesh".to_owned(), JsonValue::Num(m.0 as u64)));
    }
    if let Some(s) = &node.skin {
        fields.push(("skin".to_owned(), JsonValue::Num(s.0 as u64)));
    }
    if let Some(name) = &node.name {
        fields.push(("name".to_owned(), JsonValue::Text(name.clone())));
    }
    if let Some(t) = &node.translation {
        fields.push(("translation".to_owned(), t.to_json()));
    }
    if let Some(q) = &node.rotation {
        fields.push(("rotation".to_owned(), q.to_json()));
    }
    if node.children.len() > 0 {
        let mut items: Vec<JsonValue> = Vec::new();
        let n = node.children.len();
        let mut k: usize = 0;
        while k < n
            invariant
                n == node.children@.len(),
                k <= n,
                items@.len() == k,
                forall|i: int|
                    0 <= i < k ==> items@[i] == JsonValue::Num(
                        (#[trigger] node.children@[i]).0 as u64,
                    ),
            decreases n - k,
        {
            items.push(JsonValue::Num(node.children[k].0 as u64));
            k = k + 1;
        }
        let children_json = JsonValue::Arr(items);
        proof {
            lemma_model_seq(items@);
            assert(model_seq(items@) =~= node.children@.map_values(
                |c: NodeIndex| JsonModel::Num(c.0 as u64),
            ));
        }
        fields.push(("children".to_owned(), children_json));
    }
    let r = JsonValue::Obj(fields);
    proof {
        lemma_model_fields(fields@);
        assert(model_fields(fields@) =~= spec_node_fields(*node));
        assert(r.model() == spec_node_json(*node));
    }
    r
}

/// The arena of scene-graph nodes; its view is the node sequence.
pub struct Nodes {
    nodes: Storage<Node>,
}

impl View for Nodes {
    type V = Seq<Node>;

    closed spec fn view(&self) -> Seq<Node> {
        self.nodes@
    }
}

/// The array the node store renders as: every node's object, in allocation
/// order.
pub open spec fn spec_nodes_json(nodes: Seq<Node>) -> JsonModel {
    JsonModel::Arr(nodes.map_values(|n: Node| spec_node_json(n)))
}

impl Nodes {
    /// An empty node store with room reserved for `capacity` nodes.
    pub fn new(capacity: usize) -> (r: Self)
        ensures
            r@ == Seq::<Node>::empty(),
    {
        Nodes { nodes: Storage::with_capacity(capacity) }
    }

    /// Appends a node and returns its stable handle.
    pub fn add_node(&mut self, node: Node) -> (r: NodeIndex)
        ensures
            final(self)@ == old(self)@.push(node),
            r.0 == old(self)@.len(),
    {
        self.nodes.allocate_with(node)
    }

    /// How many nodes have been added.
    pub fn len(&self) -> (r: usize)
        ensures
            r == self@.len(),
    {
        self.nodes.len()
    }

    /// Renders the node store as its document array.
    pub fn write_nodes(&self) -> (r: JsonValue)
        ensures
            r.model() == spec_nodes_json(self@),
    {
        let mut items: Vec<JsonValue> = Vec::new();
        let n = self.nodes.len();
        let mut k: usize = 0;
        while k < n
            invariant
                n == self@.len(),
                k <= n,
                items@.len() == k,
                forall|i: int|
                    0 <= i < k ==> (#[trigger] items@[i]).model() == spec_node_json(self@[i]),
            decreases n - k,
        {
            items.push(node_to_json(self.nodes.at(k)));
            k = k + 1;
        }
        let r = JsonValue::Arr(items);
        proof {
            lemma_model_seq(items@);
            assert(model_seq(items@) =~= self@.map_values(|n: Node| spec_node_json(n)));
            assert(r.model() == spec_nodes_json(self@));
        }
        r
    }
}

} // verus!
