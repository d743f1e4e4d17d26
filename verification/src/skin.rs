//! Skins: an inverse-bind-matrix accessor and the joint nodes.
use vstd::prelude::*;

use crate::buffer::AccessorIndex;
use crate::json::{lemma_model_fields, lemma_model_seq, model_fields, model_seq, JsonModel,
    JsonValue};
use crate::node::NodeIndex;
use crate::storage::{Storage, StorageIndex};

verus! {

pub type SkinIndex = StorageIndex<Skin>;

/// One skin: the accessor holding its inverse bind matrices and its joints.
#[derive(Clone, Debug)]
pub struct Skin {
    pub inverse_bind_matrices: AccessorIndex,
    pub joints: Vec<NodeIndex>,
}

/// The object a skin renders as.
pub open spec fn spec_skin_json(s: Skin) -> JsonModel {
    JsonModel::Obj(
        seq![
            ("inverseBindMatrices"@, JsonModel::Num(s.inverse_bind_matrices.0 as u64)),
            (
                "joints"@,
                JsonModel::Arr(s.joints@.map_values(|j: NodeIndex| JsonModel::Num(j.0 as u64))),
            ),
        ],
    )
}

/// Renders one skin as its document object.
pub fn skin_to_json(skin: &Skin) -> (r: JsonValue)
    ensures
        r.model() == spec_skin_json(*skin),
{
    let mut fields: Vec<(String, JsonValue)> = Vec::new();
    fields.push(
        ("inverseBindMatrices".to_owned(), JsonValue::Num(skin.inverse_bind_matrices.0 as u64)),
    );
    let mut items: Vec<JsonValue> = Vec::new();
    let n = skin.joints.len();
    let mut k: usize = 0;
    while k < n
        invariant
            n == skin.joints@.len(),
            k <= n,
            items@.len() == k,
            forall|i: int|
                0 <= i < k ==> items@[i] == JsonValue::Num((#[trigger] skin.joints@[i]).0 as u64),
        decreases n - k,
    {
        items.push(JsonValue::Num(skin.joints[k].0 as u64));
        k = k + 1;
    }
    let joints_json = JsonValue::Arr(items);
    proof {
        lemma_model_seq(items@);
        assert(model_seq(items@) =~= skin.joints@.map_values(
            |j: NodeIndex| JsonModel::Num(j.0 as u64),
        ));
    }
    fields.push(("joints".to_owned(), joints_json));
    let r = JsonValue::Obj(fields);
    proof {
        lemma_model_fields(fields@);
        assert(model_fields(fields@) =~= seq![
            ("inverseBindMatrices"@, JsonModel::Num(skin.inverse_bind_matrices.0 as u64)),
            (
                "joints"@,
                JsonModel::Arr(
                    skin.joints@.map_values(|j: NodeIndex| JsonModel::Num(j.0 as u64)),
                ),
            ),
        ]);
        assert(r.model() == spec_skin_json(*skin));
    }
    r
}

impl Default for Skin {
    /// Matrices accessor at position 0 and no joints.
    fn default() -> (r: Self)
        ensures
            r.inverse_bind_matrices.0 == 0,
            r.joints@ == Seq::<NodeIndex>::empty(),
    {
        Skin { inverse_bind_matrices: StorageIndex::new(0), joints: Vec::new() }
    }
}

/// The arena of skins; its view is the skin sequence.
pub struct Skins {
    skins: Storage<Skin>,
}

/// The array the skin store renders as.
pub open spec fn spec_skins_json(skins: Seq<Skin>) -> JsonModel {
    JsonModel::Arr(skins.map_values(|s: Skin| spec_skin_json(s)))
}

impl View for Skins {
    type V = Seq<Skin>;

    closed spec fn view(&self) -> Seq<Skin> {
        self.skins@
    }
}

impl Skins {
    /// An empty skin store.
    pub fn new() -> (r: Self)
        ensures
            r@ == Seq::<Skin>::empty(),
    {
        Skins { skins: Storage::new() }
    }

    /// Appends a skin and returns its stable handle.
    pub fn add_skin(&mut self, skin: Skin) -> (r: SkinIndex)
        ensures
            final(self)@ == old(self)@.push(skin),
            r.0 == old(self)@.len(),
    {
        self.skins.allocate_with(skin)
    }

    /// Whether no skin has been added.
    pub fn is_empty(&self) -> (r: bool)
        ensures
            r == (self@.len() == 0),
    {
        self.skins.is_empty()
    }

    /// Renders the skin store as its document array.
    pub fn write_skins(&self) -> (r: JsonValue)
        ensures
            r.model() == spec_skins_json(self@),
    {
        let mut items: Vec<JsonValue> = Vec::new();
        let n = self.skins.len();
        let mut k: usize = 0;
        while k < n
            invariant
                n == self@.len(),
                k <= n,
                items@.len() == k,
                forall|i: int|
                    0 <= i < k ==> (#[trigger] items@[i]).model() == spec_skin_json(self@[i]),
            decreases n - k,
        {
            items.push(skin_to_json(self.skins.at(k)));
            k = k + 1;
        }
        let r = JsonValue::Arr(items);
        proof {
            lemma_model_seq(items@);
            assert(model_seq(items@) =~= self@.map_values(|s: Skin| spec_skin_json(s)));
            assert(r.model() == spec_skins_json(self@));
        }
        r
    }
}

impl Default for Skins {
    fn default() -> (r: Self)
        ensures
            r@ == Seq::<Skin>::empty(),
    {
        Skins::new()
    }
}

} // verus!
