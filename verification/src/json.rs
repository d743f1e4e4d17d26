//! A small structured document model for the JSON output.
//!
//! The assembler produces a structured value; rendering that value as JSON
//! text is the job of a general-purpose serializer outside this crate. The
//! model keeps 32-bit float values as their IEEE-754 bit patterns, so that
//! every structural fact about the document can be verified.
use vstd::prelude::*;

verus! {

broadcast use vstd::std_specs::vec::axiom_vec_index_decreases;

/// Mathematical model of a JSON value: numbers, text, arrays and objects.
///
/// An object is a sequence of key/value pairs in emission order; a float is
/// carried as the bit pattern of the 32-bit value to be printed.
#[verifier::ext_equal]
pub enum JsonModel {
    Num(u64),
    Float(u32),
    Text(Seq<char>),
    Arr(Seq<JsonModel>),
    Obj(Seq<(Seq<char>, JsonModel)>),
}

/// A structured JSON value, mirroring [`JsonModel`] at the executable level.
#[derive(Debug)]
pub enum JsonValue {
    Num(u64),
    Float(u32),
    Text(String),
    Arr(Vec<JsonValue>),
    Obj(Vec<(String, JsonValue)>),
}

impl JsonValue {
    /// The mathematical value this structured value denotes.
    pub open spec fn model(self) -> JsonModel
        decreases self,
    {
        match self {
            JsonValue::Num(n) => JsonModel::Num(n),
            JsonValue::Float(bits) => JsonModel::Float(bits),
            JsonValue::Text(s) => JsonModel::Text(s@),
            JsonValue::Arr(items) => JsonModel::Arr(model_seq(items@)),
            JsonValue::Obj(fields) => JsonModel::Obj(model_fields(fields@)),
        }
    }
}

/// The models of a sequence of values, element by element.
pub open spec fn model_seq(items: Seq<JsonValue>) -> Seq<JsonModel>
    decreases items,
{
    if items.len() == 0 {
        Seq::empty()
    } else {
        model_seq(items.drop_last()).push(items.last().model())
    }
}

/// The models of a sequence of object fields, pair by pair.
pub open spec fn model_fields(fields: Seq<(String, JsonValue)>) -> Seq<(Seq<char>, JsonModel)>
    decreases fields,
{
    if fields.len() == 0 {
        Seq::empty()
    } else {
        model_fields(fields.drop_last()).push((fields.last().0@, fields.last().1.model()))
    }
}

/// `model_seq` maps the model over the sequence pointwise.
pub proof fn lemma_model_seq(items: Seq<JsonValue>)
    ensures
        model_seq(items).len() == items.len(),
        forall|i: int| 0 <= i < items.len() ==> #[trigger] model_seq(items)[i] == items[i].model(),
    decreases items,
{
    if items.len() > 0 {
        lemma_model_seq(items.drop_last());
        assert forall|i: int| 0 <= i < items.len() implies #[trigger] model_seq(items)[i] == items[i].model() by {
            if i < items.len() - 1 {
                assert(items.drop_last()[i] == items[i]);
            } else {
                assert(items[i] == items.last());
            }
        }
    }
}

/// `model_fields` maps key views and value models over the fields pointwise.
pub proof fn lemma_model_fields(fields: Seq<(String, JsonValue)>)
    ensures
        model_fields(fields).len() == fields.len(),
        forall|i: int|
            0 <= i < fields.len() ==> #[trigger] model_fields(fields)[i] == (
            fields[i].0@,
            fields[i].1.model(),
            ),
    decreases fields,
{
    if fields.len() > 0 {
        lemma_model_fields(fields.drop_last());
        assert forall|i: int|
            0 <= i < fields.len() implies #[trigger] model_fields(fields)[i] == (
        fields[i].0@,
        fields[i].1.model(),
        ) by {
            if i < fields.len() - 1 {
                assert(fields.drop_last()[i] == fields[i]);
            } else {
                assert(fields[i] == fields.last());
            }
        }
    }
}

impl View for JsonValue {
    type V = JsonModel;

    open spec fn view(&self) -> JsonModel {
        self.model()
    }
}

impl JsonValue {
    /// A copy of this value that denotes the same mathematical value.
    #[verifier::loop_isolation(false)]
    pub fn duplicate(&self) -> (r: JsonValue)
        ensures
            r.model() == self.model(),
        decreases *self,
    {
        match self {
            JsonValue::Num(n) => JsonValue::Num(*n),
            JsonValue::Float(bits) => JsonValue::Float(*bits),
            JsonValue::Text(s) => JsonValue::Text(s.clone()),
            JsonValue::Arr(items) => {
                let mut out: Vec<JsonValue> = Vec::new();
                let n = items.len();
                let mut k: usize = 0;
                while k < n
                    invariant
                        k <= n,
                        out@.len() == k,
                        forall|i: int|
                            0 <= i < k ==> (#[trigger] out@[i]).model() == items@[i].model(),
                    decreases n - k,
                {
                    out.push(items[k].duplicate());
                    k = k + 1;
                }
                let r = JsonValue::Arr(out);
                proof {
                    lemma_model_seq(out@);
                    lemma_model_seq(items@);
                    assert(model_seq(out@) =~= model_seq(items@));
                }
                r
            },
            JsonValue::Obj(fields) => {
                let mut out: Vec<(String, JsonValue)> = Vec::new();
                let n = fields.len();
                let mut k: usize = 0;
                while k < n
                    invariant
                        k <= n,
                        out@.len() == k,
                        forall|i: int|
                            0 <= i < k ==> {
                                &&& (#[trigger] out@[i]).0@ == fields@[i].0@
                                &&& out@[i].1.model() == fields@[i].1.model()
                            },
                    decreases n - k,
                {
                    let field = &fields[k];
                    out.push((field.0.clone(), field.1.duplicate()));
                    k = k + 1;
                }
                let r = JsonValue::Obj(out);
                proof {
                    lemma_model_fields(out@);
                    lemma_model_fields(fields@);
                    assert(model_fields(out@) =~= model_fields(fields@));
                }
                r
            },
        }
    }
}

/// `model_fields` distributes over concatenation.
pub proof fn lemma_model_fields_add(a: Seq<(String, JsonValue)>, b: Seq<(String, JsonValue)>)
    ensures
        model_fields(a + b) == model_fields(a) + model_fields(b),
{
    lemma_model_fields(a);
    lemma_model_fields(b);
    lemma_model_fields(a + b);
    assert(model_fields(a + b) =~= model_fields(a) + model_fields(b));
}

/// The keys of an object model, in emission order.
pub open spec fn obj_keys(fields: Seq<(Seq<char>, JsonModel)>) -> Seq<Seq<char>> {
    fields.map_values(|field: (Seq<char>, JsonModel)| field.0)
}

/// Whether an object model carries a field named `key`.
pub open spec fn obj_has_key(fields: Seq<(Seq<char>, JsonModel)>, key: Seq<char>) -> bool {
    exists|i: int| 0 <= i < fields.len() && fields[i].0 == key
}

} // verus!
