//! Document meshes: primitives referencing packed accessors and materials.
use vstd::prelude::*;
use vstd::slice::slice_subrange;

use crate::buffer::{fold_max, fold_min, lemma_seq_bytes_len, AccessorComponentType,
    AccessorDataType, AccessorIndex, BufferTypeEx, BufferTypeMinMax, BufferViewTarget,
    BufferWriter, MinMax};
use crate::json::{lemma_model_fields, lemma_model_seq, model_fields, model_seq, JsonModel,
    JsonValue};
use crate::material::MaterialIndex;
use crate::storage::StorageIndex;
use crate::{Model, Vertex};

verus! {

/// One primitive: its vertex attribute accessors by name, its index accessor
/// and its material. Each attribute name is expected once; the pairs are
/// emitted in the order the vertex type hands them out.
pub struct Primitive {
    pub attributes: Vec<(&'static str, usize)>,
    pub indices: AccessorIndex,
    pub material: MaterialIndex,
}

/// One document mesh: its primitives.
pub struct Mesh {
    pub primitives: Vec<Primitive>,
}

impl Default for Primitive {
    /// No attributes, index accessor and material both at position 0.
    fn default() -> (r: Self)
        ensures
            r.attributes@ == Seq::<(&'static str, usize)>::empty(),
            r.indices.0 == 0,
            r.material.0 == 0,
    {
        Primitive {
            attributes: Vec::new(),
            indices: StorageIndex::new(0),
            material: StorageIndex::new(0),
        }
    }
}

impl Default for Mesh {
    fn default() -> (r: Self)
        ensures
            r.primitives@ == Seq::<Primitive>::empty(),
    {
        Mesh { primitives: Vec::new() }
    }
}

/// The object a primitive renders as.
pub open spec fn spec_primitive_json(p: Primitive) -> JsonModel {
    JsonModel::Obj(
        seq![
            (
                "attributes"@,
                JsonModel::Obj(
                    p.attributes@.map_values(
                        |a: (&'static str, usize)| (a.0@, JsonModel::Num(a.1 as u64)),
                    ),
                ),
            ),
            ("indices"@, JsonModel::Num(p.indices.0 as u64)),
            ("material"@, JsonModel::Num(p.material.0 as u64)),
        ],
    )
}

/// Renders one primitive as its document object.
pub fn primitive_to_json(primitive: &Primitive) -> (r: JsonValue)
    ensures
        r.model() == spec_primitive_json(*primitive),
{
    let mut attr_fields: Vec<(String, JsonValue)> = Vec::new();
    let n = primitive.attributes.len();
    let mut k: usize = 0;
    while k < n
        invariant
            n == primitive.attributes@.len(),
            k <= n,
            attr_fields@.len() == k,
            forall|i: int|
                0 <= i < k ==> {
                    &&& (#[trigger] attr_fields@[i]).0@ == primitive.attributes@[i].0@
                    &&& attr_fields@[i].1 == JsonValue::Num(primitive.attributes@[i].1 as u64)
                },
        decreases n - k,
    {
        let pair = primitive.attributes[k];
        attr_fields.push((pair.0.to_owned(), JsonValue::Num(pair.1 as u64)));
        k = k + 1;
    }
    let attrs = JsonValue::Obj(attr_fields);
    proof {
        lemma_model_fields(attr_fields@);
        assert(model_fields(attr_fields@) =~= primitive.attributes@.map_values(
            |a: (&'static str, usize)| (a.0@, JsonModel::Num(a.1 as u64)),
        ));
    }
    let mut fields: Vec<(String, JsonValue)> = Vec::new();
    fields.push(("attributes".to_owned(), attrs));
    fields.push(("indices".to_owned(), JsonValue::Num(primitive.indices.0 as u64)));
    fields.push(("material".to_owned(), JsonValue::Num(primitive.material.0 as u64)));
    let r = JsonValue::Obj(fields);
    proof {
        lemma_model_fields(fields@);
        assert(model_fields(fields@) =~= spec_primitive_json(*primitive)->Obj_0);
        assert(r.model() == spec_primitive_json(*primitive));
    }
    r
}

/// The object a mesh renders as.
pub open spec fn spec_mesh_json(m: Mesh) -> JsonModel {
    JsonModel::Obj(
        seq![
            (
                "primitives"@,
                JsonModel::Arr(m.primitives@.map_values(|p: Primitive| spec_primitive_json(p))),
            ),
        ],
    )
}

/// Renders one mesh as its document object.
pub fn mesh_to_json(mesh: &Mesh) -> (r: JsonValue)
    ensures
        r.model() == spec_mesh_json(*mesh),
{
    let mut items: Vec<JsonValue> = Vec::new();
    let n = mesh.primitives.len();
    let mut k: usize = 0;
    while k < n
        invariant
            n == mesh.primitives@.len(),
            k <= n,
            items@.len() == k,
            forall|i: int|
                0 <= i < k ==> (#[trigger] items@[i]).model() == spec_primitive_json(
                    mesh.primitives@[i],
                ),
        decreases n - k,
    {
        items.push(primitive_to_json(&mesh.primitives[k]));
        k = k + 1;
    }
    let prims = JsonValue::Arr(items);
    proof {
        lemma_model_seq(items@);
        assert(model_seq(items@) =~= mesh.primitives@.map_values(
            |p: Primitive| spec_primitive_json(p),
        ));
    }
    let mut fields: Vec<(String, JsonValue)> = Vec::new();
    fields.push(("primitives".to_owned(), prims));
    let r = JsonValue::Obj(fields);
    proof {
        lemma_model_fields(fields@);
        assert(model_fields(fields@) =~= spec_mesh_json(*mesh)->Obj_0);
        assert(r.model() == spec_mesh_json(*mesh));
    }
    r
}

/// How a built mesh relates to the model it was packed from: one primitive
/// per model mesh, each carrying the model mesh's texture as its material and
/// an index accessor that covers exactly the model mesh's index range, with
/// exact min/max bounds folded over that range.
pub open spec fn spec_mesh_packed<V>(
    mesh: Mesh,
    model: Model<V>,
    accessors: Seq<crate::buffer::Accessor>,
    views_len: int,
) -> bool {
    &&& mesh.primitives@.len() == model.meshes@.len()
    &&& forall|k: int|
        0 <= k < model.meshes@.len() ==> {
            let p = (#[trigger] mesh.primitives@[k]);
            let start = model.meshes@[k].indices_range.start;
            let end = model.meshes@[k].indices_range.end;
            &&& p.material.0 == model.meshes@[k].texture_index
            &&& p.indices.0 < accessors.len()
            &&& {
                let a = accessors[p.indices.0 as int];
                &&& a.buffer_view < views_len
                &&& a.byte_offset == start * 4
                &&& a.count == end - start
                &&& a.component_ty == AccessorComponentType::UnsignedInt
                &&& a.ty == AccessorDataType::Scalar
                &&& (a.min_max matches Some(mm) && mm.min.model() == fold_min(
                    model.indices@.subrange(start as int, end as int),
                ).spec_bound_json() && mm.max.model() == fold_max(
                    model.indices@.subrange(start as int, end as int),
                ).spec_bound_json())
            }
        }
}

/// A packed mesh keeps matching its model when the accessor arena grows by
/// appending and the view arena only grows.
pub proof fn lemma_mesh_packed_stable<V>(
    mesh: Mesh,
    model: Model<V>,
    accessors: Seq<crate::buffer::Accessor>,
    views_len: int,
    later_accessors: Seq<crate::buffer::Accessor>,
    later_views_len: int,
)
    requires
        spec_mesh_packed(mesh, model, accessors, views_len),
        accessors.is_prefix_of(later_accessors),
        views_len <= later_views_len,
    ensures
        spec_mesh_packed(mesh, model, later_accessors, later_views_len),
{
    assert forall|i: int| 0 <= i < accessors.len() implies later_accessors[i] == #[trigger] accessors[i] by {
        assert(accessors =~= later_accessors.subrange(0, accessors.len() as int));
        assert(later_accessors.subrange(0, accessors.len() as int)[i] == later_accessors[i]);
    }
}

/// Copies an attribute list; the pairs are plain copyable values.
fn copy_attributes(attributes: &Vec<(&'static str, usize)>) -> (r: Vec<(&'static str, usize)>)
    ensures
        r@ == attributes@,
{
    let mut r: Vec<(&'static str, usize)> = Vec::new();
    let n = attributes.len();
    let mut k: usize = 0;
    while k < n
        invariant
            n == attributes@.len(),
            k <= n,
            r@ == attributes@.take(k as int),
        decreases n - k,
    {
        r.push(attributes[k]);
        proof {
            assert(r@ =~= attributes@.take(k + 1 as int));
        }
        k = k + 1;
    }
    proof {
        assert(attributes@.take(n as int) =~= attributes@);
    }
    r
}

impl Mesh {
    /// Packs a model's index and vertex data and builds the mesh's
    /// primitives: one per model mesh, all sharing the vertex attributes, each
    /// with an index accessor covering exactly its index range, with exact
    /// min/max bounds folded over that range.
    pub fn new<T: Vertex>(model: &Model<T>, buffer_writer: &mut BufferWriter) -> (r: Self)
        requires
            old(buffer_writer).wf(),
            forall|k: int|
                0 <= k < model.meshes@.len() ==> {
                    &&& (#[trigger] model.meshes@[k]).indices_range.start
                        <= model.meshes@[k].indices_range.end
                    &&& model.meshes@[k].indices_range.end <= model.indices@.len()
                },
        ensures
            final(buffer_writer).wf(),
            old(buffer_writer)@.buffer.is_prefix_of(final(buffer_writer)@.buffer),
            old(buffer_writer)@.views.is_prefix_of(final(buffer_writer)@.views),
            old(buffer_writer)@.accessors.is_prefix_of(final(buffer_writer)@.accessors),
            spec_mesh_packed(
                r,
                *model,
                final(buffer_writer)@.accessors,
                final(buffer_writer)@.views.len() as int,
            ),
            r.primitives@.len() == model.meshes@.len(),
            forall|k: int|
                0 <= k < model.meshes@.len() ==> {
                    let p = (#[trigger] r.primitives@[k]);
                    let start = model.meshes@[k].indices_range.start;
                    let end = model.meshes@[k].indices_range.end;
                    let a = final(buffer_writer)@.accessors[p.indices.0 as int];
                    &&& p.material.0 == model.meshes@[k].texture_index
                    &&& p.indices.0 == final(buffer_writer)@.accessors.len() - model.meshes@.len()
                        + k
                    &&& a.buffer_view == old(buffer_writer)@.views.len()
                    &&& a.byte_offset == start * 4
                    &&& a.count == end - start
                    &&& a.component_ty == AccessorComponentType::UnsignedInt
                    &&& a.ty == AccessorDataType::Scalar
                    &&& (a.min_max matches Some(mm) && mm.min.model() == fold_min(
                        model.indices@.subrange(start as int, end as int),
                    ).spec_bound_json() && mm.max.model() == fold_max(
                        model.indices@.subrange(start as int, end as int),
                    ).spec_bound_json())
                },
            forall|i: int, j: int|
                0 <= i < r.primitives@.len() && 0 <= j < r.primitives@.len()
                    ==> (#[trigger] r.primitives@[i]).attributes@ == (
                #[trigger] r.primitives@[j]).attributes@,
    {
        let indices_view = buffer_writer.create_view(
            model.indices.as_slice(),
            Some(BufferViewTarget::ElementArrayBuffer),
        );
        proof {
            lemma_seq_bytes_len::<u32>(model.indices@);
        }
        let vertex_attributes = T::write_slices(buffer_writer, model.vertices.as_slice());
        let ghost mid = buffer_writer@;
        let mut primitives: Vec<Primitive> = Vec::new();
        let n = model.meshes.len();
        let mut k: usize = 0;
        while k < n
            invariant
                n == model.meshes@.len(),
                k <= n,
                forall|j: int|
                    0 <= j < n ==> {
                        &&& (#[trigger] model.meshes@[j]).indices_range.start
                            <= model.meshes@[j].indices_range.end
                        &&& model.meshes@[j].indices_range.end <= model.indices@.len()
                    },
                model.indices@.len() * 4 <= usize::MAX,
                buffer_writer.wf(),
                indices_view.0 < mid.views.len(),
                buffer_writer@.buffer == mid.buffer,
                buffer_writer@.views == mid.views,
                mid.accessors.is_prefix_of(buffer_writer@.accessors),
                buffer_writer@.accessors.len() == mid.accessors.len() + k,
                primitives@.len() == k,
                forall|j: int|
                    0 <= j < k ==> {
                        let p = (#[trigger] primitives@[j]);
                        let start = model.meshes@[j].indices_range.start;
                        let end = model.meshes@[j].indices_range.end;
                        let a = buffer_writer@.accessors[p.indices.0 as int];
                        &&& p.indices.0 == mid.accessors.len() + j
                        &&& p.material.0 == model.meshes@[j].texture_index
                        &&& p.attributes@ == vertex_attributes@
                        &&& a.buffer_view == indices_view.0
                        &&& a.byte_offset == start * 4
                        &&& a.count == end - start
                        &&& a.component_ty == AccessorComponentType::UnsignedInt
                        &&& a.ty == AccessorDataType::Scalar
                        &&& (a.min_max matches Some(mm) && mm.min.model() == fold_min(
                            model.indices@.subrange(start as int, end as int),
                        ).spec_bound_json() && mm.max.model() == fold_max(
                            model.indices@.subrange(start as int, end as int),
                        ).spec_bound_json())
                    },
            decreases n - k,
        {
            let ghost pre = buffer_writer@;
            let mesh = &model.meshes[k];
            let start = mesh.indices_range.start;
            let end = mesh.indices_range.end;
            let indices = slice_subrange(model.indices.as_slice(), start, end);
            let (min, max) = u32::find_min_max(indices);
            let indices_accessor = buffer_writer.create_accessor_with_min_max::<u32>(
                indices_view,
                start * 4,
                end - start,
                MinMax { min, max },
            );
            let attributes = copy_attributes(&vertex_attributes);
            primitives.push(
                Primitive { attributes, indices: indices_accessor, material: StorageIndex::new(
                    mesh.texture_index,
                ) },
            );
            proof {
                assert forall|j: int| 0 <= j < k implies buffer_writer@.accessors[(
                #[trigger] primitives@[j]).indices.0 as int] == pre.accessors[primitives@[
                    j
                ].indices.0 as int] by {
                }
            }
            k = k + 1;
        }
        proof {
            assert(mid.accessors.is_prefix_of(buffer_writer@.accessors));
        }
        Mesh { primitives }
    }
}

} // verus!
