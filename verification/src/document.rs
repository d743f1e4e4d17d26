//! The document assembler: composes all stores plus the buffer writer's
//! contents into one JSON value shaped after the schema.
use vstd::prelude::*;
use vstd::string::StringExecFns;

use base64::Engine;

use crate::animation::{spec_animations_json, AnimationModel, Animations};
use crate::buffer::{spec_accessors_json, spec_buffer_views_json, Accessor, BufferView,
    BufferWriter};
use crate::json::{lemma_model_fields, lemma_model_fields_add, lemma_model_seq, model_fields,
    model_seq, obj_has_key, obj_keys, JsonModel, JsonValue};
use crate::material::{spec_images_json, spec_materials_json, spec_tex_samplers_json,
    spec_textures_json, MaterialData, MaterialDataModel};
use crate::mesh::{mesh_to_json, spec_mesh_json, Mesh};
use crate::node::{spec_nodes_json, Node, NodeIndex, Nodes};
use crate::skin::{spec_skins_json, Skin, Skins};

verus! {

/// Where the binary payload lives: at a caller-supplied URI, or embedded in
/// the document itself as a base64 data URI.
#[derive(Clone, Copy, Debug)]
pub enum BufferSource<'a> {
    Uri(&'a str),
    Base64,
}

/// What the standard base64 encoding of a byte sequence reads as.
pub uninterp spec fn base64_of(bytes: Seq<u8>) -> Seq<char>;

/// Relies on the base64 crate's standard engine (the RFC 4648 alphabet, with
/// padding): the encoding is a function of the input bytes alone, and emits
/// four characters for every started group of three input bytes.
#[verifier::external_body]
fn base64_encode(bytes: &[u8]) -> (r: String)
    requires
        4 * ((bytes@.len() + 2) / 3) <= usize::MAX,
    ensures
        r@ == base64_of(bytes@),
        r@.len() == 4 * ((bytes@.len() + 2) / 3),
{
    base64::engine::general_purpose::STANDARD.encode(bytes)
}

/// The scheme-and-media-type prefix of an embedded payload's data URI.
pub open spec fn spec_data_uri_prefix() -> Seq<char> {
    "data:application/octet-stream;base64,"@
}

/// What the buffer entry's URI field holds for a given source.
pub open spec fn spec_buffer_uri(source: BufferSource, buffer: Seq<u8>) -> Seq<char> {
    match source {
        BufferSource::Uri(uri) => uri@,
        BufferSource::Base64 => spec_data_uri_prefix() + base64_of(buffer),
    }
}

/// The fields of the document, in emission order. The four optional stores --
/// meshes, skins, animations and the material stores -- contribute their keys
/// only when they are not empty.
pub open spec fn spec_document_fields(
    uri: Seq<char>,
    buffer: Seq<u8>,
    views: Seq<BufferView>,
    accessors: Seq<Accessor>,
    meshes: Seq<Mesh>,
    scene_root: usize,
    nodes: Seq<Node>,
    skins: Seq<Skin>,
    animations: Seq<AnimationModel>,
    materials: MaterialDataModel,
) -> Seq<(Seq<char>, JsonModel)> {
    seq![
        ("scene"@, JsonModel::Num(0)),
        (
            "scenes"@,
            JsonModel::Arr(
                seq![
                    JsonModel::Obj(
                        seq![
                            (
                                "nodes"@,
                                JsonModel::Arr(seq![JsonModel::Num(scene_root as u64)]),
                            ),
                        ],
                    ),
                ],
            ),
        ),
        ("nodes"@, spec_nodes_json(nodes)),
    ] + (if meshes.len() > 0 {
        seq![("meshes"@, JsonModel::Arr(meshes.map_values(|m: Mesh| spec_mesh_json(m))))]
    } else {
        Seq::empty()
    }) + seq![
        (
            "buffers"@,
            JsonModel::Arr(
                seq![
                    JsonModel::Obj(
                        seq![
                            ("uri"@, JsonModel::Text(uri)),
                            ("byteLength"@, JsonModel::Num(buffer.len() as u64)),
                        ],
                    ),
                ],
            ),
        ),
        ("bufferViews"@, spec_buffer_views_json(views)),
        ("accessors"@, spec_accessors_json(accessors)),
    ] + (if skins.len() > 0 {
        seq![("skins"@, spec_skins_json(skins))]
    } else {
        Seq::empty()
    }) + (if animations.len() > 0 {
        seq![("animations"@, spec_animations_json(animations))]
    } else {
        Seq::empty()
    }) + (if materials.materials.len() > 0 {
        seq![("materials"@, spec_materials_json(materials.materials))]
    } else {
        Seq::empty()
    }) + (if materials.textures.len() > 0 {
        seq![("textures"@, spec_textures_json(materials.textures))]
    } else {
        Seq::empty()
    }) + (if materials.images.len() > 0 {
        seq![("images"@, spec_images_json(materials.images))]
    } else {
        Seq::empty()
    }) + (if materials.samplers.len() > 0 {
        seq![("samplers"@, spec_tex_samplers_json(materials.samplers))]
    } else {
        Seq::empty()
    }) + seq![("asset"@, JsonModel::Obj(seq![("version"@, JsonModel::Text("2.0"@))]))]
}

/// The document a build session renders as.
pub open spec fn spec_document_json(
    uri: Seq<char>,
    buffer: Seq<u8>,
    views: Seq<BufferView>,
    accessors: Seq<Accessor>,
    meshes: Seq<Mesh>,
    scene_root: usize,
    nodes: Seq<Node>,
    skins: Seq<Skin>,
    animations: Seq<AnimationModel>,
    materials: MaterialDataModel,
) -> JsonModel {
    JsonModel::Obj(
        spec_document_fields(
            uri,
            buffer,
            views,
            accessors,
            meshes,
            scene_root,
            nodes,
            skins,
            animations,
            materials,
        ),
    )
}

/// The assembled document, as one structured JSON value. Turning it into JSON
/// text is the job of a general-purpose serializer outside this crate.
pub struct GltfDocument {
    pub root: JsonValue,
}

impl GltfDocument {
    /// Assembles the document from every store, the buffer writer's views,
    /// accessors and byte length, the root node and the buffer source. The
    /// stores are only read; the caller keeps them.
    #[verifier::rlimit(100)]
    pub fn new<'a>(
        buffer_source: BufferSource<'a>,
        buffer_writer: &BufferWriter,
        meshes: Vec<Mesh>,
        material_data: &MaterialData,
        scene_root: NodeIndex,
        nodes: &Nodes,
        skins: &Skins,
        animations: &Animations,
    ) -> (r: Self)
        requires
            buffer_source is Base64 ==> 4 * ((buffer_writer@.buffer.len() + 2) / 3) <= usize::MAX,
        ensures
            r.root.model() == spec_document_json(
                spec_buffer_uri(buffer_source, buffer_writer@.buffer),
                buffer_writer@.buffer,
                buffer_writer@.views,
                buffer_writer@.accessors,
                meshes@,
                scene_root.0,
                nodes@,
                skins@,
                animations@,
                material_data@,
            ),
    {
        let buffer_uri: String = match buffer_source {
            BufferSource::Uri(uri) => uri.to_owned(),
            BufferSource::Base64 => {
                let encoded = base64_encode(buffer_writer.data());
                let prefix = "data:application/octet-stream;base64,".to_owned();
                prefix.concat(encoded.as_str())
            },
        };
        let ghost uri_view = spec_buffer_uri(buffer_source, buffer_writer@.buffer);

        // scene, scenes and nodes are always present.
        let mut fields: Vec<(String, JsonValue)> = Vec::new();
        fields.push(("scene".to_owned(), JsonValue::Num(0)));
        let mut root_nodes: Vec<JsonValue> = Vec::new();
        root_nodes.push(JsonValue::Num(scene_root.position() as u64));
        proof {
            lemma_model_seq(root_nodes@);
            assert(model_seq(root_nodes@) =~= seq![JsonModel::Num(scene_root.0 as u64)]);
        }
        let mut scene_fields: Vec<(String, JsonValue)> = Vec::new();
        scene_fields.push(("nodes".to_owned(), JsonValue::Arr(root_nodes)));
        let scene_obj = JsonValue::Obj(scene_fields);
        proof {
            lemma_model_fields(scene_fields@);
            assert(model_fields(scene_fields@) =~= seq![
                ("nodes"@, JsonModel::Arr(seq![JsonModel::Num(scene_root.0 as u64)])),
            ]);
        }
        let mut scenes: Vec<JsonValue> = Vec::new();
        scenes.push(scene_obj);
        proof {
            lemma_model_seq(scenes@);
            assert(model_seq(scenes@) =~= seq![
                JsonModel::Obj(
                    seq![("nodes"@, JsonModel::Arr(seq![JsonModel::Num(scene_root.0 as u64)]))],
                ),
            ]);
        }
        fields.push(("scenes".to_owned(), JsonValue::Arr(scenes)));
        fields.push(("nodes".to_owned(), nodes.write_nodes()));
        proof {
            lemma_model_fields(fields@);
            assert(model_fields(fields@) =~= seq![
                ("scene"@, JsonModel::Num(0)),
                (
                    "scenes"@,
                    JsonModel::Arr(
                        seq![
                            JsonModel::Obj(
                                seq![
                                    (
                                        "nodes"@,
                                        JsonModel::Arr(seq![JsonModel::Num(scene_root.0 as u64)]),
                                    ),
                                ],
                            ),
                        ],
                    ),
                ),
                ("nodes"@, spec_nodes_json(nodes@)),
            ]);
        }

        // meshes, omitted when there are none.
        let ghost prev = fields@;
        let mut seg: Vec<(String, JsonValue)> = Vec::new();
        if meshes.len() > 0 {
            let mut items: Vec<JsonValue> = Vec::new();
            let n = meshes.len();
            let mut k: usize = 0;
            while k < n
                invariant
                    n == meshes@.len(),
                    k <= n,
                    items@.len() == k,
                    forall|i: int|
                        0 <= i < k ==> (#[trigger] items@[i]).model() == spec_mesh_json(
                            meshes@[i],
                        ),
                decreases n - k,
            {
                items.push(mesh_to_json(&meshes[k]));
                k = k + 1;
            }
            proof {
                lemma_model_seq(items@);
                assert(model_seq(items@) =~= meshes@.map_values(|m: Mesh| spec_mesh_json(m)));
            }
            seg.push(("meshes".to_owned(), JsonValue::Arr(items)));
        }
        proof {
            lemma_model_fields(seg@);
            assert(model_fields(seg@) =~= (if meshes@.len() > 0 {
                seq![
                    (
                        "meshes"@,
                        JsonModel::Arr(meshes@.map_values(|m: Mesh| spec_mesh_json(m))),
                    ),
                ]
            } else {
                Seq::empty()
            }));
        }
        let ghost segv = seg@;
        fields.append(&mut seg);
        proof {
            lemma_model_fields_add(prev, segv);
        }

        // the buffer entry and the view and accessor arrays, always present.
        let ghost prev2 = fields@;
        let mut seg2: Vec<(String, JsonValue)> = Vec::new();
        let mut buffer_fields: Vec<(String, JsonValue)> = Vec::new();
        buffer_fields.push(("uri".to_owned(), JsonValue::Text(buffer_uri)));
        buffer_fields.push(
            ("byteLength".to_owned(), JsonValue::Num(buffer_writer.buffer_len() as u64)),
        );
        let buffer_obj = JsonValue::Obj(buffer_fields);
        proof {
            lemma_model_fields(buffer_fields@);
            assert(model_fields(buffer_fields@) =~= seq![
                ("uri"@, JsonModel::Text(uri_view)),
                ("byteLength"@, JsonModel::Num(buffer_writer@.buffer.len() as u64)),
            ]);
        }
        let mut buffers: Vec<JsonValue> = Vec::new();
        buffers.push(buffer_obj);
        proof {
            lemma_model_seq(buffers@);
            assert(model_seq(buffers@) =~= seq![
                JsonModel::Obj(
                    seq![
                        ("uri"@, JsonModel::Text(uri_view)),
                        ("byteLength"@, JsonModel::Num(buffer_writer@.buffer.len() as u64)),
                    ],
                ),
            ]);
        }
        seg2.push(("buffers".to_owned(), JsonValue::Arr(buffers)));
        seg2.push(("bufferViews".to_owned(), buffer_writer.write_buffer_views()));
        seg2.push(("accessors".to_owned(), buffer_writer.write_accessors()));
        proof {
            lemma_model_fields(seg2@);
            assert(model_fields(seg2@) =~= seq![
                (
                    "buffers"@,
                    JsonModel::Arr(
                        seq![
                            JsonModel::Obj(
                                seq![
                                    ("uri"@, JsonModel::Text(uri_view)),
                                    (
                                        "byteLength"@,
                                        JsonModel::Num(buffer_writer@.buffer.len() as u64),
                                    ),
                                ],
                            ),
                        ],
                    ),
                ),
                ("bufferViews"@, spec_buffer_views_json(buffer_writer@.views)),
                ("accessors"@, spec_accessors_json(buffer_writer@.accessors)),
            ]);
        }
        let ghost segv2 = seg2@;
        fields.append(&mut seg2);
        proof {
            lemma_model_fields_add(prev2, segv2);
        }

        // skins, omitted when there are none.
        let ghost prev3 = fields@;
        let mut seg3: Vec<(String, JsonValue)> = Vec::new();
        if !skins.is_empty() {
            seg3.push(("skins".to_owned(), skins.write_skins()));
        }
        proof {
            lemma_model_fields(seg3@);
            assert(model_fields(seg3@) =~= (if skins@.len() > 0 {
                seq![("skins"@, spec_skins_json(skins@))]
            } else {
                Seq::empty()
            }));
        }
        let ghost segv3 = seg3@;
        fields.append(&mut seg3);
        proof {
            lemma_model_fields_add(prev3, segv3);
        }

        // animations, omitted when there are none.
        let ghost prev4 = fields@;
        let mut seg4: Vec<(String, JsonValue)> = Vec::new();
        if !animations.is_empty() {
            seg4.push(("animations".to_owned(), animations.write_animations()));
        }
        proof {
            lemma_model_fields(seg4@);
            assert(model_fields(seg4@) =~= (if animations@.len() > 0 {
                seq![("animations"@, spec_animations_json(animations@))]
            } else {
                Seq::empty()
            }));
        }
        let ghost segv4 = seg4@;
        fields.append(&mut seg4);
        proof {
            lemma_model_fields_add(prev4, segv4);
        }

        // the four material stores, each omitted when empty.
        let ghost prev5 = fields@;
        let mut seg5: Vec<(String, JsonValue)> = Vec::new();
        if !material_data.materials_is_empty() {
            seg5.push(("materials".to_owned(), material_data.write_materials()));
        }
        proof {
            lemma_model_fields(seg5@);
            assert(model_fields(seg5@) =~= (if material_data@.materials.len() > 0 {
                seq![("materials"@, spec_materials_json(material_data@.materials))]
            } else {
                Seq::empty()
            }));
        }
        let ghost segv5 = seg5@;
        fields.append(&mut seg5);
        proof {
            lemma_model_fields_add(prev5, segv5);
        }

        let ghost prev6 = fields@;
        let mut seg6: Vec<(String, JsonValue)> = Vec::new();
        if !material_data.textures_is_empty() {
            seg6.push(("textures".to_owned(), material_data.write_textures()));
        }
        proof {
            lemma_model_fields(seg6@);
            assert(model_fields(seg6@) =~= (if material_data@.textures.len() > 0 {
                seq![("textures"@, spec_textures_json(material_data@.textures))]
            } else {
                Seq::empty()
            }));
        }
        let ghost segv6 = seg6@;
        fields.append(&mut seg6);
        proof {
            lemma_model_fields_add(prev6, segv6);
        }

        let ghost prev7 = fields@;
        let mut seg7: Vec<(String, JsonValue)> = Vec::new();
        if !material_data.images_is_empty() {
            seg7.push(("images".to_owned(), material_data.write_images()));
        }
        proof {
            lemma_model_fields(seg7@);
            assert(model_fields(seg7@) =~= (if material_data@.images.len() > 0 {
                seq![("images"@, spec_images_json(material_data@.images))]
            } else {
                Seq::empty()
            }));
        }
        let ghost segv7 = seg7@;
        fields.append(&mut seg7);
        proof {
            lemma_model_fields_add(prev7, segv7);
        }

        let ghost prev8 = fields@;
        let mut seg8: Vec<(String, JsonValue)> = Vec::new();
        if !material_data.samplers_is_empty() {
            seg8.push(("samplers".to_owned(), material_data.write_samplers()));
        }
        proof {
            lemma_model_fields(seg8@);
            assert(model_fields(seg8@) =~= (if material_data@.samplers.len() > 0 {
                seq![("samplers"@, spec_tex_samplers_json(material_data@.samplers))]
            } else {
                Seq::empty()
            }));
        }
        let ghost segv8 = seg8@;
        fields.append(&mut seg8);
        proof {
            lemma_model_fields_add(prev8, segv8);
        }

        // the asset stamp, always last.
        let ghost prev9 = fields@;
        let mut seg9: Vec<(String, JsonValue)> = Vec::new();
        let mut asset_fields: Vec<(String, JsonValue)> = Vec::new();
        asset_fields.push(("version".to_owned(), JsonValue::Text("2.0".to_owned())));
        let asset = JsonValue::Obj(asset_fields);
        proof {
            lemma_model_fields(asset_fields@);
            assert(model_fields(asset_fields@) =~= seq![("version"@, JsonModel::Text("2.0"@))]);
        }
        seg9.push(("asset".to_owned(), asset));
        proof {
            lemma_model_fields(seg9@);
            assert(model_fields(seg9@) =~= seq![
                ("asset"@, JsonModel::Obj(seq![("version"@, JsonModel::Text("2.0"@))])),
            ]);
        }
        let ghost segv9 = seg9@;
        fields.append(&mut seg9);
        proof {
            lemma_model_fields_add(prev9, segv9);
        }

        let root = JsonValue::Obj(fields);
        proof {
            assert(model_fields(fields@) =~= spec_document_fields(
                uri_view,
                buffer_writer@.buffer,
                buffer_writer@.views,
                buffer_writer@.accessors,
                meshes@,
                scene_root.0,
                nodes@,
                skins@,
                animations@,
                material_data@,
            ));
        }
        GltfDocument { root }
    }
}


/// Empty-store omission: a document assembled with no meshes, no skins, no
/// animations and nothing in any material store carries none of those keys.
/// Its keys are then exactly scene, scenes, nodes, buffers, bufferViews,
/// accessors and asset, in that order.
pub proof fn lemma_empty_store_omission(
    uri: Seq<char>,
    buffer: Seq<u8>,
    views: Seq<BufferView>,
    accessors: Seq<Accessor>,
    meshes: Seq<Mesh>,
    scene_root: usize,
    nodes: Seq<Node>,
    skins: Seq<Skin>,
    animations: Seq<AnimationModel>,
    materials: MaterialDataModel,
)
    requires
        meshes.len() == 0,
        skins.len() == 0,
        animations.len() == 0,
        materials.materials.len() == 0,
        materials.textures.len() == 0,
        materials.images.len() == 0,
        materials.samplers.len() == 0,
    ensures
        ({
            let fields = spec_document_fields(
                uri,
                buffer,
                views,
                accessors,
                meshes,
                scene_root,
                nodes,
                skins,
                animations,
                materials,
            );
            &&& obj_keys(fields) == seq![
                "scene"@,
                "scenes"@,
                "nodes"@,
                "buffers"@,
                "bufferViews"@,
                "accessors"@,
                "asset"@,
            ]
            &&& !obj_has_key(fields, "meshes"@)
            &&& !obj_has_key(fields, "skins"@)
            &&& !obj_has_key(fields, "animations"@)
            &&& !obj_has_key(fields, "materials"@)
            &&& !obj_has_key(fields, "textures"@)
            &&& !obj_has_key(fields, "images"@)
            &&& !obj_has_key(fields, "samplers"@)
        }),
{
    let fields = spec_document_fields(
        uri,
        buffer,
        views,
        accessors,
        meshes,
        scene_root,
        nodes,
        skins,
        animations,
        materials,
    );
    reveal_strlit("scene");
    reveal_strlit("scenes");
    reveal_strlit("nodes");
    reveal_strlit("buffers");
    reveal_strlit("bufferViews");
    reveal_strlit("accessors");
    reveal_strlit("asset");
    reveal_strlit("meshes");
    reveal_strlit("skins");
    reveal_strlit("animations");
    reveal_strlit("materials");
    reveal_strlit("textures");
    reveal_strlit("images");
    reveal_strlit("samplers");
    assert("scene"@.len() == 5);
    assert("scene"@[0] == 's');
    assert("scene"@[1] == 'c');
    assert("scenes"@.len() == 6);
    assert("scenes"@[0] == 's');
    assert("scenes"@[1] == 'c');
    assert("nodes"@.len() == 5);
    assert("nodes"@[0] == 'n');
    assert("nodes"@[1] == 'o');
    assert("buffers"@.len() == 7);
    assert("buffers"@[0] == 'b');
    assert("buffers"@[1] == 'u');
    assert("bufferViews"@.len() == 11);
    assert("bufferViews"@[0] == 'b');
    assert("bufferViews"@[1] == 'u');
    assert("accessors"@.len() == 9);
    assert("accessors"@[0] == 'a');
    assert("accessors"@[1] == 'c');
    assert("asset"@.len() == 5);
    assert("asset"@[0] == 'a');
    assert("asset"@[1] == 's');
    assert("meshes"@.len() == 6);
    assert("meshes"@[0] == 'm');
    assert("meshes"@[1] == 'e');
    assert("skins"@.len() == 5);
    assert("skins"@[0] == 's');
    assert("skins"@[1] == 'k');
    assert("animations"@.len() == 10);
    assert("animations"@[0] == 'a');
    assert("animations"@[1] == 'n');
    assert("materials"@.len() == 9);
    assert("materials"@[0] == 'm');
    assert("materials"@[1] == 'a');
    assert("textures"@.len() == 8);
    assert("textures"@[0] == 't');
    assert("textures"@[1] == 'e');
    assert("images"@.len() == 6);
    assert("images"@[0] == 'i');
    assert("images"@[1] == 'm');
    assert("samplers"@.len() == 8);
    assert("samplers"@[0] == 's');
    assert("samplers"@[1] == 'a');
    assert(fields.len() == 7);
    assert(obj_keys(fields) =~= seq![
        "scene"@,
        "scenes"@,
        "nodes"@,
        "buffers"@,
        "bufferViews"@,
        "accessors"@,
        "asset"@,
    ]);
    assert(!obj_has_key(fields, "meshes"@)) by {
        assert forall|i: int| 0 <= i < fields.len() implies (#[trigger] fields[i]).0 != "meshes"@ by {
            assert(obj_keys(fields)[i] == fields[i].0);
        }
    }
    assert(!obj_has_key(fields, "skins"@)) by {
        assert forall|i: int| 0 <= i < fields.len() implies (#[trigger] fields[i]).0 != "skins"@ by {
            assert(obj_keys(fields)[i] == fields[i].0);
        }
    }
    assert(!obj_has_key(fields, "animations"@)) by {
        assert forall|i: int| 0 <= i < fields.len() implies (#[trigger] fields[i]).0 != "animations"@ by {
            assert(obj_keys(fields)[i] == fields[i].0);
        }
    }
    assert(!obj_has_key(fields, "materials"@)) by {
        assert forall|i: int| 0 <= i < fields.len() implies (#[trigger] fields[i]).0 != "materials"@ by {
            assert(obj_keys(fields)[i] == fields[i].0);
        }
    }
    assert(!obj_has_key(fields, "textures"@)) by {
        assert forall|i: int| 0 <= i < fields.len() implies (#[trigger] fields[i]).0 != "textures"@ by {
            assert(obj_keys(fields)[i] == fields[i].0);
        }
    }
    assert(!obj_has_key(fields, "images"@)) by {
        assert forall|i: int| 0 <= i < fields.len() implies (#[trigger] fields[i]).0 != "images"@ by {
            assert(obj_keys(fields)[i] == fields[i].0);
        }
    }
    assert(!obj_has_key(fields, "samplers"@)) by {
        assert forall|i: int| 0 <= i < fields.len() implies (#[trigger] fields[i]).0 != "samplers"@ by {
            assert(obj_keys(fields)[i] == fields[i].0);
        }
    }
}

} // verus!
