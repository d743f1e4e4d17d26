use gltf_export::animation::{
    Animation, AnimationInterpolation, Animations, AnimationTarget, Channel, ChannelTarget,
    Sampler,
};
use gltf_export::buffer::{BufferViewTarget, BufferWriter};
use gltf_export::document::{BufferSource, GltfDocument};
use gltf_export::element::{F32Bits, Float3, Vec3Data, Vec4Data};
use gltf_export::export::write_gltf;
use gltf_export::json::JsonValue;
use gltf_export::material::{
    BaseColorTexture, Image, MagFilter, Material, MaterialData, MinFilter, PbrMetallicRoughness,
    Sampler as TexSampler, Texture, Wrap,
};
use gltf_export::mesh::Mesh;
use gltf_export::node::{MeshIndex, Node, Nodes};
use gltf_export::skin::{Skin, Skins};
use gltf_export::storage::StorageIndex;
use gltf_export::{Mesh as ModelMesh, Model, Vertex};

fn f(x: f32) -> F32Bits {
    F32Bits(x.to_bits())
}

fn fields(v: &JsonValue) -> &Vec<(String, JsonValue)> {
    match v {
        JsonValue::Obj(fields) => fields,
        _ => panic!("not an object"),
    }
}

fn items(v: &JsonValue) -> &Vec<JsonValue> {
    match v {
        JsonValue::Arr(items) => items,
        _ => panic!("not an array"),
    }
}

fn get<'a>(v: &'a JsonValue, key: &str) -> &'a JsonValue {
    for (name, value) in fields(v) {
        if name == key {
            return value;
        }
    }
    panic!("missing key");
}

fn has_key(v: &JsonValue, key: &str) -> bool {
    fields(v).iter().any(|(name, _)| name == key)
}

fn as_num(v: &JsonValue) -> u64 {
    match v {
        JsonValue::Num(n) => *n,
        _ => panic!("not a number"),
    }
}

fn as_text(v: &JsonValue) -> &str {
    match v {
        JsonValue::Text(s) => s,
        _ => panic!("not text"),
    }
}

#[test]
fn node_json_omits_absent_fields() {
    let node = Node::default();
    let json = gltf_export::node::node_to_json(&node);
    assert!(!has_key(&json, "mesh"));
    assert!(!has_key(&json, "skin"));
    assert!(!has_key(&json, "name"));
    assert!(!has_key(&json, "translation"));
    assert!(!has_key(&json, "rotation"));
    assert!(!has_key(&json, "children"));
    assert_eq!(fields(&json).len(), 0);
}

#[test]
fn node_json_renders_present_fields_in_order() {
    let mut nodes = Nodes::new(2);
    let child = nodes.add_node(Node::default());
    let node = Node {
        mesh: Some(MeshIndex(3)),
        skin: None,
        name: Some("torso".to_owned()),
        translation: Some(Vec3Data { x: f(1.0), y: f(2.0), z: f(3.0) }),
        rotation: Some(Vec4Data { x: f(0.0), y: f(0.0), z: f(0.0), w: f(1.0) }),
        children: vec![child],
    };
    let json = gltf_export::node::node_to_json(&node);
    let names: Vec<&str> = fields(&json).iter().map(|(n, _)| n.as_str()).collect();
    assert_eq!(names, vec!["mesh", "name", "translation", "rotation", "children"]);
    assert_eq!(as_num(get(&json, "mesh")), 3);
    assert_eq!(as_text(get(&json, "name")), "torso");
    let translation = items(get(&json, "translation"));
    assert_eq!(translation.len(), 3);
    match &translation[0] {
        JsonValue::Float(bits) => assert_eq!(f32::from_bits(*bits), 1.0),
        _ => panic!("translation component is not a float"),
    }
    let children = items(get(&json, "children"));
    assert_eq!(children.len(), 1);
    assert_eq!(as_num(&children[0]), 0);
}

#[test]
fn skin_json_lists_matrices_accessor_and_joints() {
    let mut skins = Skins::new();
    assert!(skins.is_empty());
    let skin = Skin {
        inverse_bind_matrices: StorageIndex::new(4),
        joints: vec![StorageIndex::new(1), StorageIndex::new(2)],
    };
    skins.add_skin(skin);
    assert!(!skins.is_empty());
    let json = skins.write_skins();
    let first = &items(&json)[0];
    assert_eq!(as_num(get(first, "inverseBindMatrices")), 4);
    let joints = items(get(first, "joints"));
    assert_eq!(joints.len(), 2);
    assert_eq!(as_num(&joints[0]), 1);
    assert_eq!(as_num(&joints[1]), 2);
}

#[test]
fn animation_json_lists_channels_name_and_samplers() {
    let mut animation = Animation::new("walk".to_owned());
    let sampler = animation.add_sampler(Sampler {
        input: StorageIndex::new(0),
        interpolation: AnimationInterpolation::Linear,
        output: StorageIndex::new(1),
    });
    animation.add_channel(Channel {
        sampler,
        target: ChannelTarget { node: StorageIndex::new(2), path: AnimationTarget::Rotation },
    });
    let json = animation.write();
    let names: Vec<&str> = fields(&json).iter().map(|(n, _)| n.as_str()).collect();
    assert_eq!(names, vec!["channels", "name", "samplers"]);
    assert_eq!(as_text(get(&json, "name")), "walk");
    let channel = &items(get(&json, "channels"))[0];
    assert_eq!(as_num(get(channel, "sampler")), 0);
    let target = get(channel, "target");
    assert_eq!(as_num(get(target, "node")), 2);
    assert_eq!(as_text(get(target, "path")), "rotation");
    let sampler_json = &items(get(&json, "samplers"))[0];
    assert_eq!(as_text(get(sampler_json, "interpolation")), "LINEAR");
    assert_eq!(as_num(get(sampler_json, "input")), 0);
    assert_eq!(as_num(get(sampler_json, "output")), 1);

    let mut animations = Animations::new(1);
    assert!(animations.is_empty());
    animations.add_animation(animation);
    assert!(!animations.is_empty());
    let list = animations.write_animations();
    assert_eq!(items(&list).len(), 1);
}

#[test]
fn material_json_carries_the_metallic_roughness_description() {
    let mut data = MaterialData::new();
    let sampler = data.add_sampler(TexSampler {
        mag_filter: MagFilter::Linear,
        min_filter: MinFilter::LinearMipMapLinear,
        wrap_s: Wrap::Repeat,
        wrap_t: Wrap::MirroredRepeat,
    });
    let image = data.add_images(Image { uri: "skin.png".to_owned() });
    let texture = data.add_texture(Texture { sampler, source: image });
    data.add_material(Material {
        pbr_metallic_roughness: PbrMetallicRoughness {
            base_color_texture: Some(BaseColorTexture::new(texture)),
            base_color_factor: None,
            metallic_factor: f(0.25),
            roughness_factor: f(0.75),
        },
    });

    let materials = data.write_materials();
    let material = &items(&materials)[0];
    let pbr = get(material, "pbrMetallicRoughness");
    let names: Vec<&str> = fields(pbr).iter().map(|(n, _)| n.as_str()).collect();
    assert_eq!(names, vec!["baseColorTexture", "metallicFactor", "roughnessFactor"]);
    assert_eq!(as_num(get(get(pbr, "baseColorTexture"), "index")), 0);
    match get(pbr, "metallicFactor") {
        JsonValue::Float(bits) => assert_eq!(f32::from_bits(*bits), 0.25),
        _ => panic!("metallicFactor is not a float"),
    }

    let textures = data.write_textures();
    let texture_json = &items(&textures)[0];
    assert_eq!(as_num(get(texture_json, "sampler")), 0);
    assert_eq!(as_num(get(texture_json, "source")), 0);

    let images = data.write_images();
    assert_eq!(as_text(get(&items(&images)[0], "uri")), "skin.png");

    let samplers = data.write_samplers();
    let sampler_json = &items(&samplers)[0];
    assert_eq!(as_num(get(sampler_json, "magFilter")), 9729);
    assert_eq!(as_num(get(sampler_json, "minFilter")), 9987);
    assert_eq!(as_num(get(sampler_json, "wrapS")), 10497);
    assert_eq!(as_num(get(sampler_json, "wrapT")), 33648);
}

#[test]
fn sampler_codes_match_the_schema() {
    assert_eq!(MagFilter::Nearest.code(), 9728);
    assert_eq!(MagFilter::Linear.code(), 9729);
    assert_eq!(MinFilter::Nearest.code(), 9728);
    assert_eq!(MinFilter::NearestMipMapNearest.code(), 9984);
    assert_eq!(MinFilter::LinearMipMapNearest.code(), 9985);
    assert_eq!(MinFilter::NearestMipMapLinear.code(), 9986);
    assert_eq!(Wrap::ClampToEdge.code(), 33071);
    assert_eq!(Wrap::Repeat.code(), 10497);
    assert_eq!(Wrap::MirroredRepeat.code(), 33648);
}

#[test]
fn defaults_follow_the_schema() {
    assert_eq!(MagFilter::default().code(), 9728);
    assert_eq!(MinFilter::default().code(), 9728);
    assert_eq!(Wrap::default().code(), 33071);
    let sampler = TexSampler::default();
    assert_eq!(sampler.mag_filter.code(), 9728);
    assert_eq!(sampler.wrap_s.code(), 33071);
    let pbr = PbrMetallicRoughness::default();
    assert!(pbr.base_color_texture.is_none());
    assert!(pbr.base_color_factor.is_none());
    assert_eq!(f32::from_bits(pbr.metallic_factor.0), 0.0);
    assert_eq!(f32::from_bits(pbr.roughness_factor.0), 0.0);
    let target: AnimationTarget = Default::default();
    assert_eq!(target.name(), "translation");
    let interpolation: AnimationInterpolation = Default::default();
    assert_eq!(interpolation.name(), "LINEAR");
    let handle: StorageIndex<u32> = Default::default();
    assert_eq!(handle.0, 0);
}

#[test]
fn empty_stores_leave_their_keys_out() {
    let writer = BufferWriter::new();
    let material_data = MaterialData::new();
    let mut nodes = Nodes::new(1);
    let root = nodes.add_node(Node::default());
    let skins = Skins::new();
    let animations = Animations::new(0);
    let doc = GltfDocument::new(
        BufferSource::Uri("payload.bin"),
        &writer,
        Vec::new(),
        &material_data,
        root,
        &nodes,
        &skins,
        &animations,
    );
    let names: Vec<&str> = fields(&doc.root).iter().map(|(n, _)| n.as_str()).collect();
    assert_eq!(
        names,
        vec!["scene", "scenes", "nodes", "buffers", "bufferViews", "accessors", "asset"]
    );
    assert!(!has_key(&doc.root, "meshes"));
    assert!(!has_key(&doc.root, "skins"));
    assert!(!has_key(&doc.root, "animations"));
    assert!(!has_key(&doc.root, "materials"));
    assert!(!has_key(&doc.root, "textures"));
    assert!(!has_key(&doc.root, "images"));
    assert!(!has_key(&doc.root, "samplers"));
}

#[test]
fn document_shape_references_the_root_node_and_the_buffer() {
    let mut writer = BufferWriter::new();
    let data: [u16; 3] = [1, 5, 3];
    writer.create_view_and_accessor_with_min_max(&data, None);
    let material_data = MaterialData::new();
    let mut nodes = Nodes::new(1);
    nodes.add_node(Node::default());
    let root = nodes.add_node(Node::default());
    let skins = Skins::new();
    let animations = Animations::new(0);
    let doc = GltfDocument::new(
        BufferSource::Uri("payload.bin"),
        &writer,
        Vec::new(),
        &material_data,
        root,
        &nodes,
        &skins,
        &animations,
    );
    assert_eq!(as_num(get(&doc.root, "scene")), 0);
    let scene = &items(get(&doc.root, "scenes"))[0];
    let scene_nodes = items(get(scene, "nodes"));
    assert_eq!(scene_nodes.len(), 1);
    assert_eq!(as_num(&scene_nodes[0]), 1);
    assert_eq!(items(get(&doc.root, "nodes")).len(), 2);
    let buffer = &items(get(&doc.root, "buffers"))[0];
    assert_eq!(as_text(get(buffer, "uri")), "payload.bin");
    assert_eq!(as_num(get(buffer, "byteLength")), 6);
    let views = items(get(&doc.root, "bufferViews"));
    assert_eq!(views.len(), 1);
    assert_eq!(as_num(get(&views[0], "buffer")), 0);
    assert_eq!(as_num(get(&views[0], "byteOffset")), 0);
    assert_eq!(as_num(get(&views[0], "byteLength")), 6);
    assert!(!has_key(&views[0], "byteStride"));
    assert!(!has_key(&views[0], "target"));
    let accessors = items(get(&doc.root, "accessors"));
    assert_eq!(accessors.len(), 1);
    assert_eq!(as_num(get(&accessors[0], "componentType")), 5123);
    assert_eq!(as_text(get(&accessors[0], "type")), "SCALAR");
    assert_eq!(as_num(get(&accessors[0], "count")), 3);
    let min = items(get(&accessors[0], "min"));
    assert_eq!(as_num(&min[0]), 1);
    let max = items(get(&accessors[0], "max"));
    assert_eq!(as_num(&max[0]), 5);
    let asset = get(&doc.root, "asset");
    assert_eq!(as_text(get(asset, "version")), "2.0");
}

#[test]
fn embedded_buffer_becomes_a_base64_data_uri() {
    let mut writer = BufferWriter::new();
    let data: [u8; 4] = [0, 1, 2, 3];
    writer.create_view(&data, None);
    let material_data = MaterialData::new();
    let mut nodes = Nodes::new(1);
    let root = nodes.add_node(Node::default());
    let skins = Skins::new();
    let animations = Animations::new(0);
    let doc = GltfDocument::new(
        BufferSource::Base64,
        &writer,
        Vec::new(),
        &material_data,
        root,
        &nodes,
        &skins,
        &animations,
    );
    let buffer = &items(get(&doc.root, "buffers"))[0];
    assert_eq!(
        as_text(get(buffer, "uri")),
        "data:application/octet-stream;base64,AAECAw=="
    );
    assert_eq!(as_num(get(buffer, "byteLength")), 4);
}

struct PositionVertex {
    position: [f32; 3],
}

impl Vertex for PositionVertex {
    fn write_slices(
        writer: &mut BufferWriter,
        vertices: &[Self],
    ) -> Vec<(&'static str, usize)> {
        let mut positions: Vec<Float3> = Vec::with_capacity(vertices.len());
        for vertex in vertices {
            positions.push(Float3 {
                x: f(vertex.position[0]),
                y: f(vertex.position[1]),
                z: f(vertex.position[2]),
            });
        }
        let pair = writer.create_view_and_accessor_with_min_max(
            &positions,
            Some(BufferViewTarget::ArrayBuffer),
        );
        vec![("POSITION", pair.accessor.0)]
    }
}

#[test]
fn mesh_new_packs_indices_and_vertices() {
    let mut writer = BufferWriter::new();
    let model = Model {
        indices: vec![0u32, 1, 2, 0, 2, 1],
        vertices: vec![
            PositionVertex { position: [0.0, 0.0, 0.0] },
            PositionVertex { position: [1.0, 0.0, 0.0] },
            PositionVertex { position: [0.0, 1.0, 0.0] },
        ],
        meshes: vec![
            ModelMesh { texture_index: 7, indices_range: 0..3 },
            ModelMesh { texture_index: 8, indices_range: 3..6 },
        ],
    };
    let mesh = Mesh::new(&model, &mut writer);
    // one view for the indices, one for the positions
    assert_eq!(writer.views().len(), 2);
    // indices: 24 bytes, positions: 36 bytes
    assert_eq!(writer.buffer_len(), 60);
    assert_eq!(mesh.primitives.len(), 2);
    assert_eq!(mesh.primitives[0].material.0, 7);
    assert_eq!(mesh.primitives[1].material.0, 8);
    assert_eq!(mesh.primitives[0].attributes, vec![("POSITION", 0)]);
    assert_eq!(mesh.primitives[1].attributes, vec![("POSITION", 0)]);
    // per-primitive index accessors follow the attribute accessor
    assert_eq!(mesh.primitives[0].indices.0, 1);
    assert_eq!(mesh.primitives[1].indices.0, 2);
    let first = writer.accessors().get(mesh.primitives[0].indices).unwrap();
    assert_eq!(first.byte_offset, 0);
    assert_eq!(first.count, 3);
    let second = writer.accessors().get(mesh.primitives[1].indices).unwrap();
    assert_eq!(second.byte_offset, 12);
    assert_eq!(second.count, 3);
    let json = gltf_export::mesh::mesh_to_json(&mesh);
    let primitives = items(get(&json, "primitives"));
    assert_eq!(primitives.len(), 2);
    let attributes = get(&primitives[0], "attributes");
    assert_eq!(as_num(get(attributes, "POSITION")), 0);
    assert_eq!(as_num(get(&primitives[0], "indices")), 1);
    assert_eq!(as_num(get(&primitives[0], "material")), 7);
}

#[test]
fn write_gltf_assembles_everything_in_one_call() {
    let mut writer = BufferWriter::new();
    let model = Model {
        indices: vec![0u32, 1, 2],
        vertices: vec![
            PositionVertex { position: [0.0, 0.0, 0.0] },
            PositionVertex { position: [1.0, 0.0, 0.0] },
            PositionVertex { position: [0.0, 1.0, 0.0] },
        ],
        meshes: vec![ModelMesh { texture_index: 0, indices_range: 0..3 }],
    };
    let material_data = MaterialData::new();
    let mut nodes = Nodes::new(1);
    let root = nodes.add_node(Node {
        mesh: Some(MeshIndex(0)),
        ..Node::default()
    });
    let skins = Skins::new();
    let animations = Animations::new(0);
    let doc = write_gltf(
        BufferSource::Uri("scene.bin"),
        &mut writer,
        &[model],
        &material_data,
        root,
        &nodes,
        &skins,
        &animations,
    )
    .unwrap();
    assert!(has_key(&doc.root, "meshes"));
    assert!(!has_key(&doc.root, "skins"));
    assert!(!has_key(&doc.root, "animations"));
    assert!(!has_key(&doc.root, "materials"));
    let meshes = items(get(&doc.root, "meshes"));
    assert_eq!(meshes.len(), 1);
    // indices (12 bytes) + positions (36 bytes)
    let buffer = &items(get(&doc.root, "buffers"))[0];
    assert_eq!(as_num(get(buffer, "byteLength")), 48);
    assert_eq!(items(get(&doc.root, "bufferViews")).len(), 2);
    assert_eq!(items(get(&doc.root, "accessors")).len(), 2);
    let index_accessor = &items(get(&doc.root, "accessors"))[1];
    let min = items(get(index_accessor, "min"));
    assert_eq!(as_num(&min[0]), 0);
    let max = items(get(index_accessor, "max"));
    assert_eq!(as_num(&max[0]), 2);
}
