//! Materials, textures, images and texture samplers.
use vstd::prelude::*;

use crate::element::{F32Bits, Vec4Data};
use crate::json::{lemma_model_fields, lemma_model_seq, model_fields, model_seq, JsonModel,
    JsonValue};
use crate::storage::{Storage, StorageIndex};

verus! {

pub type MaterialIndex = StorageIndex<Material>;

pub type TextureIndex = StorageIndex<Texture>;

pub type ImageIndex = StorageIndex<Image>;

pub type SamplerIndex = StorageIndex<Sampler>;

/// A reference from a material to its base color texture.
#[derive(Clone, Copy, Debug)]
pub struct BaseColorTexture {
    pub index: TextureIndex,
}

impl BaseColorTexture {
    /// Wraps a texture handle as a base color texture reference.
    pub fn new(index: TextureIndex) -> (r: Self)
        ensures
            r.index.0 == index.0,
    {
        BaseColorTexture { index }
    }
}

/// The metallic-roughness description of a material. The two optional fields
/// are omitted from the document when absent; the two factors are always
/// emitted.
#[derive(Clone, Copy, Debug)]
pub struct PbrMetallicRoughness {
    pub base_color_texture: Option<BaseColorTexture>,
    pub base_color_factor: Option<Vec4Data>,
    pub metallic_factor: F32Bits,
    pub roughness_factor: F32Bits,
}

impl Default for PbrMetallicRoughness {
    /// No texture, no color factor, both factors zero.
    fn default() -> (r: Self)
        ensures
            r.base_color_texture is None,
            r.base_color_factor is None,
            r.metallic_factor.0 == 0,
            r.roughness_factor.0 == 0,
    {
        PbrMetallicRoughness {
            base_color_texture: None,
            base_color_factor: None,
            metallic_factor: F32Bits(0),
            roughness_factor: F32Bits(0),
        }
    }
}

/// One material: its metallic-roughness description.
#[derive(Clone, Copy, Debug)]
pub struct Material {
    pub pbr_metallic_roughness: PbrMetallicRoughness,
}

impl Default for BaseColorTexture {
    fn default() -> (r: Self)
        ensures
            r.index.0 == 0,
    {
        BaseColorTexture { index: StorageIndex::new(0) }
    }
}

impl Default for Material {
    fn default() -> (r: Self)
        ensures
            r.pbr_metallic_roughness.base_color_texture is None,
            r.pbr_metallic_roughness.base_color_factor is None,
            r.pbr_metallic_roughness.metallic_factor.0 == 0,
            r.pbr_metallic_roughness.roughness_factor.0 == 0,
    {
        Material { pbr_metallic_roughness: Default::default() }
    }
}

/// One texture: its sampler and source image.
#[derive(Clone, Copy, Debug)]
pub struct Texture {
    pub sampler: SamplerIndex,
    pub source: ImageIndex,
}

impl Default for Texture {
    fn default() -> (r: Self)
        ensures
            r.sampler.0 == 0,
            r.source.0 == 0,
    {
        Texture { sampler: StorageIndex::new(0), source: StorageIndex::new(0) }
    }
}

/// One image, referenced by URI.
#[derive(Clone, Debug)]
pub struct Image {
    pub uri: String,
}

impl Default for Image {
    fn default() -> (r: Self)
        ensures
            r.uri@ == Seq::<char>::empty(),
    {
        let r = Image { uri: "".to_owned() };
        proof {
            reveal_strlit("");
        }
        r
    }
}

/// Magnification filter of a texture sampler, with the schema's integer code.
#[derive(Clone, Copy, Debug, PartialEq, Eq, Structural)]
pub enum MagFilter {
    Nearest,
    Linear,
}

impl MagFilter {
    /// The schema's integer code for this filter.
    pub open spec fn spec_code(self) -> u64 {
        match self {
            MagFilter::Nearest => 9728,
            MagFilter::Linear => 9729,
        }
    }

    /// Returns the schema's integer code for this filter.
    #[verifier::when_used_as_spec(spec_code)]
    pub fn code(self) -> (r: u64)
        ensures
            r == self.spec_code(),
    {
        match self {
            MagFilter::Nearest => 9728,
            MagFilter::Linear => 9729,
        }
    }
}

impl Default for MagFilter {
    fn default() -> (r: Self)
        ensures
            r == MagFilter::Nearest,
    {
        MagFilter::Nearest
    }
}

/// Minification filter of a texture sampler, with the schema's integer code.
#[derive(Clone, Copy, Debug, PartialEq, Eq, Structural)]
pub enum MinFilter {
    Nearest,
    Linear,
    NearestMipMapNearest,
    LinearMipMapNearest,
    NearestMipMapLinear,
    LinearMipMapLinear,
}

impl MinFilter {
    /// The schema's integer code for this filter.
    pub open spec fn spec_code(self) -> u64 {
        match self {
            MinFilter::Nearest => 9728,
            MinFilter::Linear => 9729,
            MinFilter::NearestMipMapNearest => 9984,
            MinFilter::LinearMipMapNearest => 9985,
            MinFilter::NearestMipMapLinear => 9986,
            MinFilter::LinearMipMapLinear => 9987,
        }
    }

    /// Returns the schema's integer code for this filter.
    #[verifier::when_used_as_spec(spec_code)]
    pub fn code(self) -> (r: u64)
        ensures
            r == self.spec_code(),
    {
        match self {
            MinFilter::Nearest => 9728,
            MinFilter::Linear => 9729,
            MinFilter::NearestMipMapNearest => 9984,
            MinFilter::LinearMipMapNearest => 9985,
            MinFilter::NearestMipMapLinear => 9986,
            MinFilter::LinearMipMapLinear => 9987,
        }
    }
}

impl Default for MinFilter {
    fn default() -> (r: Self)
        ensures
            r == MinFilter::Nearest,
    {
        MinFilter::Nearest
    }
}

/// Wrapping mode of a texture sampler, with the schema's integer code.
#[derive(Clone, Copy, Debug, PartialEq, Eq, Structural)]
pub enum Wrap {
    ClampToEdge,
    MirroredRepeat,
    Repeat,
}

impl Wrap {
    /// The schema's integer code for this wrapping mode.
    pub open spec fn spec_code(self) -> u64 {
        match self {
            Wrap::ClampToEdge => 33071,
            Wrap::MirroredRepeat => 33648,
            Wrap::Repeat => 10497,
        }
    }

    /// Returns the schema's integer code for this wrapping mode.
    #[verifier::when_used_as_spec(spec_code)]
    pub fn code(self) -> (r: u64)
        ensures
            r == self.spec_code(),
    {
        match self {
            Wrap::ClampToEdge => 33071,
            Wrap::MirroredRepeat => 33648,
            Wrap::Repeat => 10497,
        }
    }
}

impl Default for Wrap {
    fn default() -> (r: Self)
        ensures
            r == Wrap::ClampToEdge,
    {
        Wrap::ClampToEdge
    }
}

/// One texture sampler: filters and wrapping modes.
#[derive(Clone, Copy, Debug)]
pub struct Sampler {
    pub mag_filter: MagFilter,
    pub min_filter: MinFilter,
    pub wrap_s: Wrap,
    pub wrap_t: Wrap,
}

impl Default for Sampler {
    fn default() -> (r: Self)
        ensures
            r.mag_filter == MagFilter::Nearest,
            r.min_filter == MinFilter::Nearest,
            r.wrap_s == Wrap::ClampToEdge,
            r.wrap_t == Wrap::ClampToEdge,
    {
        Sampler {
            mag_filter: MagFilter::Nearest,
            min_filter: MinFilter::Nearest,
            wrap_s: Wrap::ClampToEdge,
            wrap_t: Wrap::ClampToEdge,
        }
    }
}

/// The fields a metallic-roughness description renders as: present fields
/// only, in declared order.
pub open spec fn spec_pbr_fields(p: PbrMetallicRoughness) -> Seq<(Seq<char>, JsonModel)> {
    (match p.base_color_texture {
        Some(t) => seq![
            (
                "baseColorTexture"@,
                JsonModel::Obj(seq![("index"@, JsonModel::Num(t.index.0 as u64))]),
            ),
        ],
        None => Seq::empty(),
    }) + (match p.base_color_factor {
        Some(f) => seq![("baseColorFactor"@, f.spec_json())],
        None => Seq::empty(),
    }) + seq![
        ("metallicFactor"@, JsonModel::Float(p.metallic_factor.0)),
        ("roughnessFactor"@, JsonModel::Float(p.roughness_factor.0)),
    ]
}

/// The object a material renders as.
pub open spec fn spec_material_json(m: Material) -> JsonModel {
    JsonModel::Obj(
        seq![("pbrMetallicRoughness"@, JsonModel::Obj(spec_pbr_fields(m.pbr_metallic_roughness)))],
    )
}

/// Renders one material as its document object.
pub fn material_to_json(material: &Material) -> (r: JsonValue)
    ensures
        r.model() == spec_material_json(*material),
{
    let pbr = &material.pbr_metallic_roughness;
    let mut pbr_fields: Vec<(String, JsonValue)> = Vec::new();
    if let Some(t) = &pbr.base_color_texture {
        let mut tex_fields: Vec<(String, JsonValue)> = Vec::new();
        tex_fields.push(("index".to_owned(), JsonValue::Num(t.index.0 as u64)));
        let tex = JsonValue::Obj(tex_fields);
        proof {
            lemma_model_fields(tex_fields@);
            assert(model_fields(tex_fields@) =~= seq![
                ("index"@, JsonModel::Num(t.index.0 as u64)),
            ]);
        }
        pbr_fields.push(("baseColorTexture".to_owned(), tex));
    }
    if let Some(f) = &pbr.base_color_factor {
        pbr_fields.push(("baseColorFactor".to_owned(), f.to_json()));
    }
    pbr_fields.push(("metallicFactor".to_owned(), JsonValue::Float(pbr.metallic_factor.0)));
    pbr_fields.push(("roughnessFactor".to_owned(), JsonValue::Float(pbr.roughness_factor.0)));
    let pbr_json = JsonValue::Obj(pbr_fields);
    proof {
        lemma_model_fields(pbr_fields@);
        assert(model_fields(pbr_fields@) =~= spec_pbr_fields(material.pbr_metallic_roughness));
    }
    let mut fields: Vec<(String, JsonValue)> = Vec::new();
    fields.push(("pbrMetallicRoughness".to_owned(), pbr_json));
    let r = JsonValue::Obj(fields);
    proof {
        lemma_model_fields(fields@);
        assert(model_fields(fields@) =~= spec_material_json(*material)->Obj_0);
        assert(r.model() == spec_material_json(*material));
    }
    r
}

/// The object a texture renders as.
pub open spec fn spec_texture_json(t: Texture) -> JsonModel {
    JsonModel::Obj(
        seq![
            ("sampler"@, JsonModel::Num(t.sampler.0 as u64)),
            ("source"@, JsonModel::Num(t.source.0 as u64)),
        ],
    )
}

/// Renders one texture as its document object.
pub fn texture_to_json(texture: &Texture) -> (r: JsonValue)
    ensures
        r.model() == spec_texture_json(*texture),
{
    let mut fields: Vec<(String, JsonValue)> = Vec::new();
    fields.push(("sampler".to_owned(), JsonValue::Num(texture.sampler.0 as u64)));
    fields.push(("source".to_owned(), JsonValue::Num(texture.source.0 as u64)));
    let r = JsonValue::Obj(fields);
    proof {
        lemma_model_fields(fields@);
        assert(model_fields(fields@) =~= spec_texture_json(*texture)->Obj_0);
        assert(r.model() == spec_texture_json(*texture));
    }
    r
}

/// The object an image renders as.
pub open spec fn spec_image_json(img: Image) -> JsonModel {
    JsonModel::Obj(seq![("uri"@, JsonModel::Text(img.uri@))])
}

/// Renders one image as its document object.
pub fn image_to_json(image: &Image) -> (r: JsonValue)
    ensures
        r.model() == spec_image_json(*image),
{
    let mut fields: Vec<(String, JsonValue)> = Vec::new();
    fields.push(("uri".to_owned(), JsonValue::Text(image.uri.clone())));
    let r = JsonValue::Obj(fields);
    proof {
        lemma_model_fields(fields@);
        assert(model_fields(fields@) =~= spec_image_json(*image)->Obj_0);
        assert(r.model() == spec_image_json(*image));
    }
    r
}

/// The object a texture sampler renders as.
pub open spec fn spec_tex_sampler_json(s: Sampler) -> JsonModel {
    JsonModel::Obj(
        seq![
            ("magFilter"@, JsonModel::Num(s.mag_filter.spec_code())),
            ("minFilter"@, JsonModel::Num(s.min_filter.spec_code())),
            ("wrapS"@, JsonModel::Num(s.wrap_s.spec_code())),
            ("wrapT"@, JsonModel::Num(s.wrap_t.spec_code())),
        ],
    )
}

/// Renders one texture sampler as its document object.
pub fn tex_sampler_to_json(sampler: &Sampler) -> (r: JsonValue)
    ensures
        r.model() == spec_tex_sampler_json(*sampler),
{
    let mut fields: Vec<(String, JsonValue)> = Vec::new();
    fields.push(("magFilter".to_owned(), JsonValue::Num(sampler.mag_filter.code())));
    fields.push(("minFilter".to_owned(), JsonValue::Num(sampler.min_filter.code())));
    fields.push(("wrapS".to_owned(), JsonValue::Num(sampler.wrap_s.code())));
    fields.push(("wrapT".to_owned(), JsonValue::Num(sampler.wrap_t.code())));
    let r = JsonValue::Obj(fields);
    proof {
        lemma_model_fields(fields@);
        assert(model_fields(fields@) =~= spec_tex_sampler_json(*sampler)->Obj_0);
        assert(r.model() == spec_tex_sampler_json(*sampler));
    }
    r
}

/// Mathematical state of the material stores.
#[verifier::ext_equal]
pub struct MaterialDataModel {
    pub materials: Seq<Material>,
    pub textures: Seq<Texture>,
    pub images: Seq<Image>,
    pub samplers: Seq<Sampler>,
}

/// The four arenas of material-related entities.
pub struct MaterialData {
    materials: Storage<Material>,
    textures: Storage<Texture>,
    images: Storage<Image>,
    samplers: Storage<Sampler>,
}

impl View for MaterialData {
    type V = MaterialDataModel;

    closed spec fn view(&self) -> MaterialDataModel {
        MaterialDataModel {
            materials: self.materials@,
            textures: self.textures@,
            images: self.images@,
            samplers: self.samplers@,
        }
    }
}

/// The array the material store renders as.
pub open spec fn spec_materials_json(materials: Seq<Material>) -> JsonModel {
    JsonModel::Arr(materials.map_values(|m: Material| spec_material_json(m)))
}

/// The array the texture store renders as.
pub open spec fn spec_textures_json(textures: Seq<Texture>) -> JsonModel {
    JsonModel::Arr(textures.map_values(|t: Texture| spec_texture_json(t)))
}

/// The array the image store renders as.
pub open spec fn spec_images_json(images: Seq<Image>) -> JsonModel {
    JsonModel::Arr(images.map_values(|i: Image| spec_image_json(i)))
}

/// The array the texture sampler store renders as.
pub open spec fn spec_tex_samplers_json(samplers: Seq<Sampler>) -> JsonModel {
    JsonModel::Arr(samplers.map_values(|s: Sampler| spec_tex_sampler_json(s)))
}

impl MaterialData {
    /// Four empty stores.
    pub fn new() -> (r: Self)
        ensures
            r@.materials == Seq::<Material>::empty(),
            r@.textures == Seq::<Texture>::empty(),
            r@.images == Seq::<Image>::empty(),
            r@.samplers == Seq::<Sampler>::empty(),
    {
        MaterialData {
            materials: Storage::new(),
            textures: Storage::new(),
            images: Storage::new(),
            samplers: Storage::new(),
        }
    }

    /// Appends a material and returns its stable handle.
    pub fn add_material(&mut self, material: Material) -> (r: MaterialIndex)
        ensures
            final(self)@ == (MaterialDataModel {
                materials: old(self)@.materials.push(material),
                ..old(self)@
            }),
            r.0 == old(self)@.materials.len(),
    {
        self.materials.allocate_with(material)
    }

    /// Appends a texture and returns its stable handle.
    pub fn add_texture(&mut self, texture: Texture) -> (r: TextureIndex)
        ensures
            final(self)@ == (MaterialDataModel {
                textures: old(self)@.textures.push(texture),
                ..old(self)@
            }),
            r.0 == old(self)@.textures.len(),
    {
        self.textures.allocate_with(texture)
    }

    /// Appends an image and returns its stable handle.
    pub fn add_images(&mut self, image: Image) -> (r: ImageIndex)
        ensures
            final(self)@ == (MaterialDataModel {
                images: old(self)@.images.push(image),
                ..old(self)@
            }),
            r.0 == old(self)@.images.len(),
    {
        self.images.allocate_with(image)
    }

    /// Appends a texture sampler and returns its stable handle.
    pub fn add_sampler(&mut self, sampler: Sampler) -> (r: SamplerIndex)
        ensures
            final(self)@ == (MaterialDataModel {
                samplers: old(self)@.samplers.push(sampler),
                ..old(self)@
            }),
            r.0 == old(self)@.samplers.len(),
    {
        self.samplers.allocate_with(sampler)
    }

    /// Whether no material has been added.
    pub fn materials_is_empty(&self) -> (r: bool)
        ensures
            r == (self@.materials.len() == 0),
    {
        self.materials.is_empty()
    }

    /// Whether no texture has been added.
    pub fn textures_is_empty(&self) -> (r: bool)
        ensures
            r == (self@.textures.len() == 0),
    {
        self.textures.is_empty()
    }

    /// Whether no image has been added.
    pub fn images_is_empty(&self) -> (r: bool)
        ensures
            r == (self@.images.len() == 0),
    {
        self.images.is_empty()
    }

    /// Whether no texture sampler has been added.
    pub fn samplers_is_empty(&self) -> (r: bool)
        ensures
            r == (self@.samplers.len() == 0),
    {
        self.samplers.is_empty()
    }

    /// Renders the material store as its document array.
    pub fn write_materials(&self) -> (r: JsonValue)
        ensures
            r.model() == spec_materials_json(self@.materials),
    {
        let mut items: Vec<JsonValue> = Vec::new();
        let n = self.materials.len();
        let mut k: usize = 0;
        while k < n
            invariant
                n == self@.materials.len(),
                k <= n,
                items@.len() == k,
                forall|i: int|
                    0 <= i < k ==> (#[trigger] items@[i]).model() == spec_material_json(
                        self@.materials[i],
                    ),
            decreases n - k,
        {
            items.push(material_to_json(self.materials.at(k)));
            k = k + 1;
        }
        let r = JsonValue::Arr(items);
        proof {
            lemma_model_seq(items@);
            assert(model_seq(items@) =~= self@.materials.map_values(
                |m: Material| spec_material_json(m),
            ));
            assert(r.model() == spec_materials_json(self@.materials));
        }
        r
    }

    /// Renders the texture store as its document array.
    pub fn write_textures(&self) -> (r: JsonValue)
        ensures
            r.model() == spec_textures_json(self@.textures),
    {
        let mut items: Vec<JsonValue> = Vec::new();
        let n = self.textures.len();
        let mut k: usize = 0;
        while k < n
            invariant
                n == self@.textures.len(),
                k <= n,
                items@.len() == k,
                forall|i: int|
                    0 <= i < k ==> (#[trigger] items@[i]).model() == spec_texture_json(
                        self@.textures[i],
                    ),
            decreases n - k,
        {
            items.push(texture_to_json(self.textures.at(k)));
            k = k + 1;
        }
        let r = JsonValue::Arr(items);
        proof {
            lemma_model_seq(items@);
            assert(model_seq(items@) =~= self@.textures.map_values(
                |t: Texture| spec_texture_json(t),
            ));
            assert(r.model() == spec_textures_json(self@.textures));
        }
        r
    }

    /// Renders the image store as its document array.
    pub fn write_images(&self) -> (r: JsonValue)
        ensures
            r.model() == spec_images_json(self@.images),
    {
        let mut items: Vec<JsonValue> = Vec::new();
        let n = self.images.len();
        let mut k: usize = 0;
        while k < n
            invariant
                n == self@.images.len(),
                k <= n,
                items@.len() == k,
                forall|i: int|
                    0 <= i < k ==> (#[trigger] items@[i]).model() == spec_image_json(
                        self@.images[i],
                    ),
            decreases n - k,
        {
            items.push(image_to_json(self.images.at(k)));
            k = k + 1;
        }
        let r = JsonValue::Arr(items);
        proof {
            lemma_model_seq(items@);
            assert(model_seq(items@) =~= self@.images.map_values(|i: Image| spec_image_json(i)));
            assert(r.model() == spec_images_json(self@.images));
        }
        r
    }

    /// Renders the texture sampler store as its document array.
    pub fn write_samplers(&self) -> (r: JsonValue)
        ensures
            r.model() == spec_tex_samplers_json(self@.samplers),
    {
        let mut items: Vec<JsonValue> = Vec::new();
        let n = self.samplers.len();
        let mut k: usize = 0;
        while k < n
            invariant
                n == self@.samplers.len(),
                k <= n,
                items@.len() == k,
                forall|i: int|
                    0 <= i < k ==> (#[trigger] items@[i]).model() == spec_tex_sampler_json(
                        self@.samplers[i],
                    ),
            decreases n - k,
        {
            items.push(tex_sampler_to_json(self.samplers.at(k)));
            k = k + 1;
        }
        let r = JsonValue::Arr(items);
        proof {
            lemma_model_seq(items@);
            assert(model_seq(items@) =~= self@.samplers.map_values(
                |s: Sampler| spec_tex_sampler_json(s),
            ));
            assert(r.model() == spec_tex_samplers_json(self@.samplers));
        }
        r
    }
}

impl Default for MaterialData {
    fn default() -> (r: Self)
        ensures
            r@.materials == Seq::<Material>::empty(),
            r@.textures == Seq::<Texture>::empty(),
            r@.images == Seq::<Image>::empty(),
            r@.samplers == Seq::<Sampler>::empty(),
    {
        MaterialData::new()
    }
}

} // verus!
