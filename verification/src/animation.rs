//! Animations: channels targeting node paths, and keyframe samplers.
use vstd::prelude::*;

use crate::buffer::AccessorIndex;
use crate::json::{lemma_model_fields, lemma_model_seq, model_fields, model_seq, JsonModel,
    JsonValue};
use crate::node::NodeIndex;
use crate::storage::{Storage, StorageIndex};

verus! {

pub type ChannelIndex = StorageIndex<Channel>;

pub type SamplerIndex = StorageIndex<Sampler>;

pub type AnimationIndex = StorageIndex<Animation>;

/// How sampler keyframes are interpolated, with the schema's string code.
#[derive(Clone, Copy, Debug, PartialEq, Eq, Structural)]
pub enum AnimationInterpolation {
    Linear,
}

impl AnimationInterpolation {
    /// The schema's string code for this interpolation.
    pub open spec fn spec_name(self) -> Seq<char> {
        "LINEAR"@
    }

    /// Returns the schema's string code for this interpolation.
    pub fn name(self) -> (r: &'static str)
        ensures
            r@ == self.spec_name(),
    {
        "LINEAR"
    }
}

impl Default for AnimationInterpolation {
    fn default() -> (r: Self)
        ensures
            r == AnimationInterpolation::Linear,
    {
        AnimationInterpolation::Linear
    }
}

/// Which node property a channel animates, with the schema's string code.
#[derive(Clone, Copy, Debug, PartialEq, Eq, Structural)]
pub enum AnimationTarget {
    Translation,
    Rotation,
}

impl AnimationTarget {
    /// The schema's string code for this target path.
    pub open spec fn spec_name(self) -> Seq<char> {
        match self {
            AnimationTarget::Translation => "translation"@,
            AnimationTarget::Rotation => "rotation"@,
        }
    }

    /// Returns the schema's string code for this target path.
    pub fn name(self) -> (r: &'static str)
        ensures
            r@ == self.spec_name(),
    {
        match self {
            AnimationTarget::Translation => "translation",
            AnimationTarget::Rotation => "rotation",
        }
    }
}

impl Default for AnimationTarget {
    fn default() -> (r: Self)
        ensures
            r == AnimationTarget::Translation,
    {
        AnimationTarget::Translation
    }
}

/// The node and property an animation channel drives.
#[derive(Clone, Copy, Debug)]
pub struct ChannelTarget {
    pub node: NodeIndex,
    pub path: AnimationTarget,
}

/// One animation channel: a sampler and its target.
#[derive(Clone, Copy, Debug)]
pub struct Channel {
    pub sampler: SamplerIndex,
    pub target: ChannelTarget,
}

/// One keyframe sampler: input and output accessors and the interpolation.
#[derive(Clone, Copy, Debug)]
pub struct Sampler {
    pub input: AccessorIndex,
    pub interpolation: AnimationInterpolation,
    pub output: AccessorIndex,
}

impl Default for ChannelTarget {
    fn default() -> (r: Self)
        ensures
            r.node.0 == 0,
            r.path == AnimationTarget::Translation,
    {
        ChannelTarget { node: StorageIndex::new(0), path: AnimationTarget::Translation }
    }
}

impl Default for Channel {
    fn default() -> (r: Self)
        ensures
            r.sampler.0 == 0,
            r.target.node.0 == 0,
            r.target.path == AnimationTarget::Translation,
    {
        Channel { sampler: StorageIndex::new(0), target: Default::default() }
    }
}

impl Default for Sampler {
    fn default() -> (r: Self)
        ensures
            r.input.0 == 0,
            r.interpolation == AnimationInterpolation::Linear,
            r.output.0 == 0,
    {
        Sampler {
            input: StorageIndex::new(0),
            interpolation: AnimationInterpolation::Linear,
            output: StorageIndex::new(0),
        }
    }
}

/// The object a channel renders as.
pub open spec fn spec_channel_json(c: Channel) -> JsonModel {
    JsonModel::Obj(
        seq![
            ("sampler"@, JsonModel::Num(c.sampler.0 as u64)),
            (
                "target"@,
                JsonModel::Obj(
                    seq![
                        ("node"@, JsonModel::Num(c.target.node.0 as u64)),
                        ("path"@, JsonModel::Text(c.target.path.spec_name())),
                    ],
                ),
            ),
        ],
    )
}

/// Renders one channel as its document object.
pub fn channel_to_json(channel: &Channel) -> (r: JsonValue)
    ensures
        r.model() == spec_channel_json(*channel),
{
    let mut target_fields: Vec<(String, JsonValue)> = Vec::new();
    target_fields.push(("node".to_owned(), JsonValue::Num(channel.target.node.0 as u64)));
    target_fields.push(("path".to_owned(), JsonValue::Text(channel.target.path.name().to_owned())));
    let target = JsonValue::Obj(target_fields);
    proof {
        lemma_model_fields(target_fields@);
        assert(model_fields(target_fields@) =~= seq![
            ("node"@, JsonModel::Num(channel.target.node.0 as u64)),
            ("path"@, JsonModel::Text(channel.target.path.spec_name())),
        ]);
    }
    let mut fields: Vec<(String, JsonValue)> = Vec::new();
    fields.push(("sampler".to_owned(), JsonValue::Num(channel.sampler.0 as u64)));
    fields.push(("target".to_owned(), target));
    let r = JsonValue::Obj(fields);
    proof {
        lemma_model_fields(fields@);
        assert(model_fields(fields@) =~= spec_channel_json(*channel)->Obj_0);
        assert(r.model() == spec_channel_json(*channel));
    }
    r
}

/// The object a sampler renders as.
pub open spec fn spec_sampler_json(s: Sampler) -> JsonModel {
    JsonModel::Obj(
        seq![
            ("input"@, JsonModel::Num(s.input.0 as u64)),
            ("interpolation"@, JsonModel::Text(s.interpolation.spec_name())),
            ("output"@, JsonModel::Num(s.output.0 as u64)),
        ],
    )
}

/// Renders one sampler as its document object.
pub fn sampler_to_json(sampler: &Sampler) -> (r: JsonValue)
    ensures
        r.model() == spec_sampler_json(*sampler),
{
    let mut fields: Vec<(String, JsonValue)> = Vec::new();
    fields.push(("input".to_owned(), JsonValue::Num(sampler.input.0 as u64)));
    fields.push(
        ("interpolation".to_owned(), JsonValue::Text(sampler.interpolation.name().to_owned())),
    );
    fields.push(("output".to_owned(), JsonValue::Num(sampler.output.0 as u64)));
    let r = JsonValue::Obj(fields);
    proof {
        lemma_model_fields(fields@);
        assert(model_fields(fields@) =~= spec_sampler_json(*sampler)->Obj_0);
        assert(r.model() == spec_sampler_json(*sampler));
    }
    r
}

/// Mathematical state of one animation: its channels, name and samplers.
#[verifier::ext_equal]
pub struct AnimationModel {
    pub channels: Seq<Channel>,
    pub name: Seq<char>,
    pub samplers: Seq<Sampler>,
}

/// One named animation, carrying its own channel and sampler arenas.
pub struct Animation {
    channels: Storage<Channel>,
    name: String,
    samplers: Storage<Sampler>,
}

impl View for Animation {
    type V = AnimationModel;

    closed spec fn view(&self) -> AnimationModel {
        AnimationModel { channels: self.channels@, name: self.name@, samplers: self.samplers@ }
    }
}

/// The object an animation renders as.
pub open spec fn spec_animation_json(a: AnimationModel) -> JsonModel {
    JsonModel::Obj(
        seq![
            (
                "channels"@,
                JsonModel::Arr(a.channels.map_values(|c: Channel| spec_channel_json(c))),
            ),
            ("name"@, JsonModel::Text(a.name)),
            (
                "samplers"@,
                JsonModel::Arr(a.samplers.map_values(|s: Sampler| spec_sampler_json(s))),
            ),
        ],
    )
}

impl Animation {
    /// A named animation with no channels and no samplers yet.
    pub fn new(name: String) -> (r: Self)
        ensures
            r@.channels == Seq::<Channel>::empty(),
            r@.name == name@,
            r@.samplers == Seq::<Sampler>::empty(),
    {
        Animation { channels: Storage::new(), name, samplers: Storage::new() }
    }

    /// Appends a sampler and returns its stable handle.
    pub fn add_sampler(&mut self, sampler: Sampler) -> (r: SamplerIndex)
        ensures
            final(self)@.samplers == old(self)@.samplers.push(sampler),
            final(self)@.channels == old(self)@.channels,
            final(self)@.name == old(self)@.name,
            r.0 == old(self)@.samplers.len(),
    {
        self.samplers.allocate_with(sampler)
    }

    /// Appends a channel and returns its stable handle.
    pub fn add_channel(&mut self, channel: Channel) -> (r: ChannelIndex)
        ensures
            final(self)@.channels == old(self)@.channels.push(channel),
            final(self)@.samplers == old(self)@.samplers,
            final(self)@.name == old(self)@.name,
            r.0 == old(self)@.channels.len(),
    {
        self.channels.allocate_with(channel)
    }

    /// Renders this animation as its document object.
    pub fn write(&self) -> (r: JsonValue)
        ensures
            r.model() == spec_animation_json(self@),
    {
        let mut channels: Vec<JsonValue> = Vec::new();
        let n = self.channels.len();
        let mut k: usize = 0;
        while k < n
            invariant
                n == self@.channels.len(),
                k <= n,
                channels@.len() == k,
                forall|i: int|
                    0 <= i < k ==> (#[trigger] channels@[i]).model() == spec_channel_json(
                        self@.channels[i],
                    ),
            decreases n - k,
        {
            channels.push(channel_to_json(self.channels.at(k)));
            k = k + 1;
        }
        let channels_json = JsonValue::Arr(channels);
        proof {
            lemma_model_seq(channels@);
            assert(model_seq(channels@) =~= self@.channels.map_values(
                |c: Channel| spec_channel_json(c),
            ));
        }
        let mut samplers: Vec<JsonValue> = Vec::new();
        let m = self.samplers.len();
        let mut k2: usize = 0;
        while k2 < m
            invariant
                m == self@.samplers.len(),
                k2 <= m,
                samplers@.len() == k2,
                forall|i: int|
                    0 <= i < k2 ==> (#[trigger] samplers@[i]).model() == spec_sampler_json(
                        self@.samplers[i],
                    ),
            decreases m - k2,
        {
            samplers.push(sampler_to_json(self.samplers.at(k2)));
            k2 = k2 + 1;
        }
        let samplers_json = JsonValue::Arr(samplers);
        proof {
            lemma_model_seq(samplers@);
            assert(model_seq(samplers@) =~= self@.samplers.map_values(
                |s: Sampler| spec_sampler_json(s),
            ));
        }
        let mut fields: Vec<(String, JsonValue)> = Vec::new();
        fields.push(("channels".to_owned(), channels_json));
        fields.push(("name".to_owned(), JsonValue::Text(self.name.clone())));
        fields.push(("samplers".to_owned(), samplers_json));
        let r = JsonValue::Obj(fields);
        proof {
            lemma_model_fields(fields@);
            assert(model_fields(fields@) =~= spec_animation_json(self@)->Obj_0);
            assert(r.model() == spec_animation_json(self@));
        }
        r
    }
}

impl Default for Animation {
    /// An unnamed animation with no channels and no samplers.
    fn default() -> (r: Self)
        ensures
            r@.channels == Seq::<Channel>::empty(),
            r@.name == Seq::<char>::empty(),
            r@.samplers == Seq::<Sampler>::empty(),
    {
        let r = Animation {
            channels: Storage::new(),
            name: "".to_owned(),
            samplers: Storage::new(),
        };
        proof {
            reveal_strlit("");
        }
        r
    }
}

/// The arena of animations; its view is the animation-model sequence.
pub struct Animations {
    animations: Storage<Animation>,
}

impl View for Animations {
    type V = Seq<AnimationModel>;

    closed spec fn view(&self) -> Seq<AnimationModel> {
        self.animations@.map_values(|a: Animation| a@)
    }
}

/// The array the animation store renders as.
pub open spec fn spec_animations_json(animations: Seq<AnimationModel>) -> JsonModel {
    JsonModel::Arr(animations.map_values(|a: AnimationModel| spec_animation_json(a)))
}

impl Animations {
    /// An empty animation store with room reserved for `capacity` entries.
    pub fn new(capacity: usize) -> (r: Self)
        ensures
            r@ == Seq::<AnimationModel>::empty(),
    {
        let r = Animations { animations: Storage::with_capacity(capacity) };
        proof {
            assert(r@ =~= Seq::<AnimationModel>::empty());
        }
        r
    }

    /// Appends an animation and returns its stable handle.
    pub fn add_animation(&mut self, animation: Animation) -> (r: AnimationIndex)
        ensures
            final(self)@ == old(self)@.push(animation@),
            r.0 == old(self)@.len(),
    {
        let ghost model = animation@;
        let r = self.animations.allocate_with(animation);
        proof {
            assert(final(self)@ =~= old(self)@.push(model));
        }
        r
    }

    /// Whether no animation has been added.
    pub fn is_empty(&self) -> (r: bool)
        ensures
            r == (self@.len() == 0),
    {
        self.animations.is_empty()
    }

    /// Renders the animation store as its document array.
    pub fn write_animations(&self) -> (r: JsonValue)
        ensures
            r.model() == spec_animations_json(self@),
    {
        let mut items: Vec<JsonValue> = Vec::new();
        let n = self.animations.len();
        let mut k: usize = 0;
        while k < n
            invariant
                n == self@.len(),
                k <= n,
                self@.len() == self.animations@.len(),
                items@.len() == k,
                forall|i: int|
                    0 <= i < k ==> (#[trigger] items@[i]).model() == spec_animation_json(self@[i]),
            decreases n - k,
        {
            proof {
                assert(self@[k as int] == self.animations@[k as int]@);
            }
            items.push(self.animations.at(k).write());
            k = k + 1;
        }
        let r = JsonValue::Arr(items);
        proof {
            lemma_model_seq(items@);
            assert(model_seq(items@) =~= self@.map_values(
                |a: AnimationModel| spec_animation_json(a),
            ));
            assert(r.model() == spec_animations_json(self@));
        }
        r
    }
}

impl Default for Animations {
    fn default() -> (r: Self)
        ensures
            r@ == Seq::<AnimationModel>::empty(),
    {
        Animations::new(0)
    }
}

} // verus!
