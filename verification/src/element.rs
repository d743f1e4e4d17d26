//! The supported element types and their codecs.
//!
//! Each buffer-packable type declares its exact little-endian encoding, its
//! schema tags and, where bounds make sense, its elementwise min/max
//! combinator. 32-bit float values are carried as their IEEE-754 bit
//! patterns (the type [`F32Bits`]); the numeric ordering of two such values
//! is computed on the bit patterns themselves, by the standard monotone
//! mapping from IEEE-754 encodings to integers.
use vstd::bytes::*;
use vstd::prelude::*;

use crate::buffer::{fold_max, fold_min, AccessorComponentType, AccessorDataType, BufferType,
    BufferTypeMinMax};
use crate::json::{lemma_model_seq, model_seq, JsonModel, JsonValue};

verus! {

/// A 32-bit IEEE-754 float value, carried as its bit pattern. Equality of
/// two values of this type is equality of the bit patterns, not of the float
/// values they denote.
#[derive(Clone, Copy, Debug, PartialEq, Eq, Structural)]
pub struct F32Bits(pub u32);

/// The bit pattern of `f32::MAX`, the largest finite 32-bit float value.
pub const F32_MAX_BITS: u32 = 0x7f7f_ffff;

/// The bit pattern of `f32::MIN`, the smallest finite 32-bit float value.
pub const F32_MIN_BITS: u32 = 0xff7f_ffff;

/// The numeric ordering key of a non-NaN bit pattern: for two finite or
/// infinite 32-bit float values, the first is numerically less than or equal
/// to the second exactly when its key is. Both zero patterns map to key 0.
pub open spec fn spec_order_key(bits: u32) -> int {
    if bits >= 0x8000_0000 {
        -((bits - 0x8000_0000) as int)
    } else {
        bits as int
    }
}

/// Whether a bit pattern denotes a NaN value: its magnitude bits lie above
/// the infinity encoding.
pub open spec fn spec_is_nan(bits: u32) -> bool {
    spec_order_key(bits) > 0x7f80_0000 || spec_order_key(bits) < -0x7f80_0000
}

/// Whether a bit pattern denotes a finite value: its magnitude bits lie at or
/// below the largest finite encoding.
pub open spec fn spec_is_finite(bits: u32) -> bool {
    -0x7f7f_ffff <= spec_order_key(bits) <= 0x7f7f_ffff
}

/// Whether a bit pattern denotes a NaN value.
#[verifier::when_used_as_spec(spec_is_nan)]
pub fn is_nan_bits(bits: u32) -> (r: bool)
    ensures
        r == spec_is_nan(bits),
{
    if bits >= 0x8000_0000 {
        bits - 0x8000_0000 > 0x7f80_0000
    } else {
        bits > 0x7f80_0000
    }
}

/// The numeric ordering key of a bit pattern, as a signed 64-bit value.
fn order_key(bits: u32) -> (r: i64)
    ensures
        r == spec_order_key(bits),
{
    if bits >= 0x8000_0000 {
        -((bits - 0x8000_0000) as i64)
    } else {
        bits as i64
    }
}

impl BufferType for u16 {
    open spec fn spec_bytes(self) -> Seq<u8> {
        spec_u16_to_le_bytes(self)
    }

    open spec fn spec_size() -> nat {
        2
    }

    open spec fn spec_decode(bytes: Seq<u8>) -> Self {
        spec_u16_from_le_bytes(bytes)
    }

    open spec fn spec_component_ty() -> AccessorComponentType {
        AccessorComponentType::UnsignedShort
    }

    open spec fn spec_data_ty() -> AccessorDataType {
        AccessorDataType::Scalar
    }

    open spec fn spec_stride() -> Option<usize> {
        None
    }

    proof fn lemma_bytes_len(self) {
        lemma_auto_spec_u16_to_from_le_bytes();
    }

    proof fn lemma_round_trip(self) {
        lemma_auto_spec_u16_to_from_le_bytes();
        assert(spec_u16_to_le_bytes(self).len() == 2);
    }

    fn to_bytes(&self) -> (r: Vec<u8>) {
        u16_to_le_bytes(*self)
    }

    fn stride() -> (r: Option<usize>) {
        None
    }

    fn component_ty() -> (r: AccessorComponentType) {
        AccessorComponentType::UnsignedShort
    }

    fn data_ty() -> (r: AccessorDataType) {
        AccessorDataType::Scalar
    }
}

impl BufferTypeMinMax for u16 {
    open spec fn spec_max_identity() -> Self {
        u16::MIN
    }

    open spec fn spec_min_identity() -> Self {
        u16::MAX
    }

    open spec fn spec_data_max(self, other: Self) -> Self {
        if self >= other {
            self
        } else {
            other
        }
    }

    open spec fn spec_data_min(self, other: Self) -> Self {
        if self <= other {
            self
        } else {
            other
        }
    }

    open spec fn spec_bound_json(self) -> JsonModel {
        JsonModel::Arr(seq![JsonModel::Num(self as u64)])
    }

    fn max_identity() -> (r: Self) {
        u16::MIN
    }

    fn min_identity() -> (r: Self) {
        u16::MAX
    }

    fn data_max(&self, other: &Self) -> (r: Self) {
        if *self >= *other {
            *self
        } else {
            *other
        }
    }

    fn data_min(&self, other: &Self) -> (r: Self) {
        if *self <= *other {
            *self
        } else {
            *other
        }
    }

    fn bound_json(&self) -> (r: JsonValue) {
        let mut items: Vec<JsonValue> = Vec::new();
        items.push(JsonValue::Num(*self as u64));
        let r = JsonValue::Arr(items);
        proof {
            lemma_model_seq(items@);
            assert(model_seq(items@) =~= seq![items@[0].model()]);
            assert(r.model() =~~= self.spec_bound_json());
        }
        r
    }
}

impl BufferType for u32 {
    open spec fn spec_bytes(self) -> Seq<u8> {
        spec_u32_to_le_bytes(self)
    }

    open spec fn spec_size() -> nat {
        4
    }

    open spec fn spec_decode(bytes: Seq<u8>) -> Self {
        spec_u32_from_le_bytes(bytes)
    }

    open spec fn spec_component_ty() -> AccessorComponentType {
        AccessorComponentType::UnsignedInt
    }

    open spec fn spec_data_ty() -> AccessorDataType {
        AccessorDataType::Scalar
    }

    open spec fn spec_stride() -> Option<usize> {
        None
    }

    proof fn lemma_bytes_len(self) {
        lemma_auto_spec_u32_to_from_le_bytes();
    }

    proof fn lemma_round_trip(self) {
        lemma_auto_spec_u32_to_from_le_bytes();
        assert(spec_u32_to_le_bytes(self).len() == 4);
    }

    fn to_bytes(&self) -> (r: Vec<u8>) {
        u32_to_le_bytes(*self)
    }

    fn stride() -> (r: Option<usize>) {
        None
    }

    fn component_ty() -> (r: AccessorComponentType) {
        AccessorComponentType::UnsignedInt
    }

    fn data_ty() -> (r: AccessorDataType) {
        AccessorDataType::Scalar
    }
}

impl BufferTypeMinMax for u32 {
    open spec fn spec_max_identity() -> Self {
        u32::MIN
    }

    open spec fn spec_min_identity() -> Self {
        u32::MAX
    }

    open spec fn spec_data_max(self, other: Self) -> Self {
        if self >= other {
            self
        } else {
            other
        }
    }

    open spec fn spec_data_min(self, other: Self) -> Self {
        if self <= other {
            self
        } else {
            other
        }
    }

    open spec fn spec_bound_json(self) -> JsonModel {
        JsonModel::Arr(seq![JsonModel::Num(self as u64)])
    }

    fn max_identity() -> (r: Self) {
        u32::MIN
    }

    fn min_identity() -> (r: Self) {
        u32::MAX
    }

    fn data_max(&self, other: &Self) -> (r: Self) {
        if *self >= *other {
            *self
        } else {
            *other
        }
    }

    fn data_min(&self, other: &Self) -> (r: Self) {
        if *self <= *other {
            *self
        } else {
            *other
        }
    }

    fn bound_json(&self) -> (r: JsonValue) {
        let mut items: Vec<JsonValue> = Vec::new();
        items.push(JsonValue::Num(*self as u64));
        let r = JsonValue::Arr(items);
        proof {
            lemma_model_seq(items@);
            assert(model_seq(items@) =~= seq![items@[0].model()]);
            assert(r.model() =~~= self.spec_bound_json());
        }
        r
    }
}

impl BufferType for u8 {
    open spec fn spec_bytes(self) -> Seq<u8> {
        seq![self]
    }

    open spec fn spec_size() -> nat {
        1
    }

    open spec fn spec_decode(bytes: Seq<u8>) -> Self {
        bytes[0]
    }

    open spec fn spec_component_ty() -> AccessorComponentType {
        AccessorComponentType::UnsignedByte
    }

    open spec fn spec_data_ty() -> AccessorDataType {
        AccessorDataType::Scalar
    }

    open spec fn spec_stride() -> Option<usize> {
        None
    }

    proof fn lemma_bytes_len(self) {
    }

    proof fn lemma_round_trip(self) {
    }

    fn to_bytes(&self) -> (r: Vec<u8>) {
        let mut bytes: Vec<u8> = Vec::new();
        bytes.push(*self);
        proof {
            assert(bytes@ =~= self.spec_bytes());
        }
        bytes
    }

    fn stride() -> (r: Option<usize>) {
        None
    }

    fn component_ty() -> (r: AccessorComponentType) {
        AccessorComponentType::UnsignedByte
    }

    fn data_ty() -> (r: AccessorDataType) {
        AccessorDataType::Scalar
    }
}

impl BufferTypeMinMax for u8 {
    open spec fn spec_max_identity() -> Self {
        u8::MIN
    }

    open spec fn spec_min_identity() -> Self {
        u8::MAX
    }

    open spec fn spec_data_max(self, other: Self) -> Self {
        if self >= other {
            self
        } else {
            other
        }
    }

    open spec fn spec_data_min(self, other: Self) -> Self {
        if self <= other {
            self
        } else {
            other
        }
    }

    open spec fn spec_bound_json(self) -> JsonModel {
        JsonModel::Arr(seq![JsonModel::Num(self as u64)])
    }

    fn max_identity() -> (r: Self) {
        u8::MIN
    }

    fn min_identity() -> (r: Self) {
        u8::MAX
    }

    fn data_max(&self, other: &Self) -> (r: Self) {
        if *self >= *other {
            *self
        } else {
            *other
        }
    }

    fn data_min(&self, other: &Self) -> (r: Self) {
        if *self <= *other {
            *self
        } else {
            *other
        }
    }

    fn bound_json(&self) -> (r: JsonValue) {
        let mut items: Vec<JsonValue> = Vec::new();
        items.push(JsonValue::Num(*self as u64));
        let r = JsonValue::Arr(items);
        proof {
            lemma_model_seq(items@);
            assert(model_seq(items@) =~= seq![items@[0].model()]);
            assert(r.model() =~~= self.spec_bound_json());
        }
        r
    }
}

impl BufferType for F32Bits {
    open spec fn spec_bytes(self) -> Seq<u8> {
        spec_u32_to_le_bytes(self.0)
    }

    open spec fn spec_size() -> nat {
        4
    }

    open spec fn spec_decode(bytes: Seq<u8>) -> Self {
        F32Bits(spec_u32_from_le_bytes(bytes))
    }

    open spec fn spec_component_ty() -> AccessorComponentType {
        AccessorComponentType::Float
    }

    open spec fn spec_data_ty() -> AccessorDataType {
        AccessorDataType::Scalar
    }

    open spec fn spec_stride() -> Option<usize> {
        None
    }

    proof fn lemma_bytes_len(self) {
        lemma_auto_spec_u32_to_from_le_bytes();
    }

    proof fn lemma_round_trip(self) {
        lemma_auto_spec_u32_to_from_le_bytes();
        assert(spec_u32_to_le_bytes(self.0).len() == 4);
    }

    fn to_bytes(&self) -> (r: Vec<u8>) {
        u32_to_le_bytes(self.0)
    }

    fn stride() -> (r: Option<usize>) {
        None
    }

    fn component_ty() -> (r: AccessorComponentType) {
        AccessorComponentType::Float
    }

    fn data_ty() -> (r: AccessorDataType) {
        AccessorDataType::Scalar
    }
}

impl BufferTypeMinMax for F32Bits {
    open spec fn spec_max_identity() -> Self {
        F32Bits(F32_MIN_BITS)
    }

    open spec fn spec_min_identity() -> Self {
        F32Bits(F32_MAX_BITS)
    }

    open spec fn spec_data_max(self, other: Self) -> Self {
        if spec_is_nan(self.0) {
            other
        } else if spec_is_nan(other.0) {
            self
        } else if spec_order_key(self.0) >= spec_order_key(other.0) {
            self
        } else {
            other
        }
    }

    open spec fn spec_data_min(self, other: Self) -> Self {
        if spec_is_nan(self.0) {
            other
        } else if spec_is_nan(other.0) {
            self
        } else if spec_order_key(self.0) <= spec_order_key(other.0) {
            self
        } else {
            other
        }
    }

    open spec fn spec_bound_json(self) -> JsonModel {
        JsonModel::Arr(seq![JsonModel::Float(self.0)])
    }

    fn max_identity() -> (r: Self) {
        F32Bits(F32_MIN_BITS)
    }

    fn min_identity() -> (r: Self) {
        F32Bits(F32_MAX_BITS)
    }

    fn data_max(&self, other: &Self) -> (r: Self) {
        if is_nan_bits(self.0) {
            *other
        } else if is_nan_bits(other.0) {
            *self
        } else if order_key(self.0) >= order_key(other.0) {
            *self
        } else {
            *other
        }
    }

    fn data_min(&self, other: &Self) -> (r: Self) {
        if is_nan_bits(self.0) {
            *other
        } else if is_nan_bits(other.0) {
            *self
        } else if order_key(self.0) <= order_key(other.0) {
            *self
        } else {
            *other
        }
    }

    fn bound_json(&self) -> (r: JsonValue) {
        let mut items: Vec<JsonValue> = Vec::new();
        items.push(JsonValue::Float(self.0));
        let r = JsonValue::Arr(items);
        proof {
            lemma_model_seq(items@);
            assert(model_seq(items@) =~= seq![items@[0].model()]);
            assert(r.model() =~~= self.spec_bound_json());
        }
        r
    }
}

/// A 2-component float vector vertex attribute, encoded component by component in declared order.
#[derive(Clone, Copy, Debug, PartialEq, Eq, Structural)]
pub struct Float2 {
    pub x: F32Bits,
    pub y: F32Bits,
}

impl BufferType for Float2 {
    open spec fn spec_bytes(self) -> Seq<u8> {
        spec_u32_to_le_bytes(self.x.0) + spec_u32_to_le_bytes(self.y.0)
    }

    open spec fn spec_size() -> nat {
        8
    }

    open spec fn spec_decode(bytes: Seq<u8>) -> Self {
        Float2 {
            x: F32Bits(spec_u32_from_le_bytes(bytes.subrange(0, 4))),
            y: F32Bits(spec_u32_from_le_bytes(bytes.subrange(4, 8))),
        }
    }

    open spec fn spec_component_ty() -> AccessorComponentType {
        AccessorComponentType::Float
    }

    open spec fn spec_data_ty() -> AccessorDataType {
        AccessorDataType::Vec2
    }

    open spec fn spec_stride() -> Option<usize> {
        Some(8)
    }

    proof fn lemma_bytes_len(self) {
        lemma_auto_spec_u32_to_from_le_bytes();
        assert(spec_u32_to_le_bytes(self.x.0).len() == 4);
        assert(spec_u32_to_le_bytes(self.y.0).len() == 4);
    }

    proof fn lemma_round_trip(self) {
        lemma_auto_spec_u32_to_from_le_bytes();
        assert(spec_u32_to_le_bytes(self.x.0).len() == 4);
        assert(spec_u32_to_le_bytes(self.y.0).len() == 4);
        assert(self.spec_bytes().subrange(0, 4) =~= spec_u32_to_le_bytes(self.x.0));
        assert(self.spec_bytes().subrange(4, 8) =~= spec_u32_to_le_bytes(self.y.0));
    }

    fn to_bytes(&self) -> (r: Vec<u8>) {
        let mut bytes = u32_to_le_bytes(self.x.0);
        let mut more0 = u32_to_le_bytes(self.y.0);
        bytes.append(&mut more0);
        bytes
    }

    fn stride() -> (r: Option<usize>) {
        Some(8usize)
    }

    fn component_ty() -> (r: AccessorComponentType) {
        AccessorComponentType::Float
    }

    fn data_ty() -> (r: AccessorDataType) {
        AccessorDataType::Vec2
    }
}

impl BufferTypeMinMax for Float2 {
    open spec fn spec_max_identity() -> Self {
        Float2 {
            x: F32Bits(F32_MIN_BITS),
            y: F32Bits(F32_MIN_BITS),
        }
    }

    open spec fn spec_min_identity() -> Self {
        Float2 {
            x: F32Bits(F32_MAX_BITS),
            y: F32Bits(F32_MAX_BITS),
        }
    }

    open spec fn spec_data_max(self, other: Self) -> Self {
        Float2 {
            x: self.x.spec_data_max(other.x),
            y: self.y.spec_data_max(other.y),
        }
    }

    open spec fn spec_data_min(self, other: Self) -> Self {
        Float2 {
            x: self.x.spec_data_min(other.x),
            y: self.y.spec_data_min(other.y),
        }
    }

    open spec fn spec_bound_json(self) -> JsonModel {
        JsonModel::Arr(seq![JsonModel::Float(self.x.0), JsonModel::Float(self.y.0)])
    }

    fn max_identity() -> (r: Self) {
        Float2 {
            x: F32Bits(F32_MIN_BITS),
            y: F32Bits(F32_MIN_BITS),
        }
    }

    fn min_identity() -> (r: Self) {
        Float2 {
            x: F32Bits(F32_MAX_BITS),
            y: F32Bits(F32_MAX_BITS),
        }
    }

    fn data_max(&self, other: &Self) -> (r: Self) {
        Float2 {
            x: self.x.data_max(&other.x),
            y: self.y.data_max(&other.y),
        }
    }

    fn data_min(&self, other: &Self) -> (r: Self) {
        Float2 {
            x: self.x.data_min(&other.x),
            y: self.y.data_min(&other.y),
        }
    }

    fn bound_json(&self) -> (r: JsonValue) {
        let mut items: Vec<JsonValue> = Vec::new();
        items.push(JsonValue::Float(self.x.0));
        items.push(JsonValue::Float(self.y.0));
        let r = JsonValue::Arr(items);
        proof {
            lemma_model_seq(items@);
            assert(model_seq(items@) =~= seq![items@[0].model(), items@[1].model()]);
            assert(r.model() =~~= self.spec_bound_json());
        }
        r
    }
}

/// A 3-component float vector vertex attribute, encoded component by component in declared order.
#[derive(Clone, Copy, Debug, PartialEq, Eq, Structural)]
pub struct Float3 {
    pub x: F32Bits,
    pub y: F32Bits,
    pub z: F32Bits,
}

impl BufferType for Float3 {
    open spec fn spec_bytes(self) -> Seq<u8> {
        spec_u32_to_le_bytes(self.x.0) + spec_u32_to_le_bytes(self.y.0) + spec_u32_to_le_bytes(self.z.0)
    }

    open spec fn spec_size() -> nat {
        12
    }

    open spec fn spec_decode(bytes: Seq<u8>) -> Self {
        Float3 {
            x: F32Bits(spec_u32_from_le_bytes(bytes.subrange(0, 4))),
            y: F32Bits(spec_u32_from_le_bytes(bytes.subrange(4, 8))),
            z: F32Bits(spec_u32_from_le_bytes(bytes.subrange(8, 12))),
        }
    }

    open spec fn spec_component_ty() -> AccessorComponentType {
        AccessorComponentType::Float
    }

    open spec fn spec_data_ty() -> AccessorDataType {
        AccessorDataType::Vec3
    }

    open spec fn spec_stride() -> Option<usize> {
        Some(12)
    }

    proof fn lemma_bytes_len(self) {
        lemma_auto_spec_u32_to_from_le_bytes();
        assert(spec_u32_to_le_bytes(self.x.0).len() == 4);
        assert(spec_u32_to_le_bytes(self.y.0).len() == 4);
        assert(spec_u32_to_le_bytes(self.z.0).len() == 4);
    }

    proof fn lemma_round_trip(self) {
        lemma_auto_spec_u32_to_from_le_bytes();
        assert(spec_u32_to_le_bytes(self.x.0).len() == 4);
        assert(spec_u32_to_le_bytes(self.y.0).len() == 4);
        assert(spec_u32_to_le_bytes(self.z.0).len() == 4);
        assert(self.spec_bytes().subrange(0, 4) =~= spec_u32_to_le_bytes(self.x.0));
        assert(self.spec_bytes().subrange(4, 8) =~= spec_u32_to_le_bytes(self.y.0));
        assert(self.spec_bytes().subrange(8, 12) =~= spec_u32_to_le_bytes(self.z.0));
    }

    fn to_bytes(&self) -> (r: Vec<u8>) {
        let mut bytes = u32_to_le_bytes(self.x.0);
        let mut more0 = u32_to_le_bytes(self.y.0);
        bytes.append(&mut more0);
        let mut more1 = u32_to_le_bytes(self.z.0);
        bytes.append(&mut more1);
        bytes
    }

    fn stride() -> (r: Option<usize>) {
        Some(12usize)
    }

    fn component_ty() -> (r: AccessorComponentType) {
        AccessorComponentType::Float
    }

    fn data_ty() -> (r: AccessorDataType) {
        AccessorDataType::Vec3
    }
}

impl BufferTypeMinMax for Float3 {
    open spec fn spec_max_identity() -> Self {
        Float3 {
            x: F32Bits(F32_MIN_BITS),
            y: F32Bits(F32_MIN_BITS),
            z: F32Bits(F32_MIN_BITS),
        }
    }

    open spec fn spec_min_identity() -> Self {
        Float3 {
            x: F32Bits(F32_MAX_BITS),
            y: F32Bits(F32_MAX_BITS),
            z: F32Bits(F32_MAX_BITS),
        }
    }

    open spec fn spec_data_max(self, other: Self) -> Self {
        Float3 {
            x: self.x.spec_data_max(other.x),
            y: self.y.spec_data_max(other.y),
            z: self.z.spec_data_max(other.z),
        }
    }

    open spec fn spec_data_min(self, other: Self) -> Self {
        Float3 {
            x: self.x.spec_data_min(other.x),
            y: self.y.spec_data_min(other.y),
            z: self.z.spec_data_min(other.z),
        }
    }

    open spec fn spec_bound_json(self) -> JsonModel {
        JsonModel::Arr(seq![JsonModel::Float(self.x.0), JsonModel::Float(self.y.0), JsonModel::Float(self.z.0)])
    }

    fn max_identity() -> (r: Self) {
        Float3 {
            x: F32Bits(F32_MIN_BITS),
            y: F32Bits(F32_MIN_BITS),
            z: F32Bits(F32_MIN_BITS),
        }
    }

    fn min_identity() -> (r: Self) {
        Float3 {
            x: F32Bits(F32_MAX_BITS),
            y: F32Bits(F32_MAX_BITS),
            z: F32Bits(F32_MAX_BITS),
        }
    }

    fn data_max(&self, other: &Self) -> (r: Self) {
        Float3 {
            x: self.x.data_max(&other.x),
            y: self.y.data_max(&other.y),
            z: self.z.data_max(&other.z),
        }
    }

    fn data_min(&self, other: &Self) -> (r: Self) {
        Float3 {
            x: self.x.data_min(&other.x),
            y: self.y.data_min(&other.y),
            z: self.z.data_min(&other.z),
        }
    }

    fn bound_json(&self) -> (r: JsonValue) {
        let mut items: Vec<JsonValue> = Vec::new();
        items.push(JsonValue::Float(self.x.0));
        items.push(JsonValue::Float(self.y.0));
        items.push(JsonValue::Float(self.z.0));
        let r = JsonValue::Arr(items);
        proof {
            lemma_model_seq(items@);
            assert(model_seq(items@) =~= seq![items@[0].model(), items@[1].model(), items@[2].model()]);
            assert(r.model() =~~= self.spec_bound_json());
        }
        r
    }
}

/// A 4-component float vector vertex attribute, encoded component by component in declared order.
#[derive(Clone, Copy, Debug, PartialEq, Eq, Structural)]
pub struct Float4 {
    pub x: F32Bits,
    pub y: F32Bits,
    pub z: F32Bits,
    pub w: F32Bits,
}

impl BufferType for Float4 {
    open spec fn spec_bytes(self) -> Seq<u8> {
        spec_u32_to_le_bytes(self.x.0) + spec_u32_to_le_bytes(self.y.0) + spec_u32_to_le_bytes(self.z.0) + spec_u32_to_le_bytes(self.w.0)
    }

    open spec fn spec_size() -> nat {
        16
    }

    open spec fn spec_decode(bytes: Seq<u8>) -> Self {
        Float4 {
            x: F32Bits(spec_u32_from_le_bytes(bytes.subrange(0, 4))),
            y: F32Bits(spec_u32_from_le_bytes(bytes.subrange(4, 8))),
            z: F32Bits(spec_u32_from_le_bytes(bytes.subrange(8, 12))),
            w: F32Bits(spec_u32_from_le_bytes(bytes.subrange(12, 16))),
        }
    }

    open spec fn spec_component_ty() -> AccessorComponentType {
        AccessorComponentType::Float
    }

    open spec fn spec_data_ty() -> AccessorDataType {
        AccessorDataType::Vec4
    }

    open spec fn spec_stride() -> Option<usize> {
        Some(16)
    }

    proof fn lemma_bytes_len(self) {
        lemma_auto_spec_u32_to_from_le_bytes();
        assert(spec_u32_to_le_bytes(self.x.0).len() == 4);
        assert(spec_u32_to_le_bytes(self.y.0).len() == 4);
        assert(spec_u32_to_le_bytes(self.z.0).len() == 4);
        assert(spec_u32_to_le_bytes(self.w.0).len() == 4);
    }

    proof fn lemma_round_trip(self) {
        lemma_auto_spec_u32_to_from_le_bytes();
        assert(spec_u32_to_le_bytes(self.x.0).len() == 4);
        assert(spec_u32_to_le_bytes(self.y.0).len() == 4);
        assert(spec_u32_to_le_bytes(self.z.0).len() == 4);
        assert(spec_u32_to_le_bytes(self.w.0).len() == 4);
        assert(self.spec_bytes().subrange(0, 4) =~= spec_u32_to_le_bytes(self.x.0));
        assert(self.spec_bytes().subrange(4, 8) =~= spec_u32_to_le_bytes(self.y.0));
        assert(self.spec_bytes().subrange(8, 12) =~= spec_u32_to_le_bytes(self.z.0));
        assert(self.spec_bytes().subrange(12, 16) =~= spec_u32_to_le_bytes(self.w.0));
    }

    fn to_bytes(&self) -> (r: Vec<u8>) {
        let mut bytes = u32_to_le_bytes(self.x.0);
        let mut more0 = u32_to_le_bytes(self.y.0);
        bytes.append(&mut more0);
        let mut more1 = u32_to_le_bytes(self.z.0);
        bytes.append(&mut more1);
        let mut more2 = u32_to_le_bytes(self.w.0);
        bytes.append(&mut more2);
        bytes
    }

    fn stride() -> (r: Option<usize>) {
        Some(16usize)
    }

    fn component_ty() -> (r: AccessorComponentType) {
        AccessorComponentType::Float
    }

    fn data_ty() -> (r: AccessorDataType) {
        AccessorDataType::Vec4
    }
}

impl BufferTypeMinMax for Float4 {
    open spec fn spec_max_identity() -> Self {
        Float4 {
            x: F32Bits(F32_MIN_BITS),
            y: F32Bits(F32_MIN_BITS),
            z: F32Bits(F32_MIN_BITS),
            w: F32Bits(F32_MIN_BITS),
        }
    }

    open spec fn spec_min_identity() -> Self {
        Float4 {
            x: F32Bits(F32_MAX_BITS),
            y: F32Bits(F32_MAX_BITS),
            z: F32Bits(F32_MAX_BITS),
            w: F32Bits(F32_MAX_BITS),
        }
    }

    open spec fn spec_data_max(self, other: Self) -> Self {
        Float4 {
            x: self.x.spec_data_max(other.x),
            y: self.y.spec_data_max(other.y),
            z: self.z.spec_data_max(other.z),
            w: self.w.spec_data_max(other.w),
        }
    }

    open spec fn spec_data_min(self, other: Self) -> Self {
        Float4 {
            x: self.x.spec_data_min(other.x),
            y: self.y.spec_data_min(other.y),
            z: self.z.spec_data_min(other.z),
            w: self.w.spec_data_min(other.w),
        }
    }

    open spec fn spec_bound_json(self) -> JsonModel {
        JsonModel::Arr(seq![JsonModel::Float(self.x.0), JsonModel::Float(self.y.0), JsonModel::Float(self.z.0), JsonModel::Float(self.w.0)])
    }

    fn max_identity() -> (r: Self) {
        Float4 {
            x: F32Bits(F32_MIN_BITS),
            y: F32Bits(F32_MIN_BITS),
            z: F32Bits(F32_MIN_BITS),
            w: F32Bits(F32_MIN_BITS),
        }
    }

    fn min_identity() -> (r: Self) {
        Float4 {
            x: F32Bits(F32_MAX_BITS),
            y: F32Bits(F32_MAX_BITS),
            z: F32Bits(F32_MAX_BITS),
            w: F32Bits(F32_MAX_BITS),
        }
    }

    fn data_max(&self, other: &Self) -> (r: Self) {
        Float4 {
            x: self.x.data_max(&other.x),
            y: self.y.data_max(&other.y),
            z: self.z.data_max(&other.z),
            w: self.w.data_max(&other.w),
        }
    }

    fn data_min(&self, other: &Self) -> (r: Self) {
        Float4 {
            x: self.x.data_min(&other.x),
            y: self.y.data_min(&other.y),
            z: self.z.data_min(&other.z),
            w: self.w.data_min(&other.w),
        }
    }

    fn bound_json(&self) -> (r: JsonValue) {
        let mut items: Vec<JsonValue> = Vec::new();
        items.push(JsonValue::Float(self.x.0));
        items.push(JsonValue::Float(self.y.0));
        items.push(JsonValue::Float(self.z.0));
        items.push(JsonValue::Float(self.w.0));
        let r = JsonValue::Arr(items);
        proof {
            lemma_model_seq(items@);
            assert(model_seq(items@) =~= seq![items@[0].model(), items@[1].model(), items@[2].model(), items@[3].model()]);
            assert(r.model() =~~= self.spec_bound_json());
        }
        r
    }
}

/// A 3-component float vector value (a translation, a scale), encoded component by component in declared order.
#[derive(Clone, Copy, Debug, PartialEq, Eq, Structural)]
pub struct Vec3Data {
    pub x: F32Bits,
    pub y: F32Bits,
    pub z: F32Bits,
}

impl BufferType for Vec3Data {
    open spec fn spec_bytes(self) -> Seq<u8> {
        spec_u32_to_le_bytes(self.x.0) + spec_u32_to_le_bytes(self.y.0) + spec_u32_to_le_bytes(self.z.0)
    }

    open spec fn spec_size() -> nat {
        12
    }

    open spec fn spec_decode(bytes: Seq<u8>) -> Self {
        Vec3Data {
            x: F32Bits(spec_u32_from_le_bytes(bytes.subrange(0, 4))),
            y: F32Bits(spec_u32_from_le_bytes(bytes.subrange(4, 8))),
            z: F32Bits(spec_u32_from_le_bytes(bytes.subrange(8, 12))),
        }
    }

    open spec fn spec_component_ty() -> AccessorComponentType {
        AccessorComponentType::Float
    }

    open spec fn spec_data_ty() -> AccessorDataType {
        AccessorDataType::Vec3
    }

    open spec fn spec_stride() -> Option<usize> {
        None
    }

    proof fn lemma_bytes_len(self) {
        lemma_auto_spec_u32_to_from_le_bytes();
        assert(spec_u32_to_le_bytes(self.x.0).len() == 4);
        assert(spec_u32_to_le_bytes(self.y.0).len() == 4);
        assert(spec_u32_to_le_bytes(self.z.0).len() == 4);
    }

    proof fn lemma_round_trip(self) {
        lemma_auto_spec_u32_to_from_le_bytes();
        assert(spec_u32_to_le_bytes(self.x.0).len() == 4);
        assert(spec_u32_to_le_bytes(self.y.0).len() == 4);
        assert(spec_u32_to_le_bytes(self.z.0).len() == 4);
        assert(self.spec_bytes().subrange(0, 4) =~= spec_u32_to_le_bytes(self.x.0));
        assert(self.spec_bytes().subrange(4, 8) =~= spec_u32_to_le_bytes(self.y.0));
        assert(self.spec_bytes().subrange(8, 12) =~= spec_u32_to_le_bytes(self.z.0));
    }

    fn to_bytes(&self) -> (r: Vec<u8>) {
        let mut bytes = u32_to_le_bytes(self.x.0);
        let mut more0 = u32_to_le_bytes(self.y.0);
        bytes.append(&mut more0);
        let mut more1 = u32_to_le_bytes(self.z.0);
        bytes.append(&mut more1);
        bytes
    }

    fn stride() -> (r: Option<usize>) {
        None
    }

    fn component_ty() -> (r: AccessorComponentType) {
        AccessorComponentType::Float
    }

    fn data_ty() -> (r: AccessorDataType) {
        AccessorDataType::Vec3
    }
}

/// A 4-component float vector value (a rotation, a color factor), encoded component by component in declared order.
#[derive(Clone, Copy, Debug, PartialEq, Eq, Structural)]
pub struct Vec4Data {
    pub x: F32Bits,
    pub y: F32Bits,
    pub z: F32Bits,
    pub w: F32Bits,
}

impl BufferType for Vec4Data {
    open spec fn spec_bytes(self) -> Seq<u8> {
        spec_u32_to_le_bytes(self.x.0) + spec_u32_to_le_bytes(self.y.0) + spec_u32_to_le_bytes(self.z.0) + spec_u32_to_le_bytes(self.w.0)
    }

    open spec fn spec_size() -> nat {
        16
    }

    open spec fn spec_decode(bytes: Seq<u8>) -> Self {
        Vec4Data {
            x: F32Bits(spec_u32_from_le_bytes(bytes.subrange(0, 4))),
            y: F32Bits(spec_u32_from_le_bytes(bytes.subrange(4, 8))),
            z: F32Bits(spec_u32_from_le_bytes(bytes.subrange(8, 12))),
            w: F32Bits(spec_u32_from_le_bytes(bytes.subrange(12, 16))),
        }
    }

    open spec fn spec_component_ty() -> AccessorComponentType {
        AccessorComponentType::Float
    }

    open spec fn spec_data_ty() -> AccessorDataType {
        AccessorDataType::Vec4
    }

    open spec fn spec_stride() -> Option<usize> {
        None
    }

    proof fn lemma_bytes_len(self) {
        lemma_auto_spec_u32_to_from_le_bytes();
        assert(spec_u32_to_le_bytes(self.x.0).len() == 4);
        assert(spec_u32_to_le_bytes(self.y.0).len() == 4);
        assert(spec_u32_to_le_bytes(self.z.0).len() == 4);
        assert(spec_u32_to_le_bytes(self.w.0).len() == 4);
    }

    proof fn lemma_round_trip(self) {
        lemma_auto_spec_u32_to_from_le_bytes();
        assert(spec_u32_to_le_bytes(self.x.0).len() == 4);
        assert(spec_u32_to_le_bytes(self.y.0).len() == 4);
        assert(spec_u32_to_le_bytes(self.z.0).len() == 4);
        assert(spec_u32_to_le_bytes(self.w.0).len() == 4);
        assert(self.spec_bytes().subrange(0, 4) =~= spec_u32_to_le_bytes(self.x.0));
        assert(self.spec_bytes().subrange(4, 8) =~= spec_u32_to_le_bytes(self.y.0));
        assert(self.spec_bytes().subrange(8, 12) =~= spec_u32_to_le_bytes(self.z.0));
        assert(self.spec_bytes().subrange(12, 16) =~= spec_u32_to_le_bytes(self.w.0));
    }

    fn to_bytes(&self) -> (r: Vec<u8>) {
        let mut bytes = u32_to_le_bytes(self.x.0);
        let mut more0 = u32_to_le_bytes(self.y.0);
        bytes.append(&mut more0);
        let mut more1 = u32_to_le_bytes(self.z.0);
        bytes.append(&mut more1);
        let mut more2 = u32_to_le_bytes(self.w.0);
        bytes.append(&mut more2);
        bytes
    }

    fn stride() -> (r: Option<usize>) {
        None
    }

    fn component_ty() -> (r: AccessorComponentType) {
        AccessorComponentType::Float
    }

    fn data_ty() -> (r: AccessorDataType) {
        AccessorDataType::Vec4
    }
}

impl Vec3Data {
    /// The numeric array this vector renders as in the output document.
    pub open spec fn spec_json(self) -> JsonModel {
        JsonModel::Arr(seq![JsonModel::Float(self.x.0), JsonModel::Float(self.y.0), JsonModel::Float(self.z.0)])
    }

    /// Renders this vector as its numeric array.
    pub fn to_json(&self) -> (r: JsonValue)
        ensures
            r.model() == self.spec_json(),
    {
        let mut items: Vec<JsonValue> = Vec::new();
        items.push(JsonValue::Float(self.x.0));
        items.push(JsonValue::Float(self.y.0));
        items.push(JsonValue::Float(self.z.0));
        let r = JsonValue::Arr(items);
        proof {
            lemma_model_seq(items@);
            assert(model_seq(items@) =~= seq![items@[0].model(), items@[1].model(), items@[2].model()]);
            assert(r.model() =~~= self.spec_json());
        }
        r
    }
}

impl Vec4Data {
    /// The numeric array this vector renders as in the output document.
    pub open spec fn spec_json(self) -> JsonModel {
        JsonModel::Arr(seq![JsonModel::Float(self.x.0), JsonModel::Float(self.y.0), JsonModel::Float(self.z.0), JsonModel::Float(self.w.0)])
    }

    /// Renders this vector as its numeric array.
    pub fn to_json(&self) -> (r: JsonValue)
        ensures
            r.model() == self.spec_json(),
    {
        let mut items: Vec<JsonValue> = Vec::new();
        items.push(JsonValue::Float(self.x.0));
        items.push(JsonValue::Float(self.y.0));
        items.push(JsonValue::Float(self.z.0));
        items.push(JsonValue::Float(self.w.0));
        let r = JsonValue::Arr(items);
        proof {
            lemma_model_seq(items@);
            assert(model_seq(items@) =~= seq![items@[0].model(), items@[1].model(), items@[2].model(), items@[3].model()]);
            assert(r.model() =~~= self.spec_json());
        }
        r
    }
}

/// A 4-component unsigned byte vector vertex attribute (a color, joint
/// indices), encoded component by component in declared order.
#[derive(Clone, Copy, Debug, PartialEq, Eq, Structural)]
pub struct Byte4 {
    pub x: u8,
    pub y: u8,
    pub z: u8,
    pub w: u8,
}

impl BufferType for Byte4 {
    open spec fn spec_bytes(self) -> Seq<u8> {
        seq![self.x, self.y, self.z, self.w]
    }

    open spec fn spec_size() -> nat {
        4
    }

    open spec fn spec_decode(bytes: Seq<u8>) -> Self {
        Byte4 { x: bytes[0], y: bytes[1], z: bytes[2], w: bytes[3] }
    }

    open spec fn spec_component_ty() -> AccessorComponentType {
        AccessorComponentType::UnsignedByte
    }

    open spec fn spec_data_ty() -> AccessorDataType {
        AccessorDataType::Vec4
    }

    open spec fn spec_stride() -> Option<usize> {
        Some(4)
    }

    proof fn lemma_bytes_len(self) {
    }

    proof fn lemma_round_trip(self) {
    }

    fn to_bytes(&self) -> (r: Vec<u8>) {
        let mut bytes: Vec<u8> = Vec::new();
        bytes.push(self.x);
        bytes.push(self.y);
        bytes.push(self.z);
        bytes.push(self.w);
        proof {
            assert(bytes@ =~= self.spec_bytes());
        }
        bytes
    }

    fn stride() -> (r: Option<usize>) {
        Some(4usize)
    }

    fn component_ty() -> (r: AccessorComponentType) {
        AccessorComponentType::UnsignedByte
    }

    fn data_ty() -> (r: AccessorDataType) {
        AccessorDataType::Vec4
    }
}

impl BufferTypeMinMax for Byte4 {
    open spec fn spec_max_identity() -> Self {
        Byte4 { x: u8::MIN, y: u8::MIN, z: u8::MIN, w: u8::MIN }
    }

    open spec fn spec_min_identity() -> Self {
        Byte4 { x: u8::MAX, y: u8::MAX, z: u8::MAX, w: u8::MAX }
    }

    open spec fn spec_data_max(self, other: Self) -> Self {
        Byte4 {
            x: self.x.spec_data_max(other.x),
            y: self.y.spec_data_max(other.y),
            z: self.z.spec_data_max(other.z),
            w: self.w.spec_data_max(other.w),
        }
    }

    open spec fn spec_data_min(self, other: Self) -> Self {
        Byte4 {
            x: self.x.spec_data_min(other.x),
            y: self.y.spec_data_min(other.y),
            z: self.z.spec_data_min(other.z),
            w: self.w.spec_data_min(other.w),
        }
    }

    open spec fn spec_bound_json(self) -> JsonModel {
        JsonModel::Arr(seq![JsonModel::Num(self.x as u64), JsonModel::Num(self.y as u64), JsonModel::Num(self.z as u64), JsonModel::Num(self.w as u64)])
    }

    fn max_identity() -> (r: Self) {
        Byte4 { x: u8::MIN, y: u8::MIN, z: u8::MIN, w: u8::MIN }
    }

    fn min_identity() -> (r: Self) {
        Byte4 { x: u8::MAX, y: u8::MAX, z: u8::MAX, w: u8::MAX }
    }

    fn data_max(&self, other: &Self) -> (r: Self) {
        Byte4 {
            x: self.x.data_max(&other.x),
            y: self.y.data_max(&other.y),
            z: self.z.data_max(&other.z),
            w: self.w.data_max(&other.w),
        }
    }

    fn data_min(&self, other: &Self) -> (r: Self) {
        Byte4 {
            x: self.x.data_min(&other.x),
            y: self.y.data_min(&other.y),
            z: self.z.data_min(&other.z),
            w: self.w.data_min(&other.w),
        }
    }

    fn bound_json(&self) -> (r: JsonValue) {
        let mut items: Vec<JsonValue> = Vec::new();
        items.push(JsonValue::Num(self.x as u64));
        items.push(JsonValue::Num(self.y as u64));
        items.push(JsonValue::Num(self.z as u64));
        items.push(JsonValue::Num(self.w as u64));
        let r = JsonValue::Arr(items);
        proof {
            lemma_model_seq(items@);
            assert(model_seq(items@) =~= seq![items@[0].model(), items@[1].model(), items@[2].model(), items@[3].model()]);
            assert(r.model() =~~= self.spec_bound_json());
        }
        r
    }
}

/// A 4x4 float matrix value (an inverse bind matrix), encoded as its
/// flattened column-major component sequence.
#[derive(Clone, Copy, Debug, PartialEq, Eq, Structural)]
pub struct Mat4Data {
    pub x_axis: Vec4Data,
    pub y_axis: Vec4Data,
    pub z_axis: Vec4Data,
    pub w_axis: Vec4Data,
}

impl BufferType for Mat4Data {
    open spec fn spec_bytes(self) -> Seq<u8> {
        self.x_axis.spec_bytes() + self.y_axis.spec_bytes() + self.z_axis.spec_bytes() + self.w_axis.spec_bytes()
    }

    open spec fn spec_size() -> nat {
        64
    }

    open spec fn spec_decode(bytes: Seq<u8>) -> Self {
        Mat4Data {
            x_axis: <Vec4Data as BufferType>::spec_decode(bytes.subrange(0, 16)),
            y_axis: <Vec4Data as BufferType>::spec_decode(bytes.subrange(16, 32)),
            z_axis: <Vec4Data as BufferType>::spec_decode(bytes.subrange(32, 48)),
            w_axis: <Vec4Data as BufferType>::spec_decode(bytes.subrange(48, 64)),
        }
    }

    open spec fn spec_component_ty() -> AccessorComponentType {
        AccessorComponentType::Float
    }

    open spec fn spec_data_ty() -> AccessorDataType {
        AccessorDataType::Mat4
    }

    open spec fn spec_stride() -> Option<usize> {
        None
    }

    proof fn lemma_bytes_len(self) {
        self.x_axis.lemma_bytes_len();
        self.y_axis.lemma_bytes_len();
        self.z_axis.lemma_bytes_len();
        self.w_axis.lemma_bytes_len();
    }

    proof fn lemma_round_trip(self) {
        self.x_axis.lemma_bytes_len();
        self.y_axis.lemma_bytes_len();
        self.z_axis.lemma_bytes_len();
        self.w_axis.lemma_bytes_len();
        assert(self.spec_bytes().subrange(0, 16) =~= self.x_axis.spec_bytes());
        assert(self.spec_bytes().subrange(16, 32) =~= self.y_axis.spec_bytes());
        assert(self.spec_bytes().subrange(32, 48) =~= self.z_axis.spec_bytes());
        assert(self.spec_bytes().subrange(48, 64) =~= self.w_axis.spec_bytes());
        self.x_axis.lemma_round_trip();
        self.y_axis.lemma_round_trip();
        self.z_axis.lemma_round_trip();
        self.w_axis.lemma_round_trip();
    }

    fn to_bytes(&self) -> (r: Vec<u8>) {
        let mut bytes = self.x_axis.to_bytes();
        let mut more0 = self.y_axis.to_bytes();
        bytes.append(&mut more0);
        let mut more1 = self.z_axis.to_bytes();
        bytes.append(&mut more1);
        let mut more2 = self.w_axis.to_bytes();
        bytes.append(&mut more2);
        bytes
    }

    fn stride() -> (r: Option<usize>) {
        None
    }

    fn component_ty() -> (r: AccessorComponentType) {
        AccessorComponentType::Float
    }

    fn data_ty() -> (r: AccessorDataType) {
        AccessorDataType::Mat4
    }
}

/// Min-max correctness for `u8` elements: over a non-empty sequence the
/// fold returns exactly the least and the greatest element, each attained.
pub proof fn lemma_find_min_max_exact_u8(data: Seq<u8>)
    requires
        data.len() > 0,
    ensures
        forall|i: int|
            0 <= i < data.len() ==> fold_min(data) <= #[trigger] data[i] <= fold_max(data),
        exists|i: int| 0 <= i < data.len() && #[trigger] data[i] == fold_min(data),
        exists|i: int| 0 <= i < data.len() && #[trigger] data[i] == fold_max(data),
    decreases data,
{
    let prefix = data.drop_last();
    if data.len() > 1 {
        lemma_find_min_max_exact_u8(prefix);
        assert forall|i: int|
            0 <= i < data.len() implies fold_min(data) <= #[trigger] data[i] <= fold_max(
            data,
        ) by {
            if i < data.len() - 1 {
                assert(prefix[i] == data[i]);
            }
        }
        if fold_max(data) != data.last() {
            let j = choose|j: int| 0 <= j < prefix.len() && prefix[j] == fold_max(prefix);
            assert(data[j] == fold_max(data));
        } else {
            assert(data[data.len() - 1] == fold_max(data));
        }
        if fold_min(data) != data.last() {
            let j = choose|j: int| 0 <= j < prefix.len() && prefix[j] == fold_min(prefix);
            assert(data[j] == fold_min(data));
        } else {
            assert(data[data.len() - 1] == fold_min(data));
        }
    } else {
        assert(prefix.len() == 0);
        assert(fold_min(data) == data.last().spec_data_min(fold_min(prefix)));
        assert(fold_max(data) == data.last().spec_data_max(fold_max(prefix)));
        assert(data[0] == fold_min(data));
        assert(data[0] == fold_max(data));
    }
}

/// Min-max correctness for `u16` elements: over a non-empty sequence the
/// fold returns exactly the least and the greatest element, each attained.
pub proof fn lemma_find_min_max_exact_u16(data: Seq<u16>)
    requires
        data.len() > 0,
    ensures
        forall|i: int|
            0 <= i < data.len() ==> fold_min(data) <= #[trigger] data[i] <= fold_max(data),
        exists|i: int| 0 <= i < data.len() && #[trigger] data[i] == fold_min(data),
        exists|i: int| 0 <= i < data.len() && #[trigger] data[i] == fold_max(data),
    decreases data,
{
    let prefix = data.drop_last();
    if data.len() > 1 {
        lemma_find_min_max_exact_u16(prefix);
        assert forall|i: int|
            0 <= i < data.len() implies fold_min(data) <= #[trigger] data[i] <= fold_max(
            data,
        ) by {
            if i < data.len() - 1 {
                assert(prefix[i] == data[i]);
            }
        }
        if fold_max(data) != data.last() {
            let j = choose|j: int| 0 <= j < prefix.len() && prefix[j] == fold_max(prefix);
            assert(data[j] == fold_max(data));
        } else {
            assert(data[data.len() - 1] == fold_max(data));
        }
        if fold_min(data) != data.last() {
            let j = choose|j: int| 0 <= j < prefix.len() && prefix[j] == fold_min(prefix);
            assert(data[j] == fold_min(data));
        } else {
            assert(data[data.len() - 1] == fold_min(data));
        }
    } else {
        assert(prefix.len() == 0);
        assert(fold_min(data) == data.last().spec_data_min(fold_min(prefix)));
        assert(fold_max(data) == data.last().spec_data_max(fold_max(prefix)));
        assert(data[0] == fold_min(data));
        assert(data[0] == fold_max(data));
    }
}

/// Min-max correctness for `u32` elements: over a non-empty sequence the
/// fold returns exactly the least and the greatest element, each attained.
pub proof fn lemma_find_min_max_exact_u32(data: Seq<u32>)
    requires
        data.len() > 0,
    ensures
        forall|i: int|
            0 <= i < data.len() ==> fold_min(data) <= #[trigger] data[i] <= fold_max(data),
        exists|i: int| 0 <= i < data.len() && #[trigger] data[i] == fold_min(data),
        exists|i: int| 0 <= i < data.len() && #[trigger] data[i] == fold_max(data),
    decreases data,
{
    let prefix = data.drop_last();
    if data.len() > 1 {
        lemma_find_min_max_exact_u32(prefix);
        assert forall|i: int|
            0 <= i < data.len() implies fold_min(data) <= #[trigger] data[i] <= fold_max(
            data,
        ) by {
            if i < data.len() - 1 {
                assert(prefix[i] == data[i]);
            }
        }
        if fold_max(data) != data.last() {
            let j = choose|j: int| 0 <= j < prefix.len() && prefix[j] == fold_max(prefix);
            assert(data[j] == fold_max(data));
        }
        if fold_min(data) != data.last() {
            let j = choose|j: int| 0 <= j < prefix.len() && prefix[j] == fold_min(prefix);
            assert(data[j] == fold_min(data));
        }
    } else {
        assert(prefix.len() == 0);
        assert(fold_min(data) == data.last().spec_data_min(fold_min(prefix)));
        assert(fold_max(data) == data.last().spec_data_max(fold_max(prefix)));
        assert(data[0] == fold_min(data));
        assert(data[0] == fold_max(data));
    }
}

/// Min-max correctness for float elements, stated over the numeric ordering
/// key of the bit patterns: over a non-empty sequence of finite values, the
/// fold returns exactly the numerically least and greatest element, each
/// attained. (An infinity in the data would clamp against the finite fold
/// identities, so the bounds are exact for finite data only.)
pub proof fn lemma_find_min_max_exact_f32_bits(data: Seq<F32Bits>)
    requires
        data.len() > 0,
        forall|i: int| 0 <= i < data.len() ==> spec_is_finite((#[trigger] data[i]).0),
    ensures
        forall|i: int|
            0 <= i < data.len() ==> spec_order_key(fold_min(data).0) <= spec_order_key(
                (#[trigger] data[i]).0,
            ) <= spec_order_key(fold_max(data).0),
        exists|i: int| 0 <= i < data.len() && #[trigger] data[i] == fold_min(data),
        exists|i: int| 0 <= i < data.len() && #[trigger] data[i] == fold_max(data),
    decreases data,
{
    let prefix = data.drop_last();
    if data.len() > 1 {
        assert forall|i: int| 0 <= i < prefix.len() implies spec_is_finite(
            (#[trigger] prefix[i]).0,
        ) by {
            assert(prefix[i] == data[i]);
        }
        lemma_find_min_max_exact_f32_bits(prefix);
        assert forall|i: int|
            0 <= i < data.len() implies spec_order_key(fold_min(data).0) <= spec_order_key(
            (#[trigger] data[i]).0,
        ) <= spec_order_key(fold_max(data).0) by {
            if i < data.len() - 1 {
                assert(prefix[i] == data[i]);
            }
        }
        if fold_max(data) != data.last() {
            let j = choose|j: int| 0 <= j < prefix.len() && prefix[j] == fold_max(prefix);
            assert(data[j] == fold_max(data));
        }
        if fold_min(data) != data.last() {
            let j = choose|j: int| 0 <= j < prefix.len() && prefix[j] == fold_min(prefix);
            assert(data[j] == fold_min(data));
        }
    } else {
        assert(prefix.len() == 0);
        assert(spec_is_finite(data[0].0));
        assert(fold_min(data) == data.last().spec_data_min(fold_min(prefix)));
        assert(fold_max(data) == data.last().spec_data_max(fold_max(prefix)));
        assert(data[0] == fold_min(data));
        assert(data[0] == fold_max(data));
    }
}

/// Min-max correctness for `Byte4` elements, component by component: over a
/// non-empty sequence the fold returns in each component exactly the least
/// and the greatest value observed in that component, each attained.
pub proof fn lemma_find_min_max_exact_byte4(data: Seq<Byte4>)
    requires
        data.len() > 0,
    ensures
        forall|i: int|
            0 <= i < data.len() ==> {
                &&& fold_min(data).x <= (#[trigger] data[i]).x <= fold_max(data).x
                &&& fold_min(data).y <= data[i].y <= fold_max(data).y
                &&& fold_min(data).z <= data[i].z <= fold_max(data).z
                &&& fold_min(data).w <= data[i].w <= fold_max(data).w
            },
        exists|i: int| 0 <= i < data.len() && (#[trigger] data[i]).x == fold_max(data).x,
        exists|i: int| 0 <= i < data.len() && (#[trigger] data[i]).y == fold_max(data).y,
        exists|i: int| 0 <= i < data.len() && (#[trigger] data[i]).z == fold_max(data).z,
        exists|i: int| 0 <= i < data.len() && (#[trigger] data[i]).w == fold_max(data).w,
        exists|i: int| 0 <= i < data.len() && (#[trigger] data[i]).x == fold_min(data).x,
        exists|i: int| 0 <= i < data.len() && (#[trigger] data[i]).y == fold_min(data).y,
        exists|i: int| 0 <= i < data.len() && (#[trigger] data[i]).z == fold_min(data).z,
        exists|i: int| 0 <= i < data.len() && (#[trigger] data[i]).w == fold_min(data).w,
    decreases data,
{
    let prefix = data.drop_last();
    if data.len() > 1 {
        lemma_find_min_max_exact_byte4(prefix);
        assert forall|i: int|
            0 <= i < data.len() implies {
            &&& fold_min(data).x <= (#[trigger] data[i]).x <= fold_max(data).x
            &&& fold_min(data).y <= data[i].y <= fold_max(data).y
            &&& fold_min(data).z <= data[i].z <= fold_max(data).z
            &&& fold_min(data).w <= data[i].w <= fold_max(data).w
        } by {
            if i < data.len() - 1 {
                assert(prefix[i] == data[i]);
            }
        }
        if fold_max(data).x != data.last().x {
            let j = choose|j: int| 0 <= j < prefix.len() && (#[trigger] prefix[j]).x == fold_max(
                prefix,
            ).x;
            assert((data[j]).x == fold_max(data).x);
        } else {
            assert((data[data.len() - 1]).x == fold_max(data).x);
        }
        if fold_max(data).y != data.last().y {
            let j = choose|j: int| 0 <= j < prefix.len() && (#[trigger] prefix[j]).y == fold_max(
                prefix,
            ).y;
            assert((data[j]).y == fold_max(data).y);
        } else {
            assert((data[data.len() - 1]).y == fold_max(data).y);
        }
        if fold_max(data).z != data.last().z {
            let j = choose|j: int| 0 <= j < prefix.len() && (#[trigger] prefix[j]).z == fold_max(
                prefix,
            ).z;
            assert((data[j]).z == fold_max(data).z);
        } else {
            assert((data[data.len() - 1]).z == fold_max(data).z);
        }
        if fold_max(data).w != data.last().w {
            let j = choose|j: int| 0 <= j < prefix.len() && (#[trigger] prefix[j]).w == fold_max(
                prefix,
            ).w;
            assert((data[j]).w == fold_max(data).w);
        } else {
            assert((data[data.len() - 1]).w == fold_max(data).w);
        }
        if fold_min(data).x != data.last().x {
            let j = choose|j: int| 0 <= j < prefix.len() && (#[trigger] prefix[j]).x == fold_min(
                prefix,
            ).x;
            assert((data[j]).x == fold_min(data).x);
        } else {
            assert((data[data.len() - 1]).x == fold_min(data).x);
        }
        if fold_min(data).y != data.last().y {
            let j = choose|j: int| 0 <= j < prefix.len() && (#[trigger] prefix[j]).y == fold_min(
                prefix,
            ).y;
            assert((data[j]).y == fold_min(data).y);
        } else {
            assert((data[data.len() - 1]).y == fold_min(data).y);
        }
        if fold_min(data).z != data.last().z {
            let j = choose|j: int| 0 <= j < prefix.len() && (#[trigger] prefix[j]).z == fold_min(
                prefix,
            ).z;
            assert((data[j]).z == fold_min(data).z);
        } else {
            assert((data[data.len() - 1]).z == fold_min(data).z);
        }
        if fold_min(data).w != data.last().w {
            let j = choose|j: int| 0 <= j < prefix.len() && (#[trigger] prefix[j]).w == fold_min(
                prefix,
            ).w;
            assert((data[j]).w == fold_min(data).w);
        } else {
            assert((data[data.len() - 1]).w == fold_min(data).w);
        }
    } else {
        assert(prefix.len() == 0);
        assert(fold_min(data) == data.last().spec_data_min(fold_min(prefix)));
        assert(fold_max(data) == data.last().spec_data_max(fold_max(prefix)));
        assert(data[0] == fold_min(data));
        assert(data[0] == fold_max(data));
    }
}

/// Min-max correctness for `Float2` elements, component by component over
/// the numeric ordering key: over a non-empty sequence of finite values, the
/// fold returns in each component exactly the numerically least and greatest
/// value observed in that component, each attained.
pub proof fn lemma_find_min_max_exact_float2(data: Seq<Float2>)
    requires
        data.len() > 0,
        forall|i: int|
            0 <= i < data.len() ==> {
                &&& spec_is_finite((#[trigger] data[i]).x.0)
                &&& spec_is_finite(data[i].y.0)
            },
    ensures
        forall|i: int|
            0 <= i < data.len() ==> {
                &&& spec_order_key(fold_min(data).x.0) <= spec_order_key((#[trigger] data[i]).x.0) <= spec_order_key(fold_max(data).x.0)
                &&& spec_order_key(fold_min(data).y.0) <= spec_order_key(data[i].y.0) <= spec_order_key(fold_max(data).y.0)
            },
        exists|i: int| 0 <= i < data.len() && (#[trigger] data[i]).x == fold_max(data).x,
        exists|i: int| 0 <= i < data.len() && (#[trigger] data[i]).x == fold_min(data).x,
        exists|i: int| 0 <= i < data.len() && (#[trigger] data[i]).y == fold_max(data).y,
        exists|i: int| 0 <= i < data.len() && (#[trigger] data[i]).y == fold_min(data).y,
    decreases data,
{
    let prefix = data.drop_last();
    if data.len() > 1 {
        assert forall|i: int| 0 <= i < prefix.len() implies {
            &&& spec_is_finite((#[trigger] prefix[i]).x.0)
            &&& spec_is_finite(prefix[i].y.0)
        } by {
            assert(prefix[i] == data[i]);
        }
        lemma_find_min_max_exact_float2(prefix);
        assert forall|i: int| 0 <= i < data.len() implies {
            &&& spec_order_key(fold_min(data).x.0) <= spec_order_key((#[trigger] data[i]).x.0) <= spec_order_key(fold_max(data).x.0)
            &&& spec_order_key(fold_min(data).y.0) <= spec_order_key(data[i].y.0) <= spec_order_key(fold_max(data).y.0)
        } by {
            if i < data.len() - 1 {
                assert(prefix[i] == data[i]);
            }
        }
        if fold_max(data).x != data.last().x {
            let j = choose|j: int| 0 <= j < prefix.len() && (#[trigger] prefix[j]).x == fold_max(
                prefix,
            ).x;
            assert((data[j]).x == fold_max(data).x);
        } else {
            assert((data[data.len() - 1]).x == fold_max(data).x);
        }
        if fold_max(data).y != data.last().y {
            let j = choose|j: int| 0 <= j < prefix.len() && (#[trigger] prefix[j]).y == fold_max(
                prefix,
            ).y;
            assert((data[j]).y == fold_max(data).y);
        } else {
            assert((data[data.len() - 1]).y == fold_max(data).y);
        }
        if fold_min(data).x != data.last().x {
            let j = choose|j: int| 0 <= j < prefix.len() && (#[trigger] prefix[j]).x == fold_min(
                prefix,
            ).x;
            assert((data[j]).x == fold_min(data).x);
        } else {
            assert((data[data.len() - 1]).x == fold_min(data).x);
        }
        if fold_min(data).y != data.last().y {
            let j = choose|j: int| 0 <= j < prefix.len() && (#[trigger] prefix[j]).y == fold_min(
                prefix,
            ).y;
            assert((data[j]).y == fold_min(data).y);
        } else {
            assert((data[data.len() - 1]).y == fold_min(data).y);
        }
    } else {
        assert(prefix.len() == 0);
        assert(fold_min(data).x == data.last().x.spec_data_min(fold_min(prefix).x));
        assert(fold_max(data).x == data.last().x.spec_data_max(fold_max(prefix).x));
        assert(fold_min(data).y == data.last().y.spec_data_min(fold_min(prefix).y));
        assert(fold_max(data).y == data.last().y.spec_data_max(fold_max(prefix).y));
        assert(data[0].x == fold_min(data).x);
        assert(data[0].x == fold_max(data).x);
        assert(data[0].y == fold_min(data).y);
        assert(data[0].y == fold_max(data).y);
    }
}

/// Min-max correctness for `Float3` elements, component by component over
/// the numeric ordering key: over a non-empty sequence of finite values, the
/// fold returns in each component exactly the numerically least and greatest
/// value observed in that component, each attained.
pub proof fn lemma_find_min_max_exact_float3(data: Seq<Float3>)
    requires
        data.len() > 0,
        forall|i: int|
            0 <= i < data.len() ==> {
                &&& spec_is_finite((#[trigger] data[i]).x.0)
                &&& spec_is_finite(data[i].y.0)
                &&& spec_is_finite(data[i].z.0)
            },
    ensures
        forall|i: int|
            0 <= i < data.len() ==> {
                &&& spec_order_key(fold_min(data).x.0) <= spec_order_key((#[trigger] data[i]).x.0) <= spec_order_key(fold_max(data).x.0)
                &&& spec_order_key(fold_min(data).y.0) <= spec_order_key(data[i].y.0) <= spec_order_key(fold_max(data).y.0)
                &&& spec_order_key(fold_min(data).z.0) <= spec_order_key(data[i].z.0) <= spec_order_key(fold_max(data).z.0)
            },
        exists|i: int| 0 <= i < data.len() && (#[trigger] data[i]).x == fold_max(data).x,
        exists|i: int| 0 <= i < data.len() && (#[trigger] data[i]).x == fold_min(data).x,
        exists|i: int| 0 <= i < data.len() && (#[trigger] data[i]).y == fold_max(data).y,
        exists|i: int| 0 <= i < data.len() && (#[trigger] data[i]).y == fold_min(data).y,
        exists|i: int| 0 <= i < data.len() && (#[trigger] data[i]).z == fold_max(data).z,
        exists|i: int| 0 <= i < data.len() && (#[trigger] data[i]).z == fold_min(data).z,
    decreases data,
{
    let prefix = data.drop_last();
    if data.len() > 1 {
        assert forall|i: int| 0 <= i < prefix.len() implies {
            &&& spec_is_finite((#[trigger] prefix[i]).x.0)
            &&& spec_is_finite(prefix[i].y.0)
            &&& spec_is_finite(prefix[i].z.0)
        } by {
            assert(prefix[i] == data[i]);
        }
        lemma_find_min_max_exact_float3(prefix);
        assert forall|i: int| 0 <= i < data.len() implies {
            &&& spec_order_key(fold_min(data).x.0) <= spec_order_key((#[trigger] data[i]).x.0) <= spec_order_key(fold_max(data).x.0)
            &&& spec_order_key(fold_min(data).y.0) <= spec_order_key(data[i].y.0) <= spec_order_key(fold_max(data).y.0)
            &&& spec_order_key(fold_min(data).z.0) <= spec_order_key(data[i].z.0) <= spec_order_key(fold_max(data).z.0)
        } by {
            if i < data.len() - 1 {
                assert(prefix[i] == data[i]);
            }
        }
        if fold_max(data).x != data.last().x {
            let j = choose|j: int| 0 <= j < prefix.len() && (#[trigger] prefix[j]).x == fold_max(
                prefix,
            ).x;
            assert((data[j]).x == fold_max(data).x);
        } else {
            assert((data[data.len() - 1]).x == fold_max(data).x);
        }
        if fold_max(data).y != data.last().y {
            let j = choose|j: int| 0 <= j < prefix.len() && (#[trigger] prefix[j]).y == fold_max(
                prefix,
            ).y;
            assert((data[j]).y == fold_max(data).y);
        } else {
            assert((data[data.len() - 1]).y == fold_max(data).y);
        }
        if fold_max(data).z != data.last().z {
            let j = choose|j: int| 0 <= j < prefix.len() && (#[trigger] prefix[j]).z == fold_max(
                prefix,
            ).z;
            assert((data[j]).z == fold_max(data).z);
        } else {
            assert((data[data.len() - 1]).z == fold_max(data).z);
        }
        if fold_min(data).x != data.last().x {
            let j = choose|j: int| 0 <= j < prefix.len() && (#[trigger] prefix[j]).x == fold_min(
                prefix,
            ).x;
            assert((data[j]).x == fold_min(data).x);
        } else {
            assert((data[data.len() - 1]).x == fold_min(data).x);
        }
        if fold_min(data).y != data.last().y {
            let j = choose|j: int| 0 <= j < prefix.len() && (#[trigger] prefix[j]).y == fold_min(
                prefix,
            ).y;
            assert((data[j]).y == fold_min(data).y);
        } else {
            assert((data[data.len() - 1]).y == fold_min(data).y);
        }
        if fold_min(data).z != data.last().z {
            let j = choose|j: int| 0 <= j < prefix.len() && (#[trigger] prefix[j]).z == fold_min(
                prefix,
            ).z;
            assert((data[j]).z == fold_min(data).z);
        } else {
            assert((data[data.len() - 1]).z == fold_min(data).z);
        }
    } else {
        assert(prefix.len() == 0);
        assert(fold_min(data).x == data.last().x.spec_data_min(fold_min(prefix).x));
        assert(fold_max(data).x == data.last().x.spec_data_max(fold_max(prefix).x));
        assert(fold_min(data).y == data.last().y.spec_data_min(fold_min(prefix).y));
        assert(fold_max(data).y == data.last().y.spec_data_max(fold_max(prefix).y));
        assert(fold_min(data).z == data.last().z.spec_data_min(fold_min(prefix).z));
        assert(fold_max(data).z == data.last().z.spec_data_max(fold_max(prefix).z));
        assert(data[0].x == fold_min(data).x);
        assert(data[0].x == fold_max(data).x);
        assert(data[0].y == fold_min(data).y);
        assert(data[0].y == fold_max(data).y);
        assert(data[0].z == fold_min(data).z);
        assert(data[0].z == fold_max(data).z);
    }
}

/// Min-max correctness for `Float4` elements, component by component over
/// the numeric ordering key: over a non-empty sequence of finite values, the
/// fold returns in each component exactly the numerically least and greatest
/// value observed in that component, each attained.
pub proof fn lemma_find_min_max_exact_float4(data: Seq<Float4>)
    requires
        data.len() > 0,
        forall|i: int|
            0 <= i < data.len() ==> {
                &&& spec_is_finite((#[trigger] data[i]).x.0)
                &&& spec_is_finite(data[i].y.0)
                &&& spec_is_finite(data[i].z.0)
                &&& spec_is_finite(data[i].w.0)
            },
    ensures
        forall|i: int|
            0 <= i < data.len() ==> {
                &&& spec_order_key(fold_min(data).x.0) <= spec_order_key((#[trigger] data[i]).x.0) <= spec_order_key(fold_max(data).x.0)
                &&& spec_order_key(fold_min(data).y.0) <= spec_order_key(data[i].y.0) <= spec_order_key(fold_max(data).y.0)
                &&& spec_order_key(fold_min(data).z.0) <= spec_order_key(data[i].z.0) <= spec_order_key(fold_max(data).z.0)
                &&& spec_order_key(fold_min(data).w.0) <= spec_order_key(data[i].w.0) <= spec_order_key(fold_max(data).w.0)
            },
        exists|i: int| 0 <= i < data.len() && (#[trigger] data[i]).x == fold_max(data).x,
        exists|i: int| 0 <= i < data.len() && (#[trigger] data[i]).x == fold_min(data).x,
        exists|i: int| 0 <= i < data.len() && (#[trigger] data[i]).y == fold_max(data).y,
        exists|i: int| 0 <= i < data.len() && (#[trigger] data[i]).y == fold_min(data).y,
        exists|i: int| 0 <= i < data.len() && (#[trigger] data[i]).z == fold_max(data).z,
        exists|i: int| 0 <= i < data.len() && (#[trigger] data[i]).z == fold_min(data).z,
        exists|i: int| 0 <= i < data.len() && (#[trigger] data[i]).w == fold_max(data).w,
        exists|i: int| 0 <= i < data.len() && (#[trigger] data[i]).w == fold_min(data).w,
    decreases data,
{
    let prefix = data.drop_last();
    if data.len() > 1 {
        assert forall|i: int| 0 <= i < prefix.len() implies {
            &&& spec_is_finite((#[trigger] prefix[i]).x.0)
            &&& spec_is_finite(prefix[i].y.0)
            &&& spec_is_finite(prefix[i].z.0)
            &&& spec_is_finite(prefix[i].w.0)
        } by {
            assert(prefix[i] == data[i]);
        }
        lemma_find_min_max_exact_float4(prefix);
        assert forall|i: int| 0 <= i < data.len() implies {
            &&& spec_order_key(fold_min(data).x.0) <= spec_order_key((#[trigger] data[i]).x.0) <= spec_order_key(fold_max(data).x.0)
            &&& spec_order_key(fold_min(data).y.0) <= spec_order_key(data[i].y.0) <= spec_order_key(fold_max(data).y.0)
            &&& spec_order_key(fold_min(data).z.0) <= spec_order_key(data[i].z.0) <= spec_order_key(fold_max(data).z.0)
            &&& spec_order_key(fold_min(data).w.0) <= spec_order_key(data[i].w.0) <= spec_order_key(fold_max(data).w.0)
        } by {
            if i < data.len() - 1 {
                assert(prefix[i] == data[i]);
            }
        }
        if fold_max(data).x != data.last().x {
            let j = choose|j: int| 0 <= j < prefix.len() && (#[trigger] prefix[j]).x == fold_max(
                prefix,
            ).x;
            assert((data[j]).x == fold_max(data).x);
        } else {
            assert((data[data.len() - 1]).x == fold_max(data).x);
        }
        if fold_max(data).y != data.last().y {
            let j = choose|j: int| 0 <= j < prefix.len() && (#[trigger] prefix[j]).y == fold_max(
                prefix,
            ).y;
            assert((data[j]).y == fold_max(data).y);
        } else {
            assert((data[data.len() - 1]).y == fold_max(data).y);
        }
        if fold_max(data).z != data.last().z {
            let j = choose|j: int| 0 <= j < prefix.len() && (#[trigger] prefix[j]).z == fold_max(
                prefix,
            ).z;
            assert((data[j]).z == fold_max(data).z);
        } else {
            assert((data[data.len() - 1]).z == fold_max(data).z);
        }
        if fold_max(data).w != data.last().w {
            let j = choose|j: int| 0 <= j < prefix.len() && (#[trigger] prefix[j]).w == fold_max(
                prefix,
            ).w;
            assert((data[j]).w == fold_max(data).w);
        } else {
            assert((data[data.len() - 1]).w == fold_max(data).w);
        }
        if fold_min(data).x != data.last().x {
            let j = choose|j: int| 0 <= j < prefix.len() && (#[trigger] prefix[j]).x == fold_min(
                prefix,
            ).x;
            assert((data[j]).x == fold_min(data).x);
        } else {
            assert((data[data.len() - 1]).x == fold_min(data).x);
        }
        if fold_min(data).y != data.last().y {
            let j = choose|j: int| 0 <= j < prefix.len() && (#[trigger] prefix[j]).y == fold_min(
                prefix,
            ).y;
            assert((data[j]).y == fold_min(data).y);
        } else {
            assert((data[data.len() - 1]).y == fold_min(data).y);
        }
        if fold_min(data).z != data.last().z {
            let j = choose|j: int| 0 <= j < prefix.len() && (#[trigger] prefix[j]).z == fold_min(
                prefix,
            ).z;
            assert((data[j]).z == fold_min(data).z);
        } else {
            assert((data[data.len() - 1]).z == fold_min(data).z);
        }
        if fold_min(data).w != data.last().w {
            let j = choose|j: int| 0 <= j < prefix.len() && (#[trigger] prefix[j]).w == fold_min(
                prefix,
            ).w;
            assert((data[j]).w == fold_min(data).w);
        } else {
            assert((data[data.len() - 1]).w == fold_min(data).w);
        }
    } else {
        assert(prefix.len() == 0);
        assert(fold_min(data).x == data.last().x.spec_data_min(fold_min(prefix).x));
        assert(fold_max(data).x == data.last().x.spec_data_max(fold_max(prefix).x));
        assert(fold_min(data).y == data.last().y.spec_data_min(fold_min(prefix).y));
        assert(fold_max(data).y == data.last().y.spec_data_max(fold_max(prefix).y));
        assert(fold_min(data).z == data.last().z.spec_data_min(fold_min(prefix).z));
        assert(fold_max(data).z == data.last().z.spec_data_max(fold_max(prefix).z));
        assert(fold_min(data).w == data.last().w.spec_data_min(fold_min(prefix).w));
        assert(fold_max(data).w == data.last().w.spec_data_max(fold_max(prefix).w));
        assert(data[0].x == fold_min(data).x);
        assert(data[0].x == fold_max(data).x);
        assert(data[0].y == fold_min(data).y);
        assert(data[0].y == fold_max(data).y);
        assert(data[0].z == fold_min(data).z);
        assert(data[0].z == fold_max(data).z);
        assert(data[0].w == fold_min(data).w);
        assert(data[0].w == fold_max(data).w);
    }
}

} // verus!
