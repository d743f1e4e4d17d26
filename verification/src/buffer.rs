//! The typed binary buffer writer.
//!
//! Typed numeric data is packed into a single growing little-endian byte
//! buffer; each packing call records a view (a byte range of the buffer) and
//! accessors describe how to reinterpret a sub-range of a view as typed
//! elements. Views and accessors live in arenas, so every handle is a stable
//! integer position.
use vstd::arithmetic::mul::{lemma_mul_inequality, lemma_mul_is_distributive_add_other_way};
use vstd::prelude::*;

use crate::json::{JsonModel, JsonValue};
use crate::storage::{Storage, StorageIndex};

verus! {

/// Usage hint of a buffer view: vertex-attribute data or index data.
#[derive(Clone, Copy, Debug, PartialEq, Eq, Structural)]
pub enum BufferViewTarget {
    ArrayBuffer,
    ElementArrayBuffer,
}

impl BufferViewTarget {
    /// The schema's integer code for this usage hint.
    pub open spec fn spec_code(self) -> u64 {
        match self {
            BufferViewTarget::ArrayBuffer => 34962,
            BufferViewTarget::ElementArrayBuffer => 34963,
        }
    }

    /// Returns the schema's integer code for this usage hint.
    #[verifier::when_used_as_spec(spec_code)]
    pub fn code(self) -> (r: u64)
        ensures
            r == self.spec_code(),
    {
        match self {
            BufferViewTarget::ArrayBuffer => 34962,
            BufferViewTarget::ElementArrayBuffer => 34963,
        }
    }
}

/// The scalar numeric encoding of one element's components, with the schema's
/// published integer code for each.
#[derive(Clone, Copy, Debug, PartialEq, Eq, Structural)]
pub enum AccessorComponentType {
    SignedByte,
    UnsignedByte,
    SignedShort,
    UnsignedShort,
    UnsignedInt,
    Float,
}

impl AccessorComponentType {
    /// The schema's integer code for this component type.
    pub open spec fn spec_code(self) -> u64 {
        match self {
            AccessorComponentType::SignedByte => 5120,
            AccessorComponentType::UnsignedByte => 5121,
            AccessorComponentType::SignedShort => 5122,
            AccessorComponentType::UnsignedShort => 5123,
            AccessorComponentType::UnsignedInt => 5125,
            AccessorComponentType::Float => 5126,
        }
    }

    /// Returns the schema's integer code for this component type.
    #[verifier::when_used_as_spec(spec_code)]
    pub fn code(self) -> (r: u64)
        ensures
            r == self.spec_code(),
    {
        match self {
            AccessorComponentType::SignedByte => 5120,
            AccessorComponentType::UnsignedByte => 5121,
            AccessorComponentType::SignedShort => 5122,
            AccessorComponentType::UnsignedShort => 5123,
            AccessorComponentType::UnsignedInt => 5125,
            AccessorComponentType::Float => 5126,
        }
    }
}

impl Default for AccessorComponentType {
    fn default() -> (r: Self)
        ensures
            r == AccessorComponentType::Float,
    {
        AccessorComponentType::Float
    }
}

/// The scalar/vector/matrix arity of one accessor element, with the schema's
/// published string code for each.
#[derive(Clone, Copy, Debug, PartialEq, Eq, Structural)]
pub enum AccessorDataType {
    Scalar,
    Vec2,
    Vec3,
    Vec4,
    Mat2,
    Mat3,
    Mat4,
}

impl AccessorDataType {
    /// The schema's string code for this element shape.
    pub open spec fn spec_name(self) -> Seq<char> {
        match self {
            AccessorDataType::Scalar => "SCALAR"@,
            AccessorDataType::Vec2 => "VEC2"@,
            AccessorDataType::Vec3 => "VEC3"@,
            AccessorDataType::Vec4 => "VEC4"@,
            AccessorDataType::Mat2 => "MAT2"@,
            AccessorDataType::Mat3 => "MAT3"@,
            AccessorDataType::Mat4 => "MAT4"@,
        }
    }

    /// Returns the schema's string code for this element shape.
    pub fn name(self) -> (r: &'static str)
        ensures
            r@ == self.spec_name(),
    {
        match self {
            AccessorDataType::Scalar => "SCALAR",
            AccessorDataType::Vec2 => "VEC2",
            AccessorDataType::Vec3 => "VEC3",
            AccessorDataType::Vec4 => "VEC4",
            AccessorDataType::Mat2 => "MAT2",
            AccessorDataType::Mat3 => "MAT3",
            AccessorDataType::Mat4 => "MAT4",
        }
    }
}

impl Default for AccessorDataType {
    fn default() -> (r: Self)
        ensures
            r == AccessorDataType::Scalar,
    {
        AccessorDataType::Scalar
    }
}

/// An elementwise (minimum, maximum) pair.
#[derive(Clone, Copy, Debug)]
pub struct MinMax<T> {
    pub min: T,
    pub max: T,
}

/// A type that can be packed into the binary buffer: it declares its exact
/// little-endian byte encoding, its size, its schema tags and its stride.
pub trait BufferType: Sized {
    /// The exact byte encoding of one element.
    spec fn spec_bytes(self) -> Seq<u8>;

    /// How many bytes one encoded element occupies.
    spec fn spec_size() -> nat;

    /// Reads an element back from its encoding; the inverse of `spec_bytes`.
    spec fn spec_decode(bytes: Seq<u8>) -> Self;

    /// The component type tag of this element type.
    spec fn spec_component_ty() -> AccessorComponentType;

    /// The element shape tag of this element type.
    spec fn spec_data_ty() -> AccessorDataType;

    /// The per-element stride recorded for views of this element type:
    /// present exactly for fixed-stride aggregates.
    spec fn spec_stride() -> Option<usize>;

    /// Every element encodes to exactly `spec_size` bytes.
    proof fn lemma_bytes_len(self)
        ensures
            self.spec_bytes().len() == Self::spec_size(),
            Self::spec_size() > 0,
    ;

    /// Round trip: decoding an element's encoding yields the element.
    proof fn lemma_round_trip(self)
        ensures
            Self::spec_decode(self.spec_bytes()) == self,
    ;

    /// Encodes one element as its exact little-endian byte sequence.
    fn to_bytes(&self) -> (r: Vec<u8>)
        ensures
            r@ == self.spec_bytes(),
    ;

    /// The stride recorded for views of this element type.
    fn stride() -> (r: Option<usize>)
        ensures
            r == Self::spec_stride(),
    ;

    /// The component type tag of this element type.
    fn component_ty() -> (r: AccessorComponentType)
        ensures
            r == Self::spec_component_ty(),
    ;

    /// The element shape tag of this element type.
    fn data_ty() -> (r: AccessorDataType)
        ensures
            r == Self::spec_data_ty(),
    ;
}

/// A buffer-packable type with an elementwise min/max combinator, identity
/// elements for the fold, and a numeric-array rendering of a bound.
pub trait BufferTypeMinMax: BufferType {
    /// The identity of the max fold: the type's smallest value.
    spec fn spec_max_identity() -> Self;

    /// The identity of the min fold: the type's largest value.
    spec fn spec_min_identity() -> Self;

    /// The elementwise maximum of two elements.
    spec fn spec_data_max(self, other: Self) -> Self;

    /// The elementwise minimum of two elements.
    spec fn spec_data_min(self, other: Self) -> Self;

    /// The numeric array a bound of this type renders as, matching the
    /// element shape.
    spec fn spec_bound_json(self) -> JsonModel;

    /// The identity of the max fold.
    fn max_identity() -> (r: Self)
        ensures
            r == Self::spec_max_identity(),
    ;

    /// The identity of the min fold.
    fn min_identity() -> (r: Self)
        ensures
            r == Self::spec_min_identity(),
    ;

    /// Computes the elementwise maximum of `self` and `other`.
    fn data_max(&self, other: &Self) -> (r: Self)
        ensures
            r == self.spec_data_max(*other),
    ;

    /// Computes the elementwise minimum of `self` and `other`.
    fn data_min(&self, other: &Self) -> (r: Self)
        ensures
            r == self.spec_data_min(*other),
    ;

    /// Renders a bound of this type as its numeric array.
    fn bound_json(&self) -> (r: JsonValue)
        ensures
            r.model() == self.spec_bound_json(),
    ;
}

/// The concatenated encodings of a sequence of elements, in order.
pub open spec fn seq_bytes<T: BufferType>(data: Seq<T>) -> Seq<u8>
    decreases data,
{
    if data.len() == 0 {
        Seq::empty()
    } else {
        seq_bytes(data.drop_last()) + data.last().spec_bytes()
    }
}

/// Packing `n` elements yields exactly `n` times the element size in bytes.
pub proof fn lemma_seq_bytes_len<T: BufferType>(data: Seq<T>)
    ensures
        seq_bytes(data).len() == data.len() * T::spec_size(),
    decreases data,
{
    if data.len() == 0 {
    } else {
        lemma_seq_bytes_len::<T>(data.drop_last());
        data.last().lemma_bytes_len();
        lemma_mul_is_distributive_add_other_way(
            T::spec_size() as int,
            data.len() - 1,
            1,
        );
    }
}

/// Round-trip packing: decoding the packed bytes at each stride-aligned
/// position reproduces the original element exactly.
pub proof fn lemma_packed_round_trip<T: BufferType>(data: Seq<T>, i: int)
    requires
        0 <= i < data.len(),
    ensures
        T::spec_decode(
            seq_bytes(data).subrange(
                i * T::spec_size(),
                (i + 1) * T::spec_size(),
            ),
        ) == data[i],
    decreases data,
{
    let size = T::spec_size() as int;
    lemma_seq_bytes_len::<T>(data);
    lemma_seq_bytes_len::<T>(data.drop_last());
    data.last().lemma_bytes_len();
    lemma_mul_is_distributive_add_other_way(size, data.len() - 1, 1);
    if i == data.len() - 1 {
        assert(seq_bytes(data).subrange(i * size, (i + 1) * size) =~= data.last().spec_bytes());
        data.last().lemma_round_trip();
    } else {
        lemma_mul_inequality(i + 1, data.len() - 1, size);
        lemma_mul_inequality(0, i, size);
        lemma_packed_round_trip::<T>(data.drop_last(), i);
        lemma_mul_is_distributive_add_other_way(size, i, 1);
        assert(0 <= i * size);
        assert((i + 1) * size == i * size + size);
        assert((i + 1) * size <= (data.len() - 1) * size);
        assert(seq_bytes(data.drop_last()).len() == (data.len() - 1) * size);
        assert(seq_bytes(data).len() == data.len() * size);
        assert((data.len() - 1) * size + size == data.len() * size);
        assert(seq_bytes(data) == seq_bytes(data.drop_last()) + data.last().spec_bytes());
        assert forall|k: int|
            0 <= k < seq_bytes(data.drop_last()).len() implies seq_bytes(data)[k] == seq_bytes(
            data.drop_last(),
        )[k] by {
            assert((seq_bytes(data.drop_last()) + data.last().spec_bytes())[k] == seq_bytes(
                data.drop_last(),
            )[k]);
        }
        assert(seq_bytes(data).subrange(i * size, (i + 1) * size) =~= seq_bytes(
            data.drop_last(),
        ).subrange(i * size, (i + 1) * size));
    }
}

/// The running maximum of a sequence, folded in call order from the max
/// identity (the type's smallest value).
pub open spec fn fold_max<T: BufferTypeMinMax>(data: Seq<T>) -> T
    decreases data,
{
    if data.len() == 0 {
        T::spec_max_identity()
    } else {
        data.last().spec_data_max(fold_max(data.drop_last()))
    }
}

/// The running minimum of a sequence, folded in call order from the min
/// identity (the type's largest value).
pub open spec fn fold_min<T: BufferTypeMinMax>(data: Seq<T>) -> T
    decreases data,
{
    if data.len() == 0 {
        T::spec_min_identity()
    } else {
        data.last().spec_data_min(fold_min(data.drop_last()))
    }
}

/// A buffer-packable type whose elementwise (minimum, maximum) can be folded
/// over a slice.
pub trait BufferTypeEx: BufferTypeMinMax + Copy {
    /// Folds a slice into its elementwise (minimum, maximum) pair. For an
    /// empty slice this returns the inverted identity pair (largest, smallest),
    /// which callers must treat as "no bound".
    fn find_min_max(data: &[Self]) -> (r: (Self, Self))
        ensures
            r.0 == fold_min(data@),
            r.1 == fold_max(data@),
    ;
}

impl<T: BufferTypeMinMax + Copy> BufferTypeEx for T {
    fn find_min_max(data: &[T]) -> (r: (T, T)) {
        let mut max = T::max_identity();
        let mut min = T::min_identity();
        let n = data.len();
        let mut k: usize = 0;
        while k < n
            invariant
                n == data@.len(),
                k <= n,
                max == fold_max(data@.take(k as int)),
                min == fold_min(data@.take(k as int)),
            decreases n - k,
        {
            let item = &data[k];
            max = item.data_max(&max);
            min = item.data_min(&min);
            proof {
                assert(data@.take(k + 1 as int).drop_last() =~= data@.take(k as int));
                assert(data@.take(k + 1 as int).last() == data@[k as int]);
            }
            k = k + 1;
        }
        proof {
            assert(data@.take(n as int) =~= data@);
        }
        (min, max)
    }
}

/// A pair of freshly allocated view and accessor handles.
#[derive(Clone, Copy, Debug)]
pub struct BufferViewAndAccessorPair {
    pub view: BufferViewIndex,
    pub accessor: AccessorIndex,
}

impl BufferViewAndAccessorPair {
    /// Pairs up a view handle and an accessor handle.
    pub fn new(view: BufferViewIndex, accessor: AccessorIndex) -> (r: Self)
        ensures
            r.view.0 == view.0,
            r.accessor.0 == accessor.0,
    {
        BufferViewAndAccessorPair { view, accessor }
    }
}

/// A byte range of the shared buffer: source buffer index (always 0 in this
/// single-buffer model), offset, length, optional stride and usage hint.
/// Created once and immutable afterwards.
#[derive(Clone, Copy, Debug)]
pub struct BufferView {
    pub buffer: usize,
    pub byte_offset: usize,
    pub byte_len: usize,
    pub stride: Option<usize>,
    pub target: Option<BufferViewTarget>,
}

/// A typed description of a sub-range of a view: owning view position, byte
/// offset within the view, element count, the two schema tags, and optional
/// bounds already rendered as numeric arrays.
#[derive(Debug)]
pub struct Accessor {
    pub buffer_view: usize,
    pub byte_offset: usize,
    pub count: usize,
    pub component_ty: AccessorComponentType,
    pub ty: AccessorDataType,
    pub min_max: Option<MinMax<JsonValue>>,
}

pub type BufferViewIndex = StorageIndex<BufferView>;

pub type AccessorIndex = StorageIndex<Accessor>;

/// Mathematical state of a buffer writer: the packed bytes and the two
/// arenas' contents.
#[verifier::ext_equal]
pub struct BufferWriterModel {
    pub buffer: Seq<u8>,
    pub views: Seq<BufferView>,
    pub accessors: Seq<Accessor>,
}

/// Where the byte range of view `i` must end: at the byte offset of its
/// successor, or at the end of the buffer for the last view.
pub open spec fn view_end(views: Seq<BufferView>, i: int) -> int {
    if i == 0 {
        0
    } else {
        views[i - 1].byte_offset + views[i - 1].byte_len
    }
}

/// The views tile the buffer: each view starts where the previous one ended,
/// the first starts at offset 0, and together they cover the buffer exactly.
pub open spec fn views_tile(views: Seq<BufferView>, buffer_len: nat) -> bool {
    &&& forall|i: int|
        0 <= i < views.len() ==> (#[trigger] views[i]).byte_offset == view_end(views, i)
    &&& view_end(views, views.len() as int) == buffer_len
    &&& forall|i: int| 0 <= i < views.len() ==> (#[trigger] views[i]).buffer == 0
}

/// Owns the single growing byte buffer and the arenas of views and accessors.
pub struct BufferWriter {
    buffer: Vec<u8>,
    views: Storage<BufferView>,
    accessors: Storage<Accessor>,
}

impl View for BufferWriter {
    type V = BufferWriterModel;

    closed spec fn view(&self) -> BufferWriterModel {
        BufferWriterModel {
            buffer: self.buffer@,
            views: self.views@,
            accessors: self.accessors@,
        }
    }
}

impl BufferWriter {
    /// The writer's invariant: its views tile the packed buffer.
    pub open spec fn wf(self) -> bool {
        views_tile(self@.views, self@.buffer.len())
    }

    /// An empty writer: no bytes, no views, no accessors.
    pub fn new() -> (r: Self)
        ensures
            r.wf(),
            r@.buffer == Seq::<u8>::empty(),
            r@.views == Seq::<BufferView>::empty(),
            r@.accessors == Seq::<Accessor>::empty(),
    {
        BufferWriter { buffer: Vec::new(), views: Storage::new(), accessors: Storage::new() }
    }

    /// Encodes every element of `data`, appends the bytes contiguously to the
    /// buffer, and records a view of exactly that byte range: its offset is
    /// the buffer's length before the call, which makes every view's range
    /// disjoint from every other view's.
    pub fn create_view<T: BufferType + Copy>(
        &mut self,
        data: &[T],
        target: Option<BufferViewTarget>,
    ) -> (r: BufferViewIndex)
        requires
            old(self).wf(),
        ensures
            final(self).wf(),
            final(self)@.buffer == old(self)@.buffer + seq_bytes(data@),
            final(self)@.buffer.len() <= usize::MAX,
            final(self)@.views == old(self)@.views.push(final(self)@.views.last()),
            ({
                let v = final(self)@.views.last();
                &&& v.buffer == 0
                &&& v.byte_offset == old(self)@.buffer.len()
                &&& v.byte_len == seq_bytes(data@).len()
                &&& v.stride == T::spec_stride()
                &&& v.target == target
            }),
            final(self)@.accessors == old(self)@.accessors,
            r.0 == old(self)@.views.len(),
    {
        let offset = self.buffer.len();
        let n = data.len();
        let mut k: usize = 0;
        while k < n
            invariant
                n == data@.len(),
                k <= n,
                self.buffer@ == old(self).buffer@ + seq_bytes(data@.take(k as int)),
                self.views@ == old(self).views@,
                self.accessors@ == old(self).accessors@,
            decreases n - k,
        {
            let mut bytes = data[k].to_bytes();
            self.buffer.append(&mut bytes);
            proof {
                assert(data@.take(k + 1 as int).drop_last() =~= data@.take(k as int));
                assert(data@.take(k + 1 as int).last() == data@[k as int]);
                assert(self.buffer@ =~= old(self).buffer@ + seq_bytes(data@.take(k + 1 as int)));
            }
            k = k + 1;
        }
        proof {
            assert(data@.take(n as int) =~= data@);
        }
        let byte_len = self.buffer.len() - offset;
        let index = self.views.allocate_with(
            BufferView { buffer: 0, byte_offset: offset, byte_len, stride: T::stride(), target },
        );
        proof {
            let views = self@.views;
            assert forall|i: int|
                0 <= i < views.len() implies (#[trigger] views[i]).byte_offset == view_end(
                views,
                i,
            ) by {
                if i < views.len() - 1 {
                    assert(old(self)@.views[i] == views[i]);
                }
            }
        }
        index
    }

    /// Records an accessor over `len` elements of type `T`, starting
    /// `byte_offset` bytes into the view at `view_index`, without bounds.
    /// Whether the described range lies inside the view is the caller's
    /// obligation; nothing is re-checked here.
    pub fn create_accessor<T: BufferType + Copy>(
        &mut self,
        view_index: BufferViewIndex,
        byte_offset: usize,
        len: usize,
    ) -> (r: AccessorIndex)
        ensures
            final(self)@.accessors == old(self)@.accessors.push(
                Accessor {
                    buffer_view: view_index.0,
                    byte_offset,
                    count: len,
                    component_ty: T::spec_component_ty(),
                    ty: T::spec_data_ty(),
                    min_max: None,
                },
            ),
            final(self)@.buffer == old(self)@.buffer,
            final(self)@.views == old(self)@.views,
            final(self).wf() == old(self).wf(),
            r.0 == old(self)@.accessors.len(),
    {
        self.accessors.allocate_with(
            Accessor {
                buffer_view: view_index.0,
                byte_offset,
                count: len,
                component_ty: T::component_ty(),
                ty: T::data_ty(),
                min_max: None,
            },
        )
    }

    /// Records an accessor as [`Self::create_accessor`] does, with the given
    /// bounds attached, rendered as numeric arrays matching the element shape.
    pub fn create_accessor_with_min_max<T: BufferTypeMinMax + Copy>(
        &mut self,
        view_index: BufferViewIndex,
        byte_offset: usize,
        len: usize,
        min_max: MinMax<T>,
    ) -> (r: AccessorIndex)
        ensures
            final(self)@.accessors == old(self)@.accessors.push(final(self)@.accessors.last()),
            ({
                let a = final(self)@.accessors.last();
                &&& a.buffer_view == view_index.0
                &&& a.byte_offset == byte_offset
                &&& a.count == len
                &&& a.component_ty == T::spec_component_ty()
                &&& a.ty == T::spec_data_ty()
                &&& a.min_max matches Some(mm) && mm.min.model() == min_max.min.spec_bound_json()
                    && mm.max.model() == min_max.max.spec_bound_json()
            }),
            final(self)@.buffer == old(self)@.buffer,
            final(self)@.views == old(self)@.views,
            final(self).wf() == old(self).wf(),
            r.0 == old(self)@.accessors.len(),
    {
        self.accessors.allocate_with(
            Accessor {
                buffer_view: view_index.0,
                byte_offset,
                count: len,
                component_ty: T::component_ty(),
                ty: T::data_ty(),
                min_max: Some(
                    MinMax { min: min_max.min.bound_json(), max: min_max.max.bound_json() },
                ),
            },
        )
    }

    /// Packs `data` as a fresh view and an accessor covering the whole view:
    /// offset 0 and count equal to the number of elements.
    pub fn create_view_and_accessor<T: BufferType + Copy>(
        &mut self,
        data: &[T],
        target: Option<BufferViewTarget>,
    ) -> (r: BufferViewAndAccessorPair)
        requires
            old(self).wf(),
        ensures
            final(self).wf(),
            final(self)@.buffer == old(self)@.buffer + seq_bytes(data@),
            final(self)@.views == old(self)@.views.push(final(self)@.views.last()),
            ({
                let v = final(self)@.views.last();
                &&& v.byte_offset == old(self)@.buffer.len()
                &&& v.byte_len == seq_bytes(data@).len()
                &&& v.stride == T::spec_stride()
                &&& v.target == target
            }),
            final(self)@.accessors == old(self)@.accessors.push(
                Accessor {
                    buffer_view: old(self)@.views.len() as usize,
                    byte_offset: 0,
                    count: data@.len() as usize,
                    component_ty: T::spec_component_ty(),
                    ty: T::spec_data_ty(),
                    min_max: None,
                },
            ),
            r.view.0 == old(self)@.views.len(),
            r.accessor.0 == old(self)@.accessors.len(),
    {
        let view = self.create_view(data, target);
        let accessor = self.create_accessor::<T>(view, 0, data.len());
        BufferViewAndAccessorPair::new(view, accessor)
    }

    /// Packs `data` as a fresh view and an accessor covering the whole view,
    /// with bounds computed by the min/max fold over the full slice. For an
    /// empty slice the attached bounds are the inverted identity pair.
    pub fn create_view_and_accessor_with_min_max<T: BufferTypeMinMax + Copy>(
        &mut self,
        data: &[T],
        target: Option<BufferViewTarget>,
    ) -> (r: BufferViewAndAccessorPair)
        requires
            old(self).wf(),
        ensures
            final(self).wf(),
            final(self)@.buffer == old(self)@.buffer + seq_bytes(data@),
            final(self)@.views == old(self)@.views.push(final(self)@.views.last()),
            ({
                let v = final(self)@.views.last();
                &&& v.byte_offset == old(self)@.buffer.len()
                &&& v.byte_len == seq_bytes(data@).len()
                &&& v.stride == T::spec_stride()
                &&& v.target == target
            }),
            final(self)@.accessors == old(self)@.accessors.push(final(self)@.accessors.last()),
            ({
                let a = final(self)@.accessors.last();
                &&& a.buffer_view == old(self)@.views.len()
                &&& a.byte_offset == 0
                &&& a.count == data@.len()
                &&& a.component_ty == T::spec_component_ty()
                &&& a.ty == T::spec_data_ty()
                &&& a.min_max matches Some(mm) && mm.min.model() == fold_min(
                    data@,
                ).spec_bound_json() && mm.max.model() == fold_max(data@).spec_bound_json()
            }),
            r.view.0 == old(self)@.views.len(),
            r.accessor.0 == old(self)@.accessors.len(),
    {
        let view = self.create_view(data, target);
        let (min, max) = T::find_min_max(data);
        let min_max = MinMax { min, max };
        let accessor = self.create_accessor_with_min_max(view, 0, data.len(), min_max);
        BufferViewAndAccessorPair::new(view, accessor)
    }

    /// How many bytes have been packed so far.
    pub fn buffer_len(&self) -> (r: usize)
        ensures
            r == self@.buffer.len(),
    {
        self.buffer.len()
    }

    /// Consumes the writer and hands out the packed byte buffer.
    pub fn to_inner(self) -> (r: Vec<u8>)
        ensures
            r@ == self@.buffer,
    {
        self.buffer
    }

    /// The packed bytes, read-only.
    pub fn data(&self) -> (r: &[u8])
        ensures
            r@ == self@.buffer,
    {
        self.buffer.as_slice()
    }

    /// The recorded views, in allocation order.
    pub fn views(&self) -> (r: &Storage<BufferView>)
        ensures
            r@ == self@.views,
    {
        &self.views
    }

    /// The recorded accessors, in allocation order.
    pub fn accessors(&self) -> (r: &Storage<Accessor>)
        ensures
            r@ == self@.accessors,
    {
        &self.accessors
    }
}

impl Default for BufferWriter {
    fn default() -> (r: Self)
        ensures
            r.wf(),
            r@.buffer == Seq::<u8>::empty(),
            r@.views == Seq::<BufferView>::empty(),
            r@.accessors == Seq::<Accessor>::empty(),
    {
        BufferWriter::new()
    }
}

impl Default for BufferView {
    fn default() -> (r: Self)
        ensures
            r.buffer == 0,
            r.byte_offset == 0,
            r.byte_len == 0,
            r.stride is None,
            r.target is None,
    {
        BufferView { buffer: 0, byte_offset: 0, byte_len: 0, stride: None, target: None }
    }
}

impl Default for Accessor {
    fn default() -> (r: Self)
        ensures
            r.buffer_view == 0,
            r.byte_offset == 0,
            r.count == 0,
            r.component_ty == AccessorComponentType::Float,
            r.ty == AccessorDataType::Scalar,
            r.min_max is None,
    {
        Accessor {
            buffer_view: 0,
            byte_offset: 0,
            count: 0,
            component_ty: AccessorComponentType::Float,
            ty: AccessorDataType::Scalar,
            min_max: None,
        }
    }
}

/// The fields a view renders as: the optional stride and usage hint are
/// omitted when absent.
pub open spec fn spec_view_fields(v: BufferView) -> Seq<(Seq<char>, JsonModel)> {
    seq![
        ("buffer"@, JsonModel::Num(v.buffer as u64)),
        ("byteOffset"@, JsonModel::Num(v.byte_offset as u64)),
        ("byteLength"@, JsonModel::Num(v.byte_len as u64)),
    ] + (match v.stride {
        Some(s) => seq![("byteStride"@, JsonModel::Num(s as u64))],
        None => Seq::empty(),
    }) + (match v.target {
        Some(t) => seq![("target"@, JsonModel::Num(t.spec_code()))],
        None => Seq::empty(),
    })
}

/// The object a view renders as.
pub open spec fn spec_view_json(v: BufferView) -> JsonModel {
    JsonModel::Obj(spec_view_fields(v))
}

/// Renders one view as its document object.
pub fn view_to_json(view: &BufferView) -> (r: JsonValue)
    ensures
        r.model() == spec_view_json(*view),
{
    let mut fields: Vec<(String, JsonValue)> = Vec::new();
    fields.push(("buffer".to_owned(), JsonValue::Num(view.buffer as u64)));
    fields.push(("byteOffset".to_owned(), JsonValue::Num(view.byte_offset as u64)));
    fields.push(("byteLength".to_owned(), JsonValue::Num(view.byte_len as u64)));
    if let Some(s) = view.stride {
        fields.push(("byteStride".to_owned(), JsonValue::Num(s as u64)));
    }
    if let Some(t) = view.target {
        fields.push(("target".to_owned(), JsonValue::Num(t.code())));
    }
    let r = JsonValue::Obj(fields);
    proof {
        crate::json::lemma_model_fields(fields@);
        assert(crate::json::model_fields(fields@) =~= spec_view_fields(*view));
        assert(r.model() == spec_view_json(*view));
    }
    r
}

/// The fields an accessor renders as: the bounds, when present, come last.
pub open spec fn spec_accessor_fields(a: Accessor) -> Seq<(Seq<char>, JsonModel)> {
    seq![
        ("bufferView"@, JsonModel::Num(a.buffer_view as u64)),
        ("byteOffset"@, JsonModel::Num(a.byte_offset as u64)),
        ("count"@, JsonModel::Num(a.count as u64)),
        ("componentType"@, JsonModel::Num(a.component_ty.spec_code())),
        ("type"@, JsonModel::Text(a.ty.spec_name())),
    ] + (match a.min_max {
        Some(mm) => seq![("min"@, mm.min.model()), ("max"@, mm.max.model())],
        None => Seq::empty(),
    })
}

/// The object an accessor renders as.
pub open spec fn spec_accessor_json(a: Accessor) -> JsonModel {
    JsonModel::Obj(spec_accessor_fields(a))
}

/// Renders one accessor as its document object.
pub fn accessor_to_json(accessor: &Accessor) -> (r: JsonValue)
    ensures
        r.model() == spec_accessor_json(*accessor),
{
    let mut fields: Vec<(String, JsonValue)> = Vec::new();
    fields.push(("bufferView".to_owned(), JsonValue::Num(accessor.buffer_view as u64)));
    fields.push(("byteOffset".to_owned(), JsonValue::Num(accessor.byte_offset as u64)));
    fields.push(("count".to_owned(), JsonValue::Num(accessor.count as u64)));
    fields.push(("componentType".to_owned(), JsonValue::Num(accessor.component_ty.code())));
    fields.push(("type".to_owned(), JsonValue::Text(accessor.ty.name().to_owned())));
    if let Some(mm) = &accessor.min_max {
        fields.push(("min".to_owned(), mm.min.duplicate()));
        fields.push(("max".to_owned(), mm.max.duplicate()));
    }
    let r = JsonValue::Obj(fields);
    proof {
        crate::json::lemma_model_fields(fields@);
        assert(crate::json::model_fields(fields@) =~= spec_accessor_fields(*accessor));
        assert(r.model() == spec_accessor_json(*accessor));
    }
    r
}

/// The array the view arena renders as.
pub open spec fn spec_buffer_views_json(views: Seq<BufferView>) -> JsonModel {
    JsonModel::Arr(views.map_values(|v: BufferView| spec_view_json(v)))
}

/// The array the accessor arena renders as.
pub open spec fn spec_accessors_json(accessors: Seq<Accessor>) -> JsonModel {
    JsonModel::Arr(accessors.map_values(|a: Accessor| spec_accessor_json(a)))
}

impl BufferWriter {
    /// Renders the view arena as its document array.
    pub fn write_buffer_views(&self) -> (r: JsonValue)
        ensures
            r.model() == spec_buffer_views_json(self@.views),
    {
        let mut items: Vec<JsonValue> = Vec::new();
        let n = self.views.len();
        let mut k: usize = 0;
        while k < n
            invariant
                n == self@.views.len(),
                k <= n,
                items@.len() == k,
                forall|i: int|
                    0 <= i < k ==> (#[trigger] items@[i]).model() == spec_view_json(self@.views[i]),
            decreases n - k,
        {
            items.push(view_to_json(self.views.at(k)));
            k = k + 1;
        }
        let r = JsonValue::Arr(items);
        proof {
            crate::json::lemma_model_seq(items@);
            assert(crate::json::model_seq(items@) =~= self@.views.map_values(
                |v: BufferView| spec_view_json(v),
            ));
            assert(r.model() == spec_buffer_views_json(self@.views));
        }
        r
    }

    /// Renders the accessor arena as its document array.
    pub fn write_accessors(&self) -> (r: JsonValue)
        ensures
            r.model() == spec_accessors_json(self@.accessors),
    {
        let mut items: Vec<JsonValue> = Vec::new();
        let n = self.accessors.len();
        let mut k: usize = 0;
        while k < n
            invariant
                n == self@.accessors.len(),
                k <= n,
                items@.len() == k,
                forall|i: int|
                    0 <= i < k ==> (#[trigger] items@[i]).model() == spec_accessor_json(
                        self@.accessors[i],
                    ),
            decreases n - k,
        {
            items.push(accessor_to_json(self.accessors.at(k)));
            k = k + 1;
        }
        let r = JsonValue::Arr(items);
        proof {
            crate::json::lemma_model_seq(items@);
            assert(crate::json::model_seq(items@) =~= self@.accessors.map_values(
                |a: Accessor| spec_accessor_json(a),
            ));
            assert(r.model() == spec_accessors_json(self@.accessors));
        }
        r
    }
}

/// Byte-range disjointness: in a writer whose views tile the buffer, the byte
/// ranges of any two distinct views are disjoint, every range lies within the
/// buffer, and in allocation order the ranges cover a prefix of the buffer.
pub proof fn lemma_view_ranges_disjoint(views: Seq<BufferView>, buffer_len: nat)
    requires
        views_tile(views, buffer_len),
    ensures
        forall|i: int, j: int|
            0 <= i < j < views.len() ==> (#[trigger] views[i]).byte_offset + views[i].byte_len
                <= (#[trigger] views[j]).byte_offset,
        forall|i: int|
            0 <= i < views.len() ==> (#[trigger] views[i]).byte_offset + views[i].byte_len
                <= buffer_len,
{
    assert forall|i: int, j: int|
        0 <= i < j < views.len() implies (#[trigger] views[i]).byte_offset + views[i].byte_len
        <= (#[trigger] views[j]).byte_offset by {
        lemma_view_ends_monotone(views, i + 1, j);
    }
    assert forall|i: int|
        0 <= i < views.len() implies (#[trigger] views[i]).byte_offset + views[i].byte_len
        <= buffer_len by {
        lemma_view_ends_monotone(views, i + 1, views.len() as int);
    }
}

/// In a contiguous view sequence the end positions are monotone.
proof fn lemma_view_ends_monotone(views: Seq<BufferView>, i: int, j: int)
    requires
        forall|k: int|
            0 <= k < views.len() ==> (#[trigger] views[k]).byte_offset == view_end(views, k),
        0 <= i <= j <= views.len(),
    ensures
        view_end(views, i) <= view_end(views, j),
    decreases j - i,
{
    if i < j {
        lemma_view_ends_monotone(views, i + 1, j);
        assert(views[i].byte_offset == view_end(views, i));
    }
}

} // verus!
