use gltf_export::buffer::{
    AccessorComponentType, AccessorDataType, BufferType, BufferTypeEx, BufferViewTarget,
    BufferWriter, MinMax,
};
use gltf_export::element::{Byte4, F32Bits, Float2, Float3, Float4, Mat4Data, Vec3Data, Vec4Data};
use gltf_export::json::JsonValue;
use gltf_export::storage::{Storage, StorageIndex};

fn f(x: f32) -> F32Bits {
    F32Bits(x.to_bits())
}

#[test]
fn storage_positions_are_allocation_order() {
    let mut storage: Storage<u32> = Storage::new();
    let a = storage.allocate_with(10);
    let b = storage.allocate_with(20);
    let c = storage.allocate_with(30);
    assert_eq!(a.0, 0);
    assert_eq!(b.0, 1);
    assert_eq!(c.0, 2);
    assert_eq!(storage.len(), 3);
    assert!(!storage.is_empty());
    assert_eq!(storage.get(a), Some(&10));
    assert_eq!(storage.get(b), Some(&20));
    assert_eq!(storage.get(c), Some(&30));
}

#[test]
fn storage_handles_stay_valid_after_later_allocations() {
    let mut storage: Storage<u32> = Storage::new();
    let first = storage.allocate_with(7);
    for k in 0..100u32 {
        storage.allocate_with(k);
    }
    assert_eq!(first.0, 0);
    assert_eq!(storage.get(first), Some(&7));
}

#[test]
fn storage_update_in_range_overwrites() {
    let mut storage: Storage<u32> = Storage::new();
    let a = storage.allocate_with(1);
    assert_eq!(storage.update(a, 9), Some(()));
    assert_eq!(storage.get(a), Some(&9));
    assert_eq!(storage.len(), 1);
}

#[test]
fn storage_update_out_of_range_is_not_found_and_does_not_grow() {
    let mut storage: Storage<u32> = Storage::new();
    storage.allocate_with(1);
    let stray: StorageIndex<u32> = StorageIndex::new(5);
    assert_eq!(storage.update(stray, 9), None);
    assert_eq!(storage.len(), 1);
}

#[test]
fn storage_allocate_appends_default() {
    let mut storage: Storage<u32> = Storage::new();
    let a = storage.allocate();
    assert_eq!(a.0, 0);
    assert_eq!(storage.get(a), Some(&0));
}

#[test]
fn scalar_encodings_are_little_endian() {
    assert_eq!(0x0102u16.to_bytes(), vec![0x02, 0x01]);
    assert_eq!(0x01020304u32.to_bytes(), vec![0x04, 0x03, 0x02, 0x01]);
    assert_eq!(0xabu8.to_bytes(), vec![0xab]);
    assert_eq!(f(1.0).to_bytes(), 1.0f32.to_le_bytes().to_vec());
}

#[test]
fn aggregate_encodings_concatenate_components() {
    let v = Float3 { x: f(1.0), y: f(2.0), z: f(3.0) };
    let mut expected = Vec::new();
    expected.extend_from_slice(&1.0f32.to_le_bytes());
    expected.extend_from_slice(&2.0f32.to_le_bytes());
    expected.extend_from_slice(&3.0f32.to_le_bytes());
    assert_eq!(v.to_bytes(), expected);

    let b = Byte4 { x: 1, y: 2, z: 3, w: 4 };
    assert_eq!(b.to_bytes(), vec![1, 2, 3, 4]);

    let q = Vec4Data { x: f(0.0), y: f(0.0), z: f(0.0), w: f(1.0) };
    let mut expected_q = Vec::new();
    expected_q.extend_from_slice(&0.0f32.to_le_bytes());
    expected_q.extend_from_slice(&0.0f32.to_le_bytes());
    expected_q.extend_from_slice(&0.0f32.to_le_bytes());
    expected_q.extend_from_slice(&1.0f32.to_le_bytes());
    assert_eq!(q.to_bytes(), expected_q);

    let m = Mat4Data {
        x_axis: Vec4Data { x: f(1.0), y: f(0.0), z: f(0.0), w: f(0.0) },
        y_axis: Vec4Data { x: f(0.0), y: f(1.0), z: f(0.0), w: f(0.0) },
        z_axis: Vec4Data { x: f(0.0), y: f(0.0), z: f(1.0), w: f(0.0) },
        w_axis: Vec4Data { x: f(0.0), y: f(0.0), z: f(0.0), w: f(1.0) },
    };
    let bytes = m.to_bytes();
    assert_eq!(bytes.len(), 64);
    assert_eq!(&bytes[0..4], &1.0f32.to_le_bytes());
    assert_eq!(&bytes[20..24], &1.0f32.to_le_bytes());
}

#[test]
fn round_trip_decoding_reproduces_values() {
    // decode the packed bytes at stride-aligned positions by hand
    let data: [u16; 3] = [0x0102, 0xfffe, 7];
    let mut writer = BufferWriter::new();
    writer.create_view(&data, None);
    let bytes = writer.data();
    for (i, expected) in data.iter().enumerate() {
        let at = i * 2;
        let got = u16::from_le_bytes([bytes[at], bytes[at + 1]]);
        assert_eq!(got, *expected);
    }

    let floats: [Float2; 2] =
        [Float2 { x: f(1.5), y: f(-2.5) }, Float2 { x: f(0.0), y: f(3.25) }];
    let mut writer2 = BufferWriter::new();
    writer2.create_view(&floats, None);
    let bytes2 = writer2.data();
    let mut read = |at: usize| {
        f32::from_le_bytes([bytes2[at], bytes2[at + 1], bytes2[at + 2], bytes2[at + 3]])
    };
    assert_eq!(read(0), 1.5);
    assert_eq!(read(4), -2.5);
    assert_eq!(read(8), 0.0);
    assert_eq!(read(12), 3.25);
}

#[test]
fn stride_and_tags_follow_the_element_type() {
    assert_eq!(u16::stride(), None);
    assert_eq!(u32::stride(), None);
    assert_eq!(F32Bits::stride(), None);
    assert_eq!(Float2::stride(), Some(8));
    assert_eq!(Float3::stride(), Some(12));
    assert_eq!(Float4::stride(), Some(16));
    assert_eq!(Byte4::stride(), Some(4));
    assert_eq!(Vec3Data::stride(), None);
    assert_eq!(Vec4Data::stride(), None);
    assert_eq!(Mat4Data::stride(), None);

    assert_eq!(u8::component_ty().code(), 5121);
    assert_eq!(u16::component_ty().code(), 5123);
    assert_eq!(u32::component_ty().code(), 5125);
    assert_eq!(F32Bits::component_ty().code(), 5126);
    assert_eq!(AccessorComponentType::SignedByte.code(), 5120);
    assert_eq!(AccessorComponentType::SignedShort.code(), 5122);

    assert_eq!(u16::data_ty().name(), "SCALAR");
    assert_eq!(Float2::data_ty().name(), "VEC2");
    assert_eq!(Float3::data_ty().name(), "VEC3");
    assert_eq!(Float4::data_ty().name(), "VEC4");
    assert_eq!(Mat4Data::data_ty().name(), "MAT4");
    assert_eq!(AccessorDataType::Mat2.name(), "MAT2");
    assert_eq!(AccessorDataType::Mat3.name(), "MAT3");

    assert_eq!(BufferViewTarget::ArrayBuffer.code(), 34962);
    assert_eq!(BufferViewTarget::ElementArrayBuffer.code(), 34963);
}

#[test]
fn find_min_max_is_exact_for_integers() {
    let (min, max) = u32::find_min_max(&[4, 1, 9, 3]);
    assert_eq!(min, 1);
    assert_eq!(max, 9);
    let (min16, max16) = u16::find_min_max(&[42]);
    assert_eq!(min16, 42);
    assert_eq!(max16, 42);
    let (bmin, bmax) = Byte4::find_min_max(&[
        Byte4 { x: 1, y: 9, z: 3, w: 7 },
        Byte4 { x: 2, y: 8, z: 2, w: 9 },
    ]);
    assert_eq!((bmin.x, bmin.y, bmin.z, bmin.w), (1, 8, 2, 7));
    assert_eq!((bmax.x, bmax.y, bmax.z, bmax.w), (2, 9, 3, 9));
}

#[test]
fn find_min_max_on_empty_input_is_the_inverted_identity_pair() {
    let (min, max) = u32::find_min_max(&[]);
    assert_eq!(min, u32::MAX);
    assert_eq!(max, u32::MIN);
    assert!(min > max);
}

#[test]
fn find_min_max_orders_floats_numerically() {
    let data = [f(-1.5), f(2.0), f(-3.25), f(0.5)];
    let (min, max) = F32Bits::find_min_max(&data);
    assert_eq!(f32::from_bits(min.0), -3.25);
    assert_eq!(f32::from_bits(max.0), 2.0);

    // a NaN is ignored in favor of the other argument
    let with_nan = [f(1.0), f(f32::NAN), f(4.0)];
    let (min2, max2) = F32Bits::find_min_max(&with_nan);
    assert_eq!(f32::from_bits(min2.0), 1.0);
    assert_eq!(f32::from_bits(max2.0), 4.0);

    let vecs = [
        Float3 { x: f(1.0), y: f(5.0), z: f(-1.0) },
        Float3 { x: f(2.0), y: f(4.0), z: f(-2.0) },
    ];
    let (vmin, vmax) = Float3::find_min_max(&vecs);
    assert_eq!(f32::from_bits(vmin.x.0), 1.0);
    assert_eq!(f32::from_bits(vmin.y.0), 4.0);
    assert_eq!(f32::from_bits(vmin.z.0), -2.0);
    assert_eq!(f32::from_bits(vmax.x.0), 2.0);
    assert_eq!(f32::from_bits(vmax.y.0), 5.0);
    assert_eq!(f32::from_bits(vmax.z.0), -1.0);
}

#[test]
fn packing_scalars_with_bounds_matches_the_schema() {
    // packing [1u16, 5u16, 3u16] yields a 6-byte view and an accessor with
    // count 3, unsigned-short scalar tags and bounds min 1 / max 5
    let mut writer = BufferWriter::new();
    let data: [u16; 3] = [1, 5, 3];
    let pair = writer.create_view_and_accessor_with_min_max(&data, None);
    assert_eq!(writer.data(), &[0x01, 0x00, 0x05, 0x00, 0x03, 0x00]);
    let view = writer.views().get(pair.view).unwrap();
    assert_eq!(view.byte_offset, 0);
    assert_eq!(view.byte_len, 6);
    let accessor = writer.accessors().get(pair.accessor).unwrap();
    assert_eq!(accessor.count, 3);
    assert_eq!(accessor.component_ty.code(), 5123);
    assert_eq!(accessor.ty.name(), "SCALAR");
    let bounds = accessor.min_max.as_ref().unwrap();
    match &bounds.min {
        JsonValue::Arr(items) => match items.as_slice() {
            [JsonValue::Num(v)] => assert_eq!(*v, 1),
            _ => panic!("min is not a one-number array"),
        },
        _ => panic!("min is not an array"),
    }
    match &bounds.max {
        JsonValue::Arr(items) => match items.as_slice() {
            [JsonValue::Num(v)] => assert_eq!(*v, 5),
            _ => panic!("max is not a one-number array"),
        },
        _ => panic!("max is not an array"),
    }
}

#[test]
fn sequential_views_tile_the_buffer() {
    // 4 vertices of a 3-float position attribute, then 6 u32 indices
    let mut writer = BufferWriter::new();
    let positions = [
        Float3 { x: f(0.0), y: f(0.0), z: f(0.0) },
        Float3 { x: f(1.0), y: f(0.0), z: f(0.0) },
        Float3 { x: f(0.0), y: f(1.0), z: f(0.0) },
        Float3 { x: f(0.0), y: f(0.0), z: f(1.0) },
    ];
    let first = writer.create_view(&positions, Some(BufferViewTarget::ArrayBuffer));
    let indices: [u32; 6] = [0, 1, 2, 0, 2, 3];
    let second = writer.create_view(&indices, Some(BufferViewTarget::ElementArrayBuffer));
    let v0 = writer.views().get(first).unwrap();
    let v1 = writer.views().get(second).unwrap();
    assert_eq!(v0.byte_offset, 0);
    assert_eq!(v0.byte_len, 48);
    assert_eq!(v1.byte_offset, 48);
    assert_eq!(v1.byte_len, 24);
    assert_eq!(writer.buffer_len(), 72);
    assert_eq!(v0.stride, Some(12));
    assert_eq!(v1.stride, None);
}

#[test]
fn accessor_without_bounds_records_the_given_range() {
    let mut writer = BufferWriter::new();
    let data: [u32; 4] = [9, 8, 7, 6];
    let view = writer.create_view(&data, None);
    let accessor = writer.create_accessor::<u32>(view, 8, 2);
    let a = writer.accessors().get(accessor).unwrap();
    assert_eq!(a.buffer_view, view.0);
    assert_eq!(a.byte_offset, 8);
    assert_eq!(a.count, 2);
    assert!(a.min_max.is_none());
}

#[test]
fn accessor_with_given_bounds_renders_them() {
    let mut writer = BufferWriter::new();
    let data: [u32; 2] = [11, 22];
    let view = writer.create_view(&data, None);
    let accessor =
        writer.create_accessor_with_min_max::<u32>(view, 0, 2, MinMax { min: 11, max: 22 });
    let a = writer.accessors().get(accessor).unwrap();
    let bounds = a.min_max.as_ref().unwrap();
    match (&bounds.min, &bounds.max) {
        (JsonValue::Arr(lo), JsonValue::Arr(hi)) => {
            assert!(matches!(lo.as_slice(), [JsonValue::Num(11)]));
            assert!(matches!(hi.as_slice(), [JsonValue::Num(22)]));
        },
        _ => panic!("bounds are not arrays"),
    }
}

#[test]
fn float_bounds_render_as_float_arrays() {
    let mut writer = BufferWriter::new();
    let data = [Float2 { x: f(1.0), y: f(-2.0) }, Float2 { x: f(3.0), y: f(4.0) }];
    let pair = writer.create_view_and_accessor_with_min_max(&data, None);
    let a = writer.accessors().get(pair.accessor).unwrap();
    let bounds = a.min_max.as_ref().unwrap();
    match &bounds.min {
        JsonValue::Arr(items) => match items.as_slice() {
            [JsonValue::Float(x), JsonValue::Float(y)] => {
                assert_eq!(f32::from_bits(*x), 1.0);
                assert_eq!(f32::from_bits(*y), -2.0);
            },
            _ => panic!("min is not a two-float array"),
        },
        _ => panic!("min is not an array"),
    }
}

#[test]
fn add_and_get_index_returns_the_old_length() {
    let mut v: Vec<u8> = vec![5, 6];
    let at = gltf_export::add_and_get_index(&mut v, 7);
    assert_eq!(at, 2);
    assert_eq!(v, vec![5, 6, 7]);
}
