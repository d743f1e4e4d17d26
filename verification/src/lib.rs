//! Assembles a 3-D scene description into a binary vertex/index blob plus a
//! cross-referencing JSON document shaped after the glTF 2.0 schema.
//!
//! The heart of the crate is the typed binary buffer writer and the
//! arena-indexed cross-reference engine: typed numeric data is packed into a
//! single contiguous little-endian byte buffer, per-accessor metadata is
//! derived from the data's type, and every referenceable entity receives a
//! stable, monotonically increasing integer index, so that the final
//! document's cross-references are correct by construction.
use core::ops::Range;
use vstd::prelude::*;

pub mod animation;
pub mod buffer;
pub mod document;
pub mod element;
pub mod export;
pub mod json;
pub mod material;
pub mod mesh;
pub mod node;
pub mod skin;
pub mod storage;

use crate::buffer::BufferWriter;

verus! {

/// A vertex type: it knows how to pack each of its attributes, as one typed
/// slice per attribute, into a buffer writer.
pub trait Vertex: Sized {
    /// Packs every attribute of `vertices` into `writer` and returns, for
    /// each attribute, its name and the position of the accessor allocated
    /// for it. The writer only grows: everything already packed or recorded
    /// stays exactly as it was.
    fn write_slices(writer: &mut BufferWriter, vertices: &[Self]) -> (r: Vec<
        (&'static str, usize),
    >)
        requires
            old(writer).wf(),
        ensures
            final(writer).wf(),
            old(writer)@.buffer.is_prefix_of(final(writer)@.buffer),
            old(writer)@.views.is_prefix_of(final(writer)@.views),
            old(writer)@.accessors.is_prefix_of(final(writer)@.accessors),
    ;
}

/// One mesh of a model: the texture it uses and the range of the model's
/// index list that belongs to it.
pub struct Mesh {
    pub texture_index: usize,
    pub indices_range: Range<usize>,
}

/// A model: its index list, its vertices and its meshes.
pub struct Model<V> {
    pub indices: Vec<u32>,
    pub vertices: Vec<V>,
    pub meshes: Vec<Mesh>,
}

/// Appends `value` to `vec` and returns the index at which it now lives.
pub fn add_and_get_index<T>(vec: &mut Vec<T>, value: T) -> (index: usize)
    ensures
        final(vec)@ == old(vec)@.push(value),
        index == old(vec)@.len(),
{
    let index = vec.len();
    vec.push(value);
    index
}

} // verus!
