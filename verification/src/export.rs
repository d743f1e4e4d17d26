//! One-call export: packs every model and assembles the document.
use vstd::prelude::*;

use crate::document::{spec_buffer_uri, spec_document_json, BufferSource, GltfDocument};
use crate::material::MaterialData;
use crate::mesh::{lemma_mesh_packed_stable, spec_mesh_packed, Mesh};
use crate::node::{NodeIndex, Nodes};
use crate::skin::Skins;
use crate::animation::Animations;
use crate::buffer::BufferWriter;
use crate::{Model, Vertex};

verus! {

/// A prefix of a prefix is a prefix.
proof fn lemma_prefix_transitive<A>(a: Seq<A>, b: Seq<A>, c: Seq<A>)
    requires
        a.is_prefix_of(b),
        b.is_prefix_of(c),
    ensures
        a.is_prefix_of(c),
{
    assert(a =~= c.subrange(0, a.len() as int));
}

/// Packs every model's data through the buffer writer, then assembles the
/// whole document. Returns `None` exactly when the payload was to be embedded
/// as a base64 data URI but the packed buffer is too large for the encoded
/// text to fit in memory; the packed data itself is kept either way.
pub fn write_gltf<T: Vertex>(
    buffer_source: BufferSource,
    buffer_writer: &mut BufferWriter,
    models: &[Model<T>],
    material_data: &MaterialData,
    scene_root: NodeIndex,
    nodes: &Nodes,
    skins: &Skins,
    animations: &Animations,
) -> (r: Option<GltfDocument>)
    requires
        old(buffer_writer).wf(),
        forall|m: int, k: int|
            0 <= m < models@.len() && 0 <= k < models@[m].meshes@.len() ==> {
                &&& (#[trigger] models@[m].meshes@[k]).indices_range.start
                    <= models@[m].meshes@[k].indices_range.end
                &&& models@[m].meshes@[k].indices_range.end <= models@[m].indices@.len()
            },
    ensures
        final(buffer_writer).wf(),
        old(buffer_writer)@.buffer.is_prefix_of(final(buffer_writer)@.buffer),
        old(buffer_writer)@.views.is_prefix_of(final(buffer_writer)@.views),
        old(buffer_writer)@.accessors.is_prefix_of(final(buffer_writer)@.accessors),
        r matches Some(doc) ==> exists|meshes: Seq<Mesh>|
            #![auto]
            meshes.len() == models@.len() && (forall|m: int|
                0 <= m < models@.len() ==> spec_mesh_packed(
                    #[trigger] meshes[m],
                    models@[m],
                    final(buffer_writer)@.accessors,
                    final(buffer_writer)@.views.len() as int,
                )) && doc.root.model() == spec_document_json(
                spec_buffer_uri(buffer_source, final(buffer_writer)@.buffer),
                final(buffer_writer)@.buffer,
                final(buffer_writer)@.views,
                final(buffer_writer)@.accessors,
                meshes,
                scene_root.0,
                nodes@,
                skins@,
                animations@,
                material_data@,
            ),
        r is None <==> buffer_source is Base64 && 4 * ((final(buffer_writer)@.buffer.len() + 2)
            / 3) > usize::MAX,
{
    let mut meshes: Vec<Mesh> = Vec::new();
    let n = models.len();
    let mut k: usize = 0;
    while k < n
        invariant
            n == models@.len(),
            k <= n,
            meshes@.len() == k,
            forall|j: int|
                0 <= j < k ==> spec_mesh_packed(
                    #[trigger] meshes@[j],
                    models@[j],
                    buffer_writer@.accessors,
                    buffer_writer@.views.len() as int,
                ),
            buffer_writer.wf(),
            old(buffer_writer)@.buffer.is_prefix_of(buffer_writer@.buffer),
            old(buffer_writer)@.views.is_prefix_of(buffer_writer@.views),
            old(buffer_writer)@.accessors.is_prefix_of(buffer_writer@.accessors),
            forall|m: int, j: int|
                0 <= m < models@.len() && 0 <= j < models@[m].meshes@.len() ==> {
                    &&& (#[trigger] models@[m].meshes@[j]).indices_range.start
                        <= models@[m].meshes@[j].indices_range.end
                    &&& models@[m].meshes@[j].indices_range.end <= models@[m].indices@.len()
                },
        decreases n - k,
    {
        let ghost pre = buffer_writer@;
        let mesh = Mesh::new(&models[k], buffer_writer);
        proof {
            lemma_prefix_transitive(old(buffer_writer)@.buffer, pre.buffer, buffer_writer@.buffer);
            lemma_prefix_transitive(old(buffer_writer)@.views, pre.views, buffer_writer@.views);
            lemma_prefix_transitive(
                old(buffer_writer)@.accessors,
                pre.accessors,
                buffer_writer@.accessors,
            );
            assert forall|j: int| 0 <= j < k implies spec_mesh_packed(
                #[trigger] meshes@[j],
                models@[j],
                buffer_writer@.accessors,
                buffer_writer@.views.len() as int,
            ) by {
                lemma_mesh_packed_stable(
                    meshes@[j],
                    models@[j],
                    pre.accessors,
                    pre.views.len() as int,
                    buffer_writer@.accessors,
                    buffer_writer@.views.len() as int,
                );
            }
        }
        meshes.push(mesh);
        k = k + 1;
    }
    let embeddable = match buffer_source {
        BufferSource::Uri(_) => true,
        BufferSource::Base64 => {
            let len = buffer_writer.buffer_len();
            4u128 * ((len as u128 + 2) / 3) <= usize::MAX as u128
        },
    };
    if !embeddable {
        return None;
    }
    let ghost built = meshes@;
    let doc = GltfDocument::new(
        buffer_source,
        buffer_writer,
        meshes,
        material_data,
        scene_root,
        nodes,
        skins,
        animations,
    );
    proof {
        assert forall|m: int| 0 <= m < models@.len() implies spec_mesh_packed(
            #[trigger] built[m],
            models@[m],
            buffer_writer@.accessors,
            buffer_writer@.views.len() as int,
        ) by {
        }
        assert(built.len() == models@.len() && doc.root.model() == spec_document_json(
            spec_buffer_uri(buffer_source, buffer_writer@.buffer),
            buffer_writer@.buffer,
            buffer_writer@.views,
            buffer_writer@.accessors,
            built,
            scene_root.0,
            nodes@,
            skins@,
            animations@,
            material_data@,
        ));
    }
    Some(doc)
}

} // verus!
