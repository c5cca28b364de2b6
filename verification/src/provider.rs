//! The resource provider: one pass that registers the vertex layout and
//! then gives every batch and every renderable the buffers of its mesh.

use vstd::prelude::*;
use crate::asset_source::stored_meshes;
use crate::asset_source::MeshAssets;
use crate::assignment::ResourceAssignment;
use crate::backend::BackendState;
use crate::backend::BufferCreation;
use crate::backend::RenderResourceContext;
use crate::cache::resolve_or_create;
use crate::cache::resolves;
use crate::layout::VertexLayout;
use crate::layout::VertexLayoutRegistry;
use crate::mesh::MeshAsset;
use crate::pass::fails;
use crate::pass::lemma_item_provided;
use crate::pass::lemma_no_failure;
use crate::pass::lemma_stops_at_first_failure;
use crate::pass::meshes_of;
use crate::pass::new_creations;
use crate::pass::pass_result;
use crate::pass::provided_count;
use crate::pass::provides;
use crate::resource::MeshBuffers;
use crate::resource::MeshIdentity;
use crate::resource::ProvisionError;

verus! {

/// The name under which a mesh's buffers are bound in a resource assignment.
pub const VERTEX_BUFFER_NAME: &'static str = "Vertex";

/// Something that is drawn with one mesh, a batch or a single renderable:
/// the identity of the mesh and the record of the resources bound for
/// drawing.
#[derive(Debug)]
pub struct Renderable {
    pub mesh: MeshIdentity,
    pub assignment: ResourceAssignment,
}

/// What setting up one assignment for `mesh` does. Where resolving the mesh
/// succeeds, its buffers are bound under `VERTEX_BUFFER_NAME` and the rest of
/// the assignment stays; where it fails, the assignment is untouched.
pub open spec fn sets_up(
    pre: BackendState,
    post: BackendState,
    before: ResourceAssignment,
    after: ResourceAssignment,
    meshes: Map<u128, MeshAsset>,
    mesh: MeshIdentity,
    layout: &VertexLayout,
    result: Result<(), ProvisionError>,
) -> bool {
    match result {
        Ok(_) => {
            &&& after@.contains_key(VERTEX_BUFFER_NAME@)
            &&& after@ == before@.insert(VERTEX_BUFFER_NAME@, after@[VERTEX_BUFFER_NAME@])
            &&& resolves(
                pre,
                post,
                meshes,
                mesh,
                layout,
                Ok::<MeshBuffers, ProvisionError>(after@[VERTEX_BUFFER_NAME@]),
            )
        },
        Err(error) => {
            &&& after == before
            &&& resolves(pre, post, meshes, mesh, layout, Err::<MeshBuffers, ProvisionError>(error))
        },
    }
}

/// Resolves the buffers of `mesh` and binds them in `assignment`.
pub fn setup_mesh_resource<B: RenderResourceContext>(
    backend: &mut B,
    assignment: &mut ResourceAssignment,
    layout: &VertexLayout,
    mesh: MeshIdentity,
    meshes: &MeshAssets,
) -> (result: Result<(), ProvisionError>)
    ensures
        sets_up(
            old(backend).state(),
            final(backend).state(),
            *old(assignment),
            *final(assignment),
            stored_meshes(*meshes),
            mesh,
            layout,
            result,
        ),
{
    match resolve_or_create(backend, meshes, mesh, layout) {
        Ok(buffers) => {
            assignment.set_vertex_buffer(
                VERTEX_BUFFER_NAME,
                buffers.vertex_buffer,
                buffers.index_buffer,
            );
            Ok(())
        },
        Err(error) => Err(error),
    }
}

/// Gives every batch, and then every renderable, the buffers of its mesh
/// under `layout`. Stops at the first item whose mesh is not cached and
/// cannot have its buffers created, and returns that item's error; the items
/// before it keep what they were given, it and the items after it are
/// untouched.
pub fn provide_mesh_resources<B: RenderResourceContext>(
    backend: &mut B,
    meshes: &MeshAssets,
    layout: &VertexLayout,
    batches: &mut Vec<Renderable>,
    renderables: &mut Vec<Renderable>,
) -> (result: Result<(), ProvisionError>)
    ensures
        final(batches)@.len() == old(batches)@.len(),
        final(renderables)@.len() == old(renderables)@.len(),
        result == pass_result(
            old(backend).state(),
            stored_meshes(*meshes),
            layout,
            meshes_of(old(batches)@ + old(renderables)@),
        ),
        provides(
            old(backend).state(),
            final(backend).state(),
            stored_meshes(*meshes),
            layout,
            old(batches)@ + old(renderables)@,
            final(batches)@ + final(renderables)@,
            provided_count(
                old(backend).state(),
                stored_meshes(*meshes),
                layout,
                meshes_of(old(batches)@ + old(renderables)@),
            ),
        ),
{
    let ghost pre = backend.state();
    let ghost all = stored_meshes(*meshes);
    let ghost first = batches@;
    let ghost second = renderables@;
    let ghost before = batches@ + renderables@;
    let ghost ids = meshes_of(before);
    assert(new_creations(pre, pre.slots, all, layout, ids, 0) =~= Seq::<BufferCreation>::empty());
    assert(pre.created + Seq::<BufferCreation>::empty() =~= pre.created);
    let mut i: usize = 0;
    while i < batches.len()
        invariant
            i <= batches@.len(),
            pre == old(backend).state(),
            first == old(batches)@,
            second == old(renderables)@,
            batches@.len() == first.len(),
            renderables@ == second,
            before == first + second,
            ids == meshes_of(before),
            all == stored_meshes(*meshes),
            forall|j: int| 0 <= j < i ==> !fails(pre, all, layout, #[trigger] meshes_of(before)[j]),
            provides(pre, backend.state(), all, layout, before, batches@ + renderables@, i as int),
        decreases batches@.len() - i,
    {
        let ghost cur = backend.state();
        let ghost held = batches@;
        let ghost after = batches@ + renderables@;
        assert(after[i as int] == before[i as int]);
        let item = &mut batches[i];
        let mesh = item.mesh;
        let result = setup_mesh_resource(backend, &mut item.assignment, layout, mesh, meshes);
        proof {
            lemma_item_provided(
                pre,
                cur,
                backend.state(),
                all,
                layout,
                before,
                after,
                batches@[i as int],
                i as int,
                result,
            );
        }
        match result {
            Ok(_) => {
                assert(batches@ + renderables@ =~= after.update(i as int, batches@[i as int]));
            },
            Err(error) => {
                proof {
                    lemma_stops_at_first_failure(pre, all, layout, ids, i as int);
                    assert(batches@ =~= held);
                }
                return Err(error);
            },
        }
        i = i + 1;
    }
    let ghost offset = batches@.len() as int;
    let mut k: usize = 0;
    while k < renderables.len()
        invariant
            k <= renderables@.len(),
            pre == old(backend).state(),
            first == old(batches)@,
            second == old(renderables)@,
            offset == batches@.len() == first.len(),
            renderables@.len() == second.len(),
            before == first + second,
            ids == meshes_of(before),
            all == stored_meshes(*meshes),
            forall|j: int|
                0 <= j < offset + k ==> !fails(pre, all, layout, #[trigger] meshes_of(before)[j]),
            provides(pre, backend.state(), all, layout, before, batches@ + renderables@, offset + k),
        decreases renderables@.len() - k,
    {
        let ghost cur = backend.state();
        let ghost held = renderables@;
        let ghost after = batches@ + renderables@;
        assert(after[offset + k] == before[offset + k]);
        let item = &mut renderables[k];
        let mesh = item.mesh;
        let result = setup_mesh_resource(backend, &mut item.assignment, layout, mesh, meshes);
        proof {
            lemma_item_provided(
                pre,
                cur,
                backend.state(),
                all,
                layout,
                before,
                after,
                renderables@[k as int],
                offset + k,
                result,
            );
        }
        match result {
            Ok(_) => {
                assert(batches@ + renderables@ =~= after.update(
                    offset + k,
                    renderables@[k as int],
                ));
            },
            Err(error) => {
                proof {
                    lemma_stops_at_first_failure(pre, all, layout, ids, offset + k);
                    assert(renderables@ =~= held);
                }
                return Err(error);
            },
        }
        k = k + 1;
    }
    proof {
        lemma_no_failure(pre, all, layout, ids);
    }
    Ok(())
}

/// One run of the resource provider. Registers `layout` as the active vertex
/// layout, then gives every batch and every renderable the buffers of its
/// mesh under it.
pub fn mesh_resource_provider_system<B: RenderResourceContext>(
    registry: &mut VertexLayoutRegistry,
    layout: VertexLayout,
    backend: &mut B,
    meshes: &MeshAssets,
    batches: &mut Vec<Renderable>,
    renderables: &mut Vec<Renderable>,
) -> (result: Result<(), ProvisionError>)
    ensures
        final(registry).active == Some(layout),
        final(batches)@.len() == old(batches)@.len(),
        final(renderables)@.len() == old(renderables)@.len(),
        result == pass_result(
            old(backend).state(),
            stored_meshes(*meshes),
            &layout,
            meshes_of(old(batches)@ + old(renderables)@),
        ),
        provides(
            old(backend).state(),
            final(backend).state(),
            stored_meshes(*meshes),
            &layout,
            old(batches)@ + old(renderables)@,
            final(batches)@ + final(renderables)@,
            provided_count(
                old(backend).state(),
                stored_meshes(*meshes),
                &layout,
                meshes_of(old(batches)@ + old(renderables)@),
            ),
        ),
{
    registry.register(layout);
    match &registry.active {
        Some(active) => provide_mesh_resources(backend, meshes, active, batches, renderables),
        // Not reached: the layout has just been registered.
        None => Ok(()),
    }
}

} // verus!
