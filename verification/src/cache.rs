//! The mesh resource cache: from a mesh identity to the buffers that draw
//! it, creating them on first use and finding them in the backend's slots
//! ever after.

use vstd::prelude::*;
use crate::asset_source::stored_meshes;
use crate::asset_source::MeshAssets;
use crate::backend::BackendState;
use crate::backend::RenderResourceContext;
use crate::layout::VertexLayout;
use crate::layout::INDEX_FORMAT;
use crate::mesh::MeshAsset;
use crate::resource::BufferUsage;
use crate::resource::MeshBuffers;
use crate::resource::MeshIdentity;
use crate::resource::ProvisionError;
use crate::resource::INDEX_BUFFER_SLOT;
use crate::resource::VERTEX_BUFFER_SLOT;
use crate::slots::slot_of;

verus! {

/// Whether the buffers of `mesh` exist already: its vertex buffer slot is
/// populated.
pub open spec fn is_cached(state: BackendState, mesh: MeshIdentity) -> bool {
    state.slots.contains_key((mesh, VERTEX_BUFFER_SLOT))
}

/// The buffers of a cached mesh: what its two slots hold.
pub open spec fn cached_buffers(state: BackendState, mesh: MeshIdentity) -> MeshBuffers {
    MeshBuffers {
        vertex_buffer: state.slots[(mesh, VERTEX_BUFFER_SLOT)],
        index_buffer: slot_of(state.slots, mesh, INDEX_BUFFER_SLOT),
    }
}

/// The asset of `mesh` in the asset source, if it holds one.
pub open spec fn asset_of(meshes: Map<u128, MeshAsset>, mesh: MeshIdentity) -> Option<MeshAsset> {
    if meshes.contains_key(mesh.id) {
        Some(meshes[mesh.id])
    } else {
        None
    }
}

/// The asset behind the outcome of a lookup.
pub open spec fn looked_up(asset: Option<&MeshAsset>) -> Option<MeshAsset> {
    match asset {
        Some(found) => Some(*found),
        None => None,
    }
}

/// What stands in the way of creating buffers from `asset` under `layout`,
/// if anything does.
pub open spec fn obstacle(asset: Option<MeshAsset>, layout: &VertexLayout) -> Option<ProvisionError> {
    match asset {
        None => Some(ProvisionError::AssetNotFound),
        Some(found) => if found.spec_vertex_bytes(layout) is None {
            Some(ProvisionError::LayoutMismatch)
        } else {
            None
        },
    }
}

/// Whether `buffers` are tagged as the buffers of `asset` must be: a vertex
/// buffer, and an index buffer exactly where the asset has index data.
pub open spec fn tagged_for(asset: MeshAsset, buffers: MeshBuffers) -> bool {
    &&& buffers.vertex_buffer.usage == BufferUsage::Vertex
    &&& match buffers.index_buffer {
        Some(index_buffer) => asset.spec_index_bytes(INDEX_FORMAT) is Some && index_buffer.usage
            == BufferUsage::Index,
        None => asset.spec_index_bytes(INDEX_FORMAT) is None,
    }
}

/// The backend after `buffers` were created from `asset` under `layout` and
/// stored in the slots of `mesh`: one vertex buffer created from the vertex
/// bytes and put into the vertex slot; then, where the asset has index data,
/// one index buffer created from the index bytes and put into the index slot.
pub open spec fn provisioned(
    pre: BackendState,
    mesh: MeshIdentity,
    asset: MeshAsset,
    layout: &VertexLayout,
    buffers: MeshBuffers,
) -> BackendState {
    let with_vertex = pre.with_creation(
        BufferUsage::Vertex,
        asset.spec_vertex_bytes(layout).unwrap(),
        buffers.vertex_buffer,
    ).with_slot(mesh, VERTEX_BUFFER_SLOT, buffers.vertex_buffer);
    match asset.spec_index_bytes(INDEX_FORMAT) {
        Some(index_bytes) => with_vertex.with_creation(
            BufferUsage::Index,
            index_bytes,
            buffers.index_buffer.unwrap(),
        ).with_slot(mesh, INDEX_BUFFER_SLOT, buffers.index_buffer.unwrap()),
        None => with_vertex,
    }
}

/// What creating the buffers of `mesh` from `asset` does. Without an asset it
/// fails with `AssetNotFound`, and with vertex data that the layout does not
/// fit with `LayoutMismatch`; the backend is then untouched. Otherwise it
/// succeeds, and the backend is `provisioned` with the buffers returned.
pub open spec fn creates(
    pre: BackendState,
    post: BackendState,
    mesh: MeshIdentity,
    asset: Option<MeshAsset>,
    layout: &VertexLayout,
    result: Result<MeshBuffers, ProvisionError>,
) -> bool {
    match obstacle(asset, layout) {
        Some(error) => result == Err::<MeshBuffers, ProvisionError>(error) && post == pre,
        None => match result {
            Ok(buffers) => tagged_for(asset.unwrap(), buffers) && post == provisioned(
                pre,
                mesh,
                asset.unwrap(),
                layout,
                buffers,
            ),
            Err(_) => false,
        },
    }
}

/// What resolving `mesh` does. A cached mesh gives its cached buffers and
/// leaves the backend untouched, whatever the asset source holds. Any other
/// mesh has its buffers created from its asset.
pub open spec fn resolves(
    pre: BackendState,
    post: BackendState,
    meshes: Map<u128, MeshAsset>,
    mesh: MeshIdentity,
    layout: &VertexLayout,
    result: Result<MeshBuffers, ProvisionError>,
) -> bool {
    if is_cached(pre, mesh) {
        result == Ok::<MeshBuffers, ProvisionError>(cached_buffers(pre, mesh)) && post == pre
    } else {
        creates(pre, post, mesh, asset_of(meshes, mesh), layout, result)
    }
}

/// The buffers of `mesh` where they exist already. Reads the slots and
/// nothing else.
pub fn find_cached<B: RenderResourceContext>(backend: &B, mesh: MeshIdentity) -> (found: Option<
    MeshBuffers,
>)
    ensures
        found == (if is_cached(backend.state(), mesh) {
            Some(cached_buffers(backend.state(), mesh))
        } else {
            None
        }),
{
    match backend.get_asset_resource(mesh, VERTEX_BUFFER_SLOT) {
        Some(vertex_buffer) => {
            let index_buffer = backend.get_asset_resource(mesh, INDEX_BUFFER_SLOT);
            Some(MeshBuffers { vertex_buffer, index_buffer })
        },
        None => None,
    }
}

/// Creates the buffers of `mesh` from `asset`, the outcome of looking the
/// mesh up in the asset source, and stores them in the slots of `mesh`.
pub fn create_buffers<B: RenderResourceContext>(
    backend: &mut B,
    mesh: MeshIdentity,
    asset: Option<&MeshAsset>,
    layout: &VertexLayout,
) -> (result: Result<MeshBuffers, ProvisionError>)
    ensures
        creates(
            old(backend).state(),
            final(backend).state(),
            mesh,
            looked_up(asset),
            layout,
            result,
        ),
{
    let found = match asset {
        Some(found) => found,
        None => {
            return Err(ProvisionError::AssetNotFound);
        },
    };
    let vertex_bytes = match found.extract_vertex_bytes(layout) {
        Ok(bytes) => bytes,
        Err(error) => {
            return Err(error);
        },
    };
    let vertex_buffer = backend.create_buffer_with_data(
        BufferUsage::Vertex,
        vertex_bytes.as_slice(),
    );
    backend.set_asset_resource(mesh, vertex_buffer, VERTEX_BUFFER_SLOT);
    let index_buffer = match found.extract_index_bytes(INDEX_FORMAT) {
        Some(index_bytes) => {
            let index_buffer = backend.create_buffer_with_data(
                BufferUsage::Index,
                index_bytes.as_slice(),
            );
            backend.set_asset_resource(mesh, index_buffer, INDEX_BUFFER_SLOT);
            Some(index_buffer)
        },
        None => None,
    };
    Ok(MeshBuffers { vertex_buffer, index_buffer })
}

/// The buffers that draw `mesh`: those in its slots where it is cached, and
/// else buffers created now from its asset under `layout`, which are in its
/// slots from then on.
pub fn resolve_or_create<B: RenderResourceContext>(
    backend: &mut B,
    meshes: &MeshAssets,
    mesh: MeshIdentity,
    layout: &VertexLayout,
) -> (result: Result<MeshBuffers, ProvisionError>)
    ensures
        resolves(
            old(backend).state(),
            final(backend).state(),
            stored_meshes(*meshes),
            mesh,
            layout,
            result,
        ),
{
    match find_cached(backend, mesh) {
        Some(buffers) => Ok(buffers),
        None => {
            let asset = meshes.get(mesh);
            create_buffers(backend, mesh, asset, layout)
        },
    }
}

} // verus!
