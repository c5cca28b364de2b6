//! Identities and handles: which mesh, which buffer, which slot.

use vstd::prelude::*;

verus! {

/// Stable identifier of a mesh asset. The asset system hands it out; this
/// library only compares and stores it.
#[derive(Clone, Copy, Debug, PartialEq, Eq, Structural, Hash)]
pub struct MeshIdentity {
    pub id: u128,
}

/// What a GPU buffer is created for.
#[derive(Clone, Copy, Debug, PartialEq, Eq, Structural, Hash)]
pub enum BufferUsage {
    Vertex,
    Index,
}

/// Handle of a GPU buffer as the backend returned it, tagged with the usage
/// that it was created for. The backend owns the buffer; the handle is never
/// freed here.
#[derive(Clone, Copy, Debug, PartialEq, Eq, Structural, Hash)]
pub struct BufferResource {
    pub id: u64,
    pub usage: BufferUsage,
}

/// Slot of a mesh's vertex buffer in the backend's per-asset store.
pub const VERTEX_BUFFER_SLOT: usize = 0;

/// Slot of a mesh's index buffer in the backend's per-asset store.
pub const INDEX_BUFFER_SLOT: usize = 1;

/// The buffers that draw one mesh: its vertex buffer and, where the mesh has
/// index data, its index buffer.
#[derive(Clone, Copy, Debug, PartialEq, Eq, Structural, Hash)]
pub struct MeshBuffers {
    pub vertex_buffer: BufferResource,
    pub index_buffer: Option<BufferResource>,
}

/// Why buffers could not be provided for a mesh.
#[derive(Clone, Copy, Debug, PartialEq, Eq, Structural, Hash)]
pub enum ProvisionError {
    /// The mesh has no buffers yet and the asset source holds no asset for it.
    AssetNotFound,
    /// The asset's vertex data cannot be laid out as the active layout asks.
    LayoutMismatch,
}

} // verus!
