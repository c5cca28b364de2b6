//! The backend capability: buffer creation and the per-asset slot store, as
//! a trait for GPU backends to implement, and a headless backend that keeps
//! everything in memory.

use vstd::prelude::*;
use vstd::slice::slice_to_vec;
use crate::resource::BufferResource;
use crate::resource::BufferUsage;
use crate::resource::MeshIdentity;
use crate::slots::slot_of;
use crate::slots::AssetResourceSlots;

verus! {

/// One buffer that a backend created: for which usage, from which bytes, and
/// the handle it returned.
pub struct BufferCreation {
    pub usage: BufferUsage,
    pub data: Seq<u8>,
    pub resource: BufferResource,
}

/// What a backend holds, as far as provisioning is concerned: the populated
/// slots, and the buffers created so far, oldest first.
pub struct BackendState {
    pub slots: Map<(MeshIdentity, usize), BufferResource>,
    pub created: Seq<BufferCreation>,
}

impl BackendState {
    /// The state after `resource` was put into slot `slot` of `mesh`.
    pub open spec fn with_slot(self, mesh: MeshIdentity, slot: usize, resource: BufferResource) -> BackendState {
        BackendState { slots: self.slots.insert((mesh, slot), resource), created: self.created }
    }

    /// The state after a buffer was created for `usage` from `data` and
    /// `resource` came back.
    pub open spec fn with_creation(self, usage: BufferUsage, data: Seq<u8>, resource: BufferResource) -> BackendState {
        BackendState {
            slots: self.slots,
            created: self.created.push(BufferCreation { usage, data, resource }),
        }
    }
}

/// What provisioning asks of a GPU backend. A call changes the backend only
/// as its contract says: exclusive access for the length of a call is what
/// `&mut` demands of the caller.
pub trait RenderResourceContext {
    /// The slots and the creations so far.
    spec fn state(&self) -> BackendState;

    /// The buffer in slot `slot` of `mesh`, or `None` where the slot is
    /// empty.
    fn get_asset_resource(&self, mesh: MeshIdentity, slot: usize) -> (found: Option<BufferResource>)
        ensures
            found == slot_of(self.state().slots, mesh, slot),
    ;

    /// Puts `resource` into slot `slot` of `mesh`. Creates nothing.
    fn set_asset_resource(&mut self, mesh: MeshIdentity, resource: BufferResource, slot: usize)
        ensures
            final(self).state() == old(self).state().with_slot(mesh, slot, resource),
    ;

    /// Creates a buffer for `usage` that holds `data`, and returns its
    /// handle, tagged with `usage`. Touches no slot. There is no failure to
    /// report: a backend that cannot create the buffer does not return, and
    /// the pass ends with it.
    fn create_buffer_with_data(&mut self, usage: BufferUsage, data: &[u8]) -> (buffer: BufferResource)
        ensures
            buffer.usage == usage,
            final(self).state() == old(self).state().with_creation(usage, data@, buffer),
    ;
}

/// One creation as the headless backend records it.
#[derive(Clone, Debug, PartialEq, Eq)]
pub struct RecordedCreation {
    pub usage: BufferUsage,
    pub data: Vec<u8>,
    pub resource: BufferResource,
}

impl View for RecordedCreation {
    type V = BufferCreation;

    open spec fn view(&self) -> BufferCreation {
        BufferCreation { usage: self.usage, data: self.data@, resource: self.resource }
    }
}

/// A backend without a GPU: it keeps the slots in memory, records every
/// creation with its bytes, and numbers the handles in the order of creation.
#[derive(Debug)]
pub struct HeadlessRenderResourceContext {
    pub slots: AssetResourceSlots,
    pub creations: Vec<RecordedCreation>,
}

impl HeadlessRenderResourceContext {
    /// A backend with every slot empty and nothing created.
    pub fn new() -> (backend: Self)
        ensures
            backend.state().slots == (Map::<(MeshIdentity, usize), BufferResource>::empty()),
            backend.state().created == Seq::<BufferCreation>::empty(),
    {
        let backend = HeadlessRenderResourceContext {
            slots: AssetResourceSlots::new(),
            creations: Vec::new(),
        };
        assert(backend.state().created =~= Seq::<BufferCreation>::empty());
        backend
    }
}

impl RenderResourceContext for HeadlessRenderResourceContext {
    open spec fn state(&self) -> BackendState {
        BackendState {
            slots: self.slots@,
            created: self.creations@.map_values(|c: RecordedCreation| c@),
        }
    }

    fn get_asset_resource(&self, mesh: MeshIdentity, slot: usize) -> (found: Option<BufferResource>) {
        self.slots.get(mesh, slot)
    }

    fn set_asset_resource(&mut self, mesh: MeshIdentity, resource: BufferResource, slot: usize) {
        self.slots.set(mesh, slot, resource);
    }

    fn create_buffer_with_data(&mut self, usage: BufferUsage, data: &[u8]) -> (buffer: BufferResource)
        ensures
            buffer.id == old(self).state().created.len(),
    {
        let buffer = BufferResource { id: self.creations.len() as u64, usage };
        let record = RecordedCreation { usage, data: slice_to_vec(data), resource: buffer };
        assert(self.creations@.push(record).map_values(|c: RecordedCreation| c@)
            =~= self.creations@.map_values(|c: RecordedCreation| c@).push(record@));
        self.creations.push(record);
        buffer
    }
}

} // verus!
