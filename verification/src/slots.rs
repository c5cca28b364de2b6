//! The per-asset slot store: which buffer stands in which slot of which mesh.

use vstd::prelude::*;
use crate::assoc::assoc_map;
use crate::assoc::distinct_keys;
use crate::assoc::lemma_assoc_absent;
use crate::assoc::lemma_assoc_at;
use crate::assoc::lemma_assoc_empty;
use crate::assoc::lemma_assoc_push;
use crate::assoc::lemma_assoc_update;
use crate::resource::BufferResource;
use crate::resource::MeshIdentity;

verus! {

/// One populated slot.
#[derive(Clone, Copy, Debug)]
pub struct SlotEntry {
    pub mesh: MeshIdentity,
    pub slot: usize,
    pub resource: BufferResource,
}

/// The slot of `mesh` numbered `slot` in `slots`: the buffer in it, or `None`
/// where it is empty.
pub open spec fn slot_of(
    slots: Map<(MeshIdentity, usize), BufferResource>,
    mesh: MeshIdentity,
    slot: usize,
) -> Option<BufferResource> {
    if slots.contains_key((mesh, slot)) {
        Some(slots[(mesh, slot)])
    } else {
        None
    }
}

/// Mapping from a mesh and a slot index to the buffer in that slot. A slot is
/// empty until it is set, and then holds what was set last.
#[derive(Debug)]
pub struct AssetResourceSlots {
    entries: Vec<SlotEntry>,
}

impl View for AssetResourceSlots {
    type V = Map<(MeshIdentity, usize), BufferResource>;

    closed spec fn view(&self) -> Map<(MeshIdentity, usize), BufferResource> {
        assoc_map(self.pairs())
    }
}

impl AssetResourceSlots {
    spec fn pairs(&self) -> Seq<((MeshIdentity, usize), BufferResource)> {
        self.entries@.map_values(|e: SlotEntry| ((e.mesh, e.slot), e.resource))
    }

    #[verifier::type_invariant]
    spec fn no_slot_twice(&self) -> bool {
        distinct_keys(self.pairs())
    }

    /// A store in which every slot is empty.
    pub fn new() -> (slots: Self)
        ensures
            slots@ == (Map::<(MeshIdentity, usize), BufferResource>::empty()),
    {
        let slots = AssetResourceSlots { entries: Vec::new() };
        proof {
            lemma_assoc_empty(slots.pairs());
        }
        slots
    }

    fn position(&self, mesh: MeshIdentity, slot: usize) -> (found: Option<usize>)
        ensures
            match found {
                Some(i) => i < self.entries@.len() && self.pairs()[i as int].0 == (mesh, slot),
                None => forall|j: int|
                    0 <= j < self.pairs().len() ==> (#[trigger] self.pairs()[j]).0 != (mesh, slot),
            },
    {
        let mut i: usize = 0;
        while i < self.entries.len()
            invariant
                i <= self.entries@.len(),
                self.pairs().len() == self.entries@.len(),
                forall|j: int| 0 <= j < i ==> (#[trigger] self.pairs()[j]).0 != (mesh, slot),
            decreases self.entries@.len() - i,
        {
            let entry = &self.entries[i];
            if entry.mesh == mesh && entry.slot == slot {
                return Some(i);
            }
            i = i + 1;
        }
        None
    }

    /// The buffer in slot `slot` of `mesh`, or `None` where the slot is empty.
    pub fn get(&self, mesh: MeshIdentity, slot: usize) -> (found: Option<BufferResource>)
        ensures
            found == slot_of(self@, mesh, slot),
    {
        proof {
            use_type_invariant(self);
        }
        match self.position(mesh, slot) {
            Some(i) => {
                proof {
                    lemma_assoc_at(self.pairs(), i as int);
                }
                Some(self.entries[i].resource)
            },
            None => {
                proof {
                    lemma_assoc_absent(self.pairs(), (mesh, slot));
                }
                None
            },
        }
    }

    /// Puts `resource` into slot `slot` of `mesh`, in place of what was there.
    pub fn set(&mut self, mesh: MeshIdentity, slot: usize, resource: BufferResource)
        ensures
            final(self)@ == old(self)@.insert((mesh, slot), resource),
    {
        proof {
            use_type_invariant(&*self);
        }
        let ghost before = self.pairs();
        let entry = SlotEntry { mesh, slot, resource };
        let found = self.position(mesh, slot);
        let mut entries: Vec<SlotEntry> = Vec::new();
        core::mem::swap(&mut entries, &mut self.entries);
        match found {
            Some(i) => {
                proof {
                    lemma_assoc_update(before, i as int, resource);
                    assert(entries@.update(i as int, entry).map_values(
                        |e: SlotEntry| ((e.mesh, e.slot), e.resource),
                    ) =~= before.update(i as int, ((mesh, slot), resource)));
                }
                entries.set(i, entry);
            },
            None => {
                proof {
                    lemma_assoc_push(before, (mesh, slot), resource);
                    assert(entries@.push(entry).map_values(
                        |e: SlotEntry| ((e.mesh, e.slot), e.resource),
                    ) =~= before.push(((mesh, slot), resource)));
                }
                entries.push(entry);
            },
        }
        self.entries = entries;
    }
}

} // verus!
