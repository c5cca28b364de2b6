//! Resource assignments: the buffers that are bound for drawing one
//! renderable or one batch.

use vstd::prelude::*;
use crate::assoc::assoc_map;
use crate::assoc::distinct_keys;
use crate::assoc::lemma_assoc_absent;
use crate::assoc::lemma_assoc_at;
use crate::assoc::lemma_assoc_empty;
use crate::assoc::lemma_assoc_push;
use crate::assoc::lemma_assoc_update;
use crate::resource::BufferResource;
use crate::resource::MeshBuffers;

verus! {

/// The buffers bound under one layout name.
#[derive(Debug)]
pub struct VertexBufferBinding {
    pub name: String,
    pub buffers: MeshBuffers,
}

/// The binding of `name` in `bindings`, or `None` where nothing is bound
/// under that name.
pub open spec fn binding_of(bindings: Map<Seq<char>, MeshBuffers>, name: Seq<char>) -> Option<
    MeshBuffers,
> {
    if bindings.contains_key(name) {
        Some(bindings[name])
    } else {
        None
    }
}

/// Record of the buffers that are currently bound for drawing one renderable
/// or one batch, by layout name. Drawing reads it; provisioning writes it.
#[derive(Debug)]
pub struct ResourceAssignment {
    bindings: Vec<VertexBufferBinding>,
}

impl View for ResourceAssignment {
    type V = Map<Seq<char>, MeshBuffers>;

    closed spec fn view(&self) -> Map<Seq<char>, MeshBuffers> {
        assoc_map(self.pairs())
    }
}

impl ResourceAssignment {
    spec fn pairs(&self) -> Seq<(Seq<char>, MeshBuffers)> {
        self.bindings@.map_values(|b: VertexBufferBinding| (b.name@, b.buffers))
    }

    #[verifier::type_invariant]
    spec fn no_name_twice(&self) -> bool {
        distinct_keys(self.pairs())
    }

    /// An assignment in which nothing is bound.
    pub fn new() -> (assignment: Self)
        ensures
            assignment@ == (Map::<Seq<char>, MeshBuffers>::empty()),
    {
        let assignment = ResourceAssignment { bindings: Vec::new() };
        proof {
            lemma_assoc_empty(assignment.pairs());
        }
        assignment
    }

    fn position(&self, name: &String) -> (found: Option<usize>)
        ensures
            match found {
                Some(i) => i < self.bindings@.len() && self.pairs()[i as int].0 == name@,
                None => forall|j: int|
                    0 <= j < self.pairs().len() ==> (#[trigger] self.pairs()[j]).0 != name@,
            },
    {
        let mut i: usize = 0;
        while i < self.bindings.len()
            invariant
                i <= self.bindings@.len(),
                self.pairs().len() == self.bindings@.len(),
                forall|j: int| 0 <= j < i ==> (#[trigger] self.pairs()[j]).0 != name@,
            decreases self.bindings@.len() - i,
        {
            if self.bindings[i].name == *name {
                return Some(i);
            }
            i = i + 1;
        }
        None
    }

    /// The buffers bound under `name`, or `None` where nothing is bound under
    /// it.
    pub fn get_vertex_buffer(&self, name: &str) -> (found: Option<MeshBuffers>)
        ensures
            found == binding_of(self@, name@),
    {
        proof {
            use_type_invariant(self);
        }
        let key: String = name.to_owned();
        match self.position(&key) {
            Some(i) => {
                proof {
                    lemma_assoc_at(self.pairs(), i as int);
                }
                Some(self.bindings[i].buffers)
            },
            None => {
                proof {
                    lemma_assoc_absent(self.pairs(), name@);
                }
                None
            },
        }
    }

    /// Binds the vertex buffer, and the index buffer where there is one,
    /// under `name`, in place of what was bound under it.
    pub fn set_vertex_buffer(
        &mut self,
        name: &str,
        vertex_buffer: BufferResource,
        index_buffer: Option<BufferResource>,
    )
        ensures
            final(self)@ == old(self)@.insert(
                name@,
                (MeshBuffers { vertex_buffer, index_buffer }),
            ),
    {
        proof {
            use_type_invariant(&*self);
        }
        let ghost before = self.pairs();
        let buffers = MeshBuffers { vertex_buffer, index_buffer };
        let key: String = name.to_owned();
        let found = self.position(&key);
        let binding = VertexBufferBinding { name: key, buffers };
        let mut bindings: Vec<VertexBufferBinding> = Vec::new();
        core::mem::swap(&mut bindings, &mut self.bindings);
        match found {
            Some(i) => {
                proof {
                    lemma_assoc_update(before, i as int, buffers);
                    assert(bindings@.update(i as int, binding).map_values(
                        |b: VertexBufferBinding| (b.name@, b.buffers),
                    ) =~= before.update(i as int, (name@, buffers)));
                }
                bindings.set(i, binding);
            },
            None => {
                proof {
                    lemma_assoc_push(before, name@, buffers);
                    assert(bindings@.push(binding).map_values(
                        |b: VertexBufferBinding| (b.name@, b.buffers),
                    ) =~= before.push((name@, buffers)));
                }
                bindings.push(binding);
            },
        }
        self.bindings = bindings;
    }
}

} // verus!
