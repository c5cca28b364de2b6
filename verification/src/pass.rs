//! What one pass of the resource provider does, as mathematics: where it
//! stops, what the slots hold afterwards, what was created, and what each
//! item was given.

use vstd::prelude::*;
use crate::backend::BackendState;
use crate::backend::BufferCreation;
use crate::cache::asset_of;
use crate::cache::is_cached;
use crate::cache::obstacle;
use crate::layout::VertexLayout;
use crate::layout::INDEX_FORMAT;
use crate::mesh::MeshAsset;
use crate::provider::sets_up;
use crate::provider::Renderable;
use crate::provider::VERTEX_BUFFER_NAME;
use crate::resource::BufferResource;
use crate::resource::BufferUsage;
use crate::resource::MeshBuffers;
use crate::resource::MeshIdentity;
use crate::resource::ProvisionError;
use crate::resource::INDEX_BUFFER_SLOT;
use crate::resource::VERTEX_BUFFER_SLOT;
use crate::slots::slot_of;

verus! {

/// The meshes of the items, in their order.
pub open spec fn meshes_of(items: Seq<Renderable>) -> Seq<MeshIdentity> {
    items.map_values(|item: Renderable| item.mesh)
}

/// Whether an item with this mesh makes the pass fail: the mesh is not
/// cached when the pass starts, and its buffers cannot be created.
pub open spec fn fails(
    pre: BackendState,
    meshes: Map<u128, MeshAsset>,
    layout: &VertexLayout,
    mesh: MeshIdentity,
) -> bool {
    !is_cached(pre, mesh) && obstacle(asset_of(meshes, mesh), layout) is Some
}

/// Whether item `k` is where the pass stops: it fails, and none before it
/// does.
pub open spec fn stops_at(
    pre: BackendState,
    meshes: Map<u128, MeshAsset>,
    layout: &VertexLayout,
    ids: Seq<MeshIdentity>,
    k: int,
) -> bool {
    &&& 0 <= k < ids.len()
    &&& fails(pre, meshes, layout, ids[k])
    &&& forall|j: int| 0 <= j < k ==> !fails(pre, meshes, layout, #[trigger] ids[j])
}

/// The item at which the pass stops, or `None` where it goes through.
pub open spec fn first_failure(
    pre: BackendState,
    meshes: Map<u128, MeshAsset>,
    layout: &VertexLayout,
    ids: Seq<MeshIdentity>,
) -> Option<int> {
    if exists|k: int| stops_at(pre, meshes, layout, ids, k) {
        Some(choose|k: int| stops_at(pre, meshes, layout, ids, k))
    } else {
        None
    }
}

/// How many items the pass provides for: all before the one at which it
/// stops.
pub open spec fn provided_count(
    pre: BackendState,
    meshes: Map<u128, MeshAsset>,
    layout: &VertexLayout,
    ids: Seq<MeshIdentity>,
) -> int {
    match first_failure(pre, meshes, layout, ids) {
        Some(k) => k,
        None => ids.len() as int,
    }
}

/// What the pass returns: the error of the item at which it stops, or `Ok`.
pub open spec fn pass_result(
    pre: BackendState,
    meshes: Map<u128, MeshAsset>,
    layout: &VertexLayout,
    ids: Seq<MeshIdentity>,
) -> Result<(), ProvisionError> {
    match first_failure(pre, meshes, layout, ids) {
        Some(k) => Err(obstacle(asset_of(meshes, ids[k]), layout).unwrap()),
        None => Ok(()),
    }
}

/// Whether `mesh` is the mesh of one of the first `n` items.
pub open spec fn seen_before(ids: Seq<MeshIdentity>, n: int, mesh: MeshIdentity) -> bool {
    exists|j: int| 0 <= j < n && j < ids.len() && #[trigger] ids[j] == mesh
}

/// Whether the first `n` items had the buffers of `mesh` created: it was not
/// cached when the pass started, and one of them draws it.
pub open spec fn provisions(
    pre: BackendState,
    ids: Seq<MeshIdentity>,
    n: int,
    mesh: MeshIdentity,
) -> bool {
    !is_cached(pre, mesh) && seen_before(ids, n, mesh)
}

/// How slot `slot` of `mesh` stands after the first `n` items. The vertex
/// slot of a mesh that they had created holds a vertex buffer, and its index
/// slot an index buffer where its asset has index data. Every other slot is
/// as it was.
pub open spec fn slot_after(
    pre: BackendState,
    post: BackendState,
    meshes: Map<u128, MeshAsset>,
    ids: Seq<MeshIdentity>,
    n: int,
    mesh: MeshIdentity,
    slot: usize,
) -> bool {
    if provisions(pre, ids, n, mesh) && slot == VERTEX_BUFFER_SLOT {
        post.slots.contains_key((mesh, slot)) && post.slots[(mesh, slot)].usage
            == BufferUsage::Vertex
    } else if provisions(pre, ids, n, mesh) && slot == INDEX_BUFFER_SLOT && meshes[mesh.id].spec_index_bytes(
        INDEX_FORMAT,
    ) is Some {
        post.slots.contains_key((mesh, slot)) && post.slots[(mesh, slot)].usage
            == BufferUsage::Index
    } else {
        slot_of(post.slots, mesh, slot) == slot_of(pre.slots, mesh, slot)
    }
}

/// The buffers created for `mesh` from `asset`, with the handles that stand
/// in its slots: the vertex buffer, then the index buffer where the asset has
/// index data.
pub open spec fn mesh_creations(
    slots: Map<(MeshIdentity, usize), BufferResource>,
    asset: MeshAsset,
    layout: &VertexLayout,
    mesh: MeshIdentity,
) -> Seq<BufferCreation> {
    let vertex = seq![
        BufferCreation {
            usage: BufferUsage::Vertex,
            data: asset.spec_vertex_bytes(layout).unwrap(),
            resource: slots[(mesh, VERTEX_BUFFER_SLOT)],
        },
    ];
    match asset.spec_index_bytes(INDEX_FORMAT) {
        Some(index_bytes) => vertex.push(
            BufferCreation {
                usage: BufferUsage::Index,
                data: index_bytes,
                resource: slots[(mesh, INDEX_BUFFER_SLOT)],
            },
        ),
        None => vertex,
    }
}

/// The buffers that the first `n` items had created, oldest first: those of
/// each mesh that was not cached when the pass started, at the first item
/// that draws it.
pub open spec fn new_creations(
    pre: BackendState,
    slots: Map<(MeshIdentity, usize), BufferResource>,
    meshes: Map<u128, MeshAsset>,
    layout: &VertexLayout,
    ids: Seq<MeshIdentity>,
    n: int,
) -> Seq<BufferCreation>
    decreases n,
{
    if n <= 0 {
        Seq::empty()
    } else {
        let mesh = ids[n - 1];
        let earlier = new_creations(pre, slots, meshes, layout, ids, n - 1);
        if is_cached(pre, mesh) || seen_before(ids, n - 1, mesh) {
            earlier
        } else {
            earlier + mesh_creations(slots, meshes[mesh.id], layout, mesh)
        }
    }
}

/// The buffers that item `i` is given: what the slots of its mesh hold. Only
/// the item that has a mesh without index data created is given no index
/// buffer whatever the index slot holds.
pub open spec fn bound_buffers(
    pre: BackendState,
    post: BackendState,
    meshes: Map<u128, MeshAsset>,
    ids: Seq<MeshIdentity>,
    i: int,
) -> MeshBuffers {
    let mesh = ids[i];
    MeshBuffers {
        vertex_buffer: post.slots[(mesh, VERTEX_BUFFER_SLOT)],
        index_buffer: if !is_cached(pre, mesh) && !seen_before(ids, i, mesh)
            && meshes[mesh.id].spec_index_bytes(INDEX_FORMAT) is None {
            None
        } else {
            slot_of(post.slots, mesh, INDEX_BUFFER_SLOT)
        },
    }
}

/// Whether item `i` is as the pass leaves an item that it provided for: its
/// buffers are bound under `VERTEX_BUFFER_NAME`, and nothing else of it
/// changed.
pub open spec fn provided_item(
    pre: BackendState,
    post: BackendState,
    meshes: Map<u128, MeshAsset>,
    before: Seq<Renderable>,
    after: Seq<Renderable>,
    i: int,
) -> bool {
    &&& after[i].mesh == before[i].mesh
    &&& after[i].assignment@ == before[i].assignment@.insert(
        VERTEX_BUFFER_NAME@,
        bound_buffers(pre, post, meshes, meshes_of(before), i),
    )
}

/// The outcome of providing for the first `n` items: the slots, the
/// creations and the items themselves.
pub open spec fn provides(
    pre: BackendState,
    post: BackendState,
    meshes: Map<u128, MeshAsset>,
    layout: &VertexLayout,
    before: Seq<Renderable>,
    after: Seq<Renderable>,
    n: int,
) -> bool {
    &&& 0 <= n <= before.len()
    &&& after.len() == before.len()
    &&& forall|mesh: MeshIdentity, slot: usize| #[trigger]
        slot_after(pre, post, meshes, meshes_of(before), n, mesh, slot)
    &&& post.created == pre.created + new_creations(
        pre,
        post.slots,
        meshes,
        layout,
        meshes_of(before),
        n,
    )
    &&& forall|i: int| 0 <= i < n ==> #[trigger] provided_item(pre, post, meshes, before, after, i)
    &&& forall|i: int| n <= i < before.len() ==> #[trigger] after[i] == before[i]
}

/// An item that fails with none failing before it is where the pass stops.
pub proof fn lemma_stops_at_first_failure(
    pre: BackendState,
    meshes: Map<u128, MeshAsset>,
    layout: &VertexLayout,
    ids: Seq<MeshIdentity>,
    k: int,
)
    requires
        stops_at(pre, meshes, layout, ids, k),
    ensures
        first_failure(pre, meshes, layout, ids) == Some(k),
{
    let chosen = choose|c: int| stops_at(pre, meshes, layout, ids, c);
    assert(stops_at(pre, meshes, layout, ids, chosen));
    if chosen < k {
        assert(!fails(pre, meshes, layout, ids[chosen]));
    }
    if k < chosen {
        assert(!fails(pre, meshes, layout, ids[k]));
    }
}

/// Where no item fails, the pass goes through.
pub proof fn lemma_no_failure(
    pre: BackendState,
    meshes: Map<u128, MeshAsset>,
    layout: &VertexLayout,
    ids: Seq<MeshIdentity>,
)
    requires
        forall|j: int| 0 <= j < ids.len() ==> !fails(pre, meshes, layout, #[trigger] ids[j]),
    ensures
        first_failure(pre, meshes, layout, ids) is None,
{
    assert forall|k: int| !stops_at(pre, meshes, layout, ids, k) by {
        if 0 <= k < ids.len() {
            assert(!fails(pre, meshes, layout, ids[k]));
        }
    }
}

/// A mesh is among the first `n + 1` items where it is among the first `n`
/// or is the mesh of item `n`.
proof fn lemma_seen_step(ids: Seq<MeshIdentity>, n: int, mesh: MeshIdentity)
    requires
        0 <= n < ids.len(),
    ensures
        seen_before(ids, n + 1, mesh) == (seen_before(ids, n, mesh) || ids[n] == mesh),
{
    if seen_before(ids, n + 1, mesh) {
        let j = choose|j: int| 0 <= j < n + 1 && j < ids.len() && #[trigger] ids[j] == mesh;
        if j < n {
            assert(seen_before(ids, n, mesh));
        }
    }
    if seen_before(ids, n, mesh) {
        let j = choose|j: int| 0 <= j < n && j < ids.len() && #[trigger] ids[j] == mesh;
        assert(0 <= j < n + 1 && ids[j] == mesh);
    }
    if ids[n] == mesh {
        assert(0 <= n < n + 1 && ids[n] == mesh);
    }
}

/// The creations of the first `n` items depend on the slots of their meshes
/// only.
proof fn lemma_creations_frame(
    pre: BackendState,
    slots: Map<(MeshIdentity, usize), BufferResource>,
    other: Map<(MeshIdentity, usize), BufferResource>,
    meshes: Map<u128, MeshAsset>,
    layout: &VertexLayout,
    ids: Seq<MeshIdentity>,
    n: int,
)
    requires
        0 <= n <= ids.len(),
        forall|j: int|
            0 <= j < n ==> slots[(#[trigger] ids[j], VERTEX_BUFFER_SLOT)] == other[(
                ids[j],
                VERTEX_BUFFER_SLOT,
            )] && slots[(ids[j], INDEX_BUFFER_SLOT)] == other[(ids[j], INDEX_BUFFER_SLOT)],
    ensures
        new_creations(pre, slots, meshes, layout, ids, n) == new_creations(
            pre,
            other,
            meshes,
            layout,
            ids,
            n,
        ),
    decreases n,
{
    if n > 0 {
        lemma_creations_frame(pre, slots, other, meshes, layout, ids, n - 1);
        let mesh = ids[n - 1];
        assert(mesh_creations(slots, meshes[mesh.id], layout, mesh) == mesh_creations(
            other,
            meshes[mesh.id],
            layout,
            mesh,
        ));
    }
}

/// One step of the pass: from the outcome of the first `n` items and what
/// setting up item `n` did, the outcome of the first `n + 1`, or the failure.
pub proof fn lemma_item_provided(
    pre: BackendState,
    cur: BackendState,
    next: BackendState,
    meshes: Map<u128, MeshAsset>,
    layout: &VertexLayout,
    before: Seq<Renderable>,
    after: Seq<Renderable>,
    item: Renderable,
    n: int,
    result: Result<(), ProvisionError>,
)
    requires
        0 <= n < before.len(),
        forall|j: int| 0 <= j < n ==> !fails(pre, meshes, layout, #[trigger] meshes_of(before)[j]),
        provides(pre, cur, meshes, layout, before, after, n),
        item.mesh == before[n].mesh,
        sets_up(
            cur,
            next,
            before[n].assignment,
            item.assignment,
            meshes,
            before[n].mesh,
            layout,
            result,
        ),
    ensures
        match result {
            Ok(_) => !fails(pre, meshes, layout, meshes_of(before)[n]) && provides(
                pre,
                next,
                meshes,
                layout,
                before,
                after.update(n, item),
                n + 1,
            ),
            Err(error) => stops_at(pre, meshes, layout, meshes_of(before), n) && error == obstacle(
                asset_of(meshes, meshes_of(before)[n]),
                layout,
            ).unwrap() && next == cur && item == after[n],
        },
{
    let ids = meshes_of(before);
    let mesh = before[n].mesh;
    let updated = after.update(n, item);
    assert(ids[n] == mesh);
    assert(after[n] == before[n]);
    assert(slot_after(pre, cur, meshes, ids, n, mesh, VERTEX_BUFFER_SLOT));
    assert(slot_after(pre, cur, meshes, ids, n, mesh, INDEX_BUFFER_SLOT));
    if is_cached(cur, mesh) {
        // The mesh was cached when the pass started, or an earlier item had
        // its buffers created: this item is given what the slots hold.
        assert(next == cur);
        assert(is_cached(pre, mesh) || seen_before(ids, n, mesh));
        if !is_cached(pre, mesh) {
            let j = choose|j: int| 0 <= j < n && j < ids.len() && #[trigger] ids[j] == mesh;
            assert(!fails(pre, meshes, layout, ids[j]));
        }
        assert forall|m: MeshIdentity, s: usize| #[trigger]
            slot_after(pre, next, meshes, ids, n + 1, m, s) by {
            assert(slot_after(pre, cur, meshes, ids, n, m, s));
            lemma_seen_step(ids, n, m);
        }
        assert forall|i: int| 0 <= i < n + 1 implies #[trigger] provided_item(
            pre,
            next,
            meshes,
            before,
            updated,
            i,
        ) by {
            if i < n {
                assert(provided_item(pre, cur, meshes, before, after, i));
            }
        }
        assert forall|i: int| n + 1 <= i < before.len() implies #[trigger] updated[i]
            == before[i] by {
            assert(after[i] == before[i]);
        }
    } else {
        // No earlier item draws the mesh: this one has its buffers created,
        // or is where the pass stops.
        assert(!is_cached(pre, mesh));
        assert(!seen_before(ids, n, mesh));
        assert forall|j: int| 0 <= j < n implies #[trigger] ids[j] != mesh by {
            if ids[j] == mesh {
                assert(seen_before(ids, n, mesh));
            }
        }
        match obstacle(asset_of(meshes, mesh), layout) {
            Some(error) => {
                assert(fails(pre, meshes, layout, ids[n]));
            },
            None => {
                let asset = meshes[mesh.id];
                assert(next.slots.contains_key((mesh, VERTEX_BUFFER_SLOT)));
                assert forall|m: MeshIdentity, s: usize| #[trigger]
                    slot_after(pre, next, meshes, ids, n + 1, m, s) by {
                    assert(slot_after(pre, cur, meshes, ids, n, m, s));
                    lemma_seen_step(ids, n, m);
                }
                lemma_creations_frame(pre, cur.slots, next.slots, meshes, layout, ids, n);
                assert(next.created =~= cur.created + mesh_creations(
                    next.slots,
                    asset,
                    layout,
                    mesh,
                ));
                assert(pre.created + new_creations(pre, next.slots, meshes, layout, ids, n + 1)
                    =~= next.created);
                assert forall|i: int| 0 <= i < n + 1 implies #[trigger] provided_item(
                    pre,
                    next,
                    meshes,
                    before,
                    updated,
                    i,
                ) by {
                    if i < n {
                        assert(provided_item(pre, cur, meshes, before, after, i));
                        assert(ids[i] != mesh);
                    }
                }
                assert forall|i: int| n + 1 <= i < before.len() implies #[trigger] updated[i]
                    == before[i] by {
                    assert(after[i] == before[i]);
                }
            },
        }
    }
}

} // verus!
