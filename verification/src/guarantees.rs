//! What callers can rely on, whatever the meshes, the layouts and the state
//! of the backend: each statement is proved from the contracts of the cache
//! and of the pass.

use vstd::prelude::*;
use crate::assignment::binding_of;
use crate::assignment::ResourceAssignment;
use crate::backend::BackendState;
use crate::backend::BufferCreation;
use crate::cache::asset_of;
use crate::cache::is_cached;
use crate::cache::obstacle;
use crate::cache::resolves;
use crate::layout::VertexLayout;
use crate::layout::INDEX_FORMAT;
use crate::mesh::MeshAsset;
use crate::pass::lemma_no_failure;
use crate::pass::lemma_stops_at_first_failure;
use crate::pass::meshes_of;
use crate::pass::new_creations;
use crate::pass::pass_result;
use crate::pass::provided_count;
use crate::pass::provided_item;
use crate::pass::provides;
use crate::pass::provisions;
use crate::pass::seen_before;
use crate::pass::slot_after;
use crate::pass::stops_at;
use crate::provider::sets_up;
use crate::provider::Renderable;
use crate::provider::VERTEX_BUFFER_NAME;
use crate::resource::BufferResource;
use crate::resource::BufferUsage;
use crate::resource::MeshBuffers;
use crate::resource::MeshIdentity;
use crate::resource::ProvisionError;
use crate::resource::INDEX_BUFFER_SLOT;
use crate::resource::VERTEX_BUFFER_SLOT;
use crate::slots::slot_of;

verus! {

/// How many of the buffers in `log` were created for `usage`.
pub open spec fn created_for(log: Seq<BufferCreation>, usage: BufferUsage) -> nat
    decreases log.len(),
{
    if log.len() == 0 {
        0
    } else {
        created_for(log.drop_last(), usage) + if log.last().usage == usage {
            1nat
        } else {
            0nat
        }
    }
}

/// Appending a creation counts it where it is for the usage asked about.
pub proof fn lemma_created_for_push(log: Seq<BufferCreation>, creation: BufferCreation, usage: BufferUsage)
    ensures
        created_for(log.push(creation), usage) == created_for(log, usage) + (if creation.usage
            == usage {
            1nat
        } else {
            0nat
        }),
{
    assert(log.push(creation).drop_last() =~= log);
}

/// Whether resolving `mesh` has buffers created: it is not cached, and
/// nothing stands in the way of creating them.
pub open spec fn creates_buffers(
    pre: BackendState,
    meshes: Map<u128, MeshAsset>,
    mesh: MeshIdentity,
    layout: &VertexLayout,
) -> bool {
    !is_cached(pre, mesh) && obstacle(asset_of(meshes, mesh), layout) is None
}

/// One resolution creates one vertex buffer where the mesh is not cached and
/// its buffers can be created, and then one index buffer where its asset has
/// index data. In every other case it creates nothing. A mesh that was
/// resolved is cached.
pub proof fn lemma_resolution_creates_once(
    pre: BackendState,
    post: BackendState,
    meshes: Map<u128, MeshAsset>,
    mesh: MeshIdentity,
    layout: &VertexLayout,
    result: Result<MeshBuffers, ProvisionError>,
)
    requires
        resolves(pre, post, meshes, mesh, layout, result),
    ensures
        result is Ok <==> is_cached(pre, mesh) || creates_buffers(pre, meshes, mesh, layout),
        result is Ok ==> is_cached(post, mesh),
        created_for(post.created, BufferUsage::Vertex) == created_for(
            pre.created,
            BufferUsage::Vertex,
        ) + (if creates_buffers(pre, meshes, mesh, layout) {
            1nat
        } else {
            0nat
        }),
        created_for(post.created, BufferUsage::Index) == created_for(
            pre.created,
            BufferUsage::Index,
        ) + (if creates_buffers(pre, meshes, mesh, layout) && meshes[mesh.id].spec_index_bytes(
            INDEX_FORMAT,
        ) is Some {
            1nat
        } else {
            0nat
        }),
{
    if creates_buffers(pre, meshes, mesh, layout) {
        let asset = meshes[mesh.id];
        let buffers = result.unwrap();
        let vertex = BufferCreation {
            usage: BufferUsage::Vertex,
            data: asset.spec_vertex_bytes(layout).unwrap(),
            resource: buffers.vertex_buffer,
        };
        lemma_created_for_push(pre.created, vertex, BufferUsage::Vertex);
        lemma_created_for_push(pre.created, vertex, BufferUsage::Index);
        match asset.spec_index_bytes(INDEX_FORMAT) {
            Some(index_bytes) => {
                let index = BufferCreation {
                    usage: BufferUsage::Index,
                    data: index_bytes,
                    resource: buffers.index_buffer.unwrap(),
                };
                lemma_created_for_push(pre.created.push(vertex), index, BufferUsage::Vertex);
                lemma_created_for_push(pre.created.push(vertex), index, BufferUsage::Index);
            },
            None => {},
        }
    }
}

/// Resolving the same mesh any number of times, one call after the other:
/// whatever the first call left behind stays as it is, every later call
/// succeeds exactly where the first did and gives the same vertex buffer, and
/// all the calls together create what the first call alone creates: one
/// vertex buffer where the mesh was not cached and its buffers can be
/// created, then one index buffer where its asset has index data, and
/// nothing in every other case.
pub proof fn lemma_repeated_resolution(
    states: Seq<BackendState>,
    results: Seq<Result<MeshBuffers, ProvisionError>>,
    meshes: Map<u128, MeshAsset>,
    mesh: MeshIdentity,
    layout: &VertexLayout,
    k: int,
)
    requires
        states.len() == results.len() + 1,
        forall|c: int|
            0 <= c < results.len() ==> resolves(
                states[c],
                #[trigger] states[c + 1],
                meshes,
                mesh,
                layout,
                results[c],
            ),
        1 <= k <= results.len(),
    ensures
        states[k] == states[1],
        results[k - 1] is Ok <==> results[0] is Ok,
        results[k - 1] is Ok ==> results[k - 1].unwrap().vertex_buffer
            == results[0].unwrap().vertex_buffer,
        created_for(states[k].created, BufferUsage::Vertex) == created_for(
            states[0].created,
            BufferUsage::Vertex,
        ) + (if creates_buffers(states[0], meshes, mesh, layout) {
            1nat
        } else {
            0nat
        }),
        created_for(states[k].created, BufferUsage::Index) == created_for(
            states[0].created,
            BufferUsage::Index,
        ) + (if creates_buffers(states[0], meshes, mesh, layout)
            && meshes[mesh.id].spec_index_bytes(INDEX_FORMAT) is Some {
            1nat
        } else {
            0nat
        }),
    decreases k,
{
    assert(resolves(states[0], states[0int + 1], meshes, mesh, layout, results[0]));
    lemma_resolution_creates_once(states[0], states[1], meshes, mesh, layout, results[0]);
    if k > 1 {
        lemma_repeated_resolution(states, results, meshes, mesh, layout, k - 1);
        assert(resolves(states[k - 1], states[k - 1 + 1], meshes, mesh, layout, results[k - 1]));
    }
}

/// A mesh without index data is given no index buffer: setting up an
/// assignment for it creates no index buffer, leaves its index slot as it
/// was and binds no index buffer. This is said of every mesh but one that is
/// cached with a buffer in its index slot.
pub proof fn lemma_no_index_data_no_index_buffer(
    pre: BackendState,
    post: BackendState,
    before: ResourceAssignment,
    after: ResourceAssignment,
    meshes: Map<u128, MeshAsset>,
    mesh: MeshIdentity,
    layout: &VertexLayout,
    result: Result<(), ProvisionError>,
)
    requires
        sets_up(pre, post, before, after, meshes, mesh, layout, result),
        meshes.contains_key(mesh.id),
        meshes[mesh.id].indices is None,
        !is_cached(pre, mesh) || !pre.slots.contains_key((mesh, INDEX_BUFFER_SLOT)),
    ensures
        created_for(post.created, BufferUsage::Index) == created_for(
            pre.created,
            BufferUsage::Index,
        ),
        slot_of(post.slots, mesh, INDEX_BUFFER_SLOT) == slot_of(pre.slots, mesh, INDEX_BUFFER_SLOT),
        result is Ok ==> after@[VERTEX_BUFFER_NAME@].index_buffer is None,
{
    match result {
        Ok(_) => {
            lemma_resolution_creates_once(
                pre,
                post,
                meshes,
                mesh,
                layout,
                Ok(after@[VERTEX_BUFFER_NAME@]),
            );
        },
        Err(error) => {
            lemma_resolution_creates_once(pre, post, meshes, mesh, layout, Err(error));
        },
    }
}

/// A batch and a renderable that draw the same mesh, both provided for in
/// one pass, have the same buffers bound. This is said of every batch but
/// one that is the first to draw a mesh which starts the pass with a buffer
/// in its index slot and none in its vertex slot, while its asset has no
/// index data.
pub proof fn lemma_batch_and_renderable_agree(
    pre: BackendState,
    post: BackendState,
    meshes: Map<u128, MeshAsset>,
    layout: &VertexLayout,
    batches_before: Seq<Renderable>,
    renderables_before: Seq<Renderable>,
    batches_after: Seq<Renderable>,
    renderables_after: Seq<Renderable>,
    n: int,
    b: int,
    r: int,
)
    requires
        batches_after.len() == batches_before.len(),
        provides(
            pre,
            post,
            meshes,
            layout,
            batches_before + renderables_before,
            batches_after + renderables_after,
            n,
        ),
        0 <= b < batches_before.len(),
        0 <= r,
        batches_before.len() + r < n,
        batches_before[b].mesh == renderables_before[r].mesh,
        is_cached(pre, batches_before[b].mesh) || seen_before(
            meshes_of(batches_before + renderables_before),
            b,
            batches_before[b].mesh,
        ) || !pre.slots.contains_key((batches_before[b].mesh, INDEX_BUFFER_SLOT))
            || meshes[batches_before[b].mesh.id].spec_index_bytes(INDEX_FORMAT) is Some,
    ensures
        batches_after[b].assignment@.contains_key(VERTEX_BUFFER_NAME@),
        renderables_after[r].assignment@.contains_key(VERTEX_BUFFER_NAME@),
        batches_after[b].assignment@[VERTEX_BUFFER_NAME@]
            == renderables_after[r].assignment@[VERTEX_BUFFER_NAME@],
{
    let before = batches_before + renderables_before;
    let after = batches_after + renderables_after;
    let ids = meshes_of(before);
    let mesh = batches_before[b].mesh;
    let second = batches_before.len() + r;
    assert(provided_item(pre, post, meshes, before, after, b));
    assert(provided_item(pre, post, meshes, before, after, second));
    assert(after[b] == batches_after[b]);
    assert(after[second] == renderables_after[r]);
    assert(ids[b] == mesh);
    assert(ids[second] == mesh);
    assert(seen_before(ids, second, mesh));
    assert(slot_after(pre, post, meshes, ids, n, mesh, INDEX_BUFFER_SLOT));
}

/// Where the pass stops at item `k`, every item before it has the buffers
/// of its mesh bound: the vertex buffer that the mesh's vertex slot holds.
/// Item `k` and the items after it are as they were.
pub proof fn lemma_failure_keeps_earlier_items(
    pre: BackendState,
    post: BackendState,
    meshes: Map<u128, MeshAsset>,
    layout: &VertexLayout,
    before: Seq<Renderable>,
    after: Seq<Renderable>,
    k: int,
)
    requires
        stops_at(pre, meshes, layout, meshes_of(before), k),
        provides(
            pre,
            post,
            meshes,
            layout,
            before,
            after,
            provided_count(pre, meshes, layout, meshes_of(before)),
        ),
    ensures
        pass_result(pre, meshes, layout, meshes_of(before)) == Err::<(), ProvisionError>(
            obstacle(asset_of(meshes, before[k].mesh), layout).unwrap(),
        ),
        forall|i: int|
            0 <= i < k ==> is_cached(post, before[i].mesh) && binding_of(
                (#[trigger] after[i]).assignment@,
                VERTEX_BUFFER_NAME@,
            ) is Some && after[i].assignment@[VERTEX_BUFFER_NAME@].vertex_buffer == post.slots[(
                before[i].mesh,
                VERTEX_BUFFER_SLOT,
            )],
        forall|i: int| k <= i < before.len() ==> #[trigger] after[i] == before[i],
{
    let ids = meshes_of(before);
    lemma_stops_at_first_failure(pre, meshes, layout, ids, k);
    assert forall|i: int| 0 <= i < k implies is_cached(post, before[i].mesh) && binding_of(
        (#[trigger] after[i]).assignment@,
        VERTEX_BUFFER_NAME@,
    ) is Some && after[i].assignment@[VERTEX_BUFFER_NAME@].vertex_buffer == post.slots[(
        before[i].mesh,
        VERTEX_BUFFER_SLOT,
    )] by {
        assert(provided_item(pre, post, meshes, before, after, i));
        assert(ids[i] == before[i].mesh);
        assert(slot_after(pre, post, meshes, ids, k, before[i].mesh, VERTEX_BUFFER_SLOT));
        assert(seen_before(ids, k, before[i].mesh));
    }
}

/// A pass over items that an earlier pass has provided for creates nothing
/// and touches no slot.
pub proof fn lemma_second_pass_creates_nothing(
    pre: BackendState,
    between: BackendState,
    post: BackendState,
    meshes: Map<u128, MeshAsset>,
    changed: Map<u128, MeshAsset>,
    layout: &VertexLayout,
    other: &VertexLayout,
    first: Seq<Renderable>,
    second: Seq<Renderable>,
    third: Seq<Renderable>,
)
    requires
        provides(pre, between, meshes, layout, first, second, first.len() as int),
        provides(
            between,
            post,
            changed,
            other,
            second,
            third,
            provided_count(between, changed, other, meshes_of(second)),
        ),
    ensures
        pass_result(between, changed, other, meshes_of(second)) == Ok::<(), ProvisionError>(()),
        post == between,
{
    let ids = meshes_of(second);
    let n = first.len() as int;
    assert forall|j: int| 0 <= j < ids.len() implies is_cached(between, #[trigger] ids[j]) by {
        assert(provided_item(pre, between, meshes, first, second, j));
        assert(meshes_of(first)[j] == ids[j]);
        assert(slot_after(pre, between, meshes, meshes_of(first), n, ids[j], VERTEX_BUFFER_SLOT));
        assert(seen_before(meshes_of(first), n, ids[j]));
    }
    lemma_no_failure(between, changed, other, ids);
    lemma_cached_items_create_nothing(between, post.slots, changed, other, ids, ids.len() as int);
    assert(between.created + Seq::<BufferCreation>::empty() =~= between.created);
    assert forall|key: (MeshIdentity, usize)|
        #![trigger post.slots.contains_key(key)]
        #![trigger between.slots.contains_key(key)]
        post.slots.contains_key(key) == between.slots.contains_key(key) && (post.slots.contains_key(
            key,
        ) ==> post.slots[key] == between.slots[key]) by {
        assert(slot_after(between, post, changed, ids, ids.len() as int, key.0, key.1));
        assert((key.0, key.1) == key);
        if provisions(between, ids, ids.len() as int, key.0) {
            let j = choose|j: int| 0 <= j < ids.len() && j < ids.len() && #[trigger] ids[j] == key.0;
            assert(is_cached(between, ids[j]));
        }
    }
    assert(post.slots =~= between.slots);
}

/// Items whose meshes are all cached have nothing created.
proof fn lemma_cached_items_create_nothing(
    pre: BackendState,
    slots: Map<(MeshIdentity, usize), BufferResource>,
    meshes: Map<u128, MeshAsset>,
    layout: &VertexLayout,
    ids: Seq<MeshIdentity>,
    n: int,
)
    requires
        0 <= n <= ids.len(),
        forall|j: int| 0 <= j < ids.len() ==> is_cached(pre, #[trigger] ids[j]),
    ensures
        new_creations(pre, slots, meshes, layout, ids, n) == Seq::<BufferCreation>::empty(),
    decreases n,
{
    if n > 0 {
        lemma_cached_items_create_nothing(pre, slots, meshes, layout, ids, n - 1);
        assert(is_cached(pre, ids[n - 1]));
    }
}

} // verus!
