use mesh_resource_provider::asset_source::MeshAssets;
use mesh_resource_provider::assignment::ResourceAssignment;
use mesh_resource_provider::backend::HeadlessRenderResourceContext;
use mesh_resource_provider::backend::RenderResourceContext;
use mesh_resource_provider::cache::create_buffers;
use mesh_resource_provider::cache::find_cached;
use mesh_resource_provider::cache::resolve_or_create;
use mesh_resource_provider::layout::VertexAttribute;
use mesh_resource_provider::layout::VertexFormat;
use mesh_resource_provider::layout::VertexLayout;
use mesh_resource_provider::layout::VertexLayoutRegistry;
use mesh_resource_provider::mesh::MeshAsset;
use mesh_resource_provider::mesh::MeshAttribute;
use mesh_resource_provider::provider::mesh_resource_provider_system;
use mesh_resource_provider::provider::provide_mesh_resources;
use mesh_resource_provider::provider::setup_mesh_resource;
use mesh_resource_provider::provider::Renderable;
use mesh_resource_provider::provider::VERTEX_BUFFER_NAME;
use mesh_resource_provider::resource::BufferResource;
use mesh_resource_provider::resource::BufferUsage;
use mesh_resource_provider::resource::MeshBuffers;
use mesh_resource_provider::resource::MeshIdentity;
use mesh_resource_provider::resource::ProvisionError;
use mesh_resource_provider::resource::INDEX_BUFFER_SLOT;
use mesh_resource_provider::resource::VERTEX_BUFFER_SLOT;

const M1: MeshIdentity = MeshIdentity { id: 1 };
const M2: MeshIdentity = MeshIdentity { id: 2 };
const M3: MeshIdentity = MeshIdentity { id: 3 };
const MISSING: MeshIdentity = MeshIdentity { id: 404 };

fn layout() -> VertexLayout {
    VertexLayout {
        name: "Vertex".to_string(),
        stride: 12,
        attributes: vec![
            VertexAttribute { name: "position".to_string(), format: VertexFormat::Float3, offset: 0 },
        ],
    }
}

fn mesh(vertex_count: usize, first: u8, indices: Option<Vec<u16>>) -> MeshAsset {
    MeshAsset {
        vertex_count,
        attributes: vec![
            MeshAttribute {
                name: "position".to_string(),
                format: VertexFormat::Float3,
                data: (0..vertex_count * 12).map(|i| first.wrapping_add(i as u8)).collect(),
            },
        ],
        indices,
    }
}

fn payload(vertex_count: usize, first: u8) -> Vec<u8> {
    (0..vertex_count * 12).map(|i| first.wrapping_add(i as u8)).collect()
}

fn unskinned() -> MeshAsset {
    MeshAsset { vertex_count: 3, attributes: vec![], indices: None }
}

fn drawn_with(mesh: MeshIdentity) -> Renderable {
    Renderable { mesh, assignment: ResourceAssignment::new() }
}

fn bound(item: &Renderable) -> Option<MeshBuffers> {
    item.assignment.get_vertex_buffer(VERTEX_BUFFER_NAME)
}

fn count(backend: &HeadlessRenderResourceContext, usage: BufferUsage) -> usize {
    backend.creations.iter().filter(|c| c.usage == usage).count()
}

#[test]
fn buffers_are_bound_under_the_name_vertex() {
    assert_eq!(VERTEX_BUFFER_NAME, "Vertex");
}

#[test]
fn first_resolution_creates_and_stores() {
    let mut backend = HeadlessRenderResourceContext::new();
    let mut meshes = MeshAssets::new();
    meshes.set(M1, mesh(2, 10, Some(vec![0, 1, 1])));
    let buffers = resolve_or_create(&mut backend, &meshes, M1, &layout()).unwrap();
    assert_eq!(buffers.vertex_buffer, BufferResource { id: 0, usage: BufferUsage::Vertex });
    assert_eq!(buffers.index_buffer, Some(BufferResource { id: 1, usage: BufferUsage::Index }));
    assert_eq!(backend.creations.len(), 2);
    assert_eq!(backend.creations[0].usage, BufferUsage::Vertex);
    assert_eq!(backend.creations[0].data, payload(2, 10));
    assert_eq!(backend.creations[0].resource, buffers.vertex_buffer);
    assert_eq!(backend.creations[1].usage, BufferUsage::Index);
    assert_eq!(backend.creations[1].data, vec![0, 0, 1, 0, 1, 0]);
    assert_eq!(backend.creations[1].resource, buffers.index_buffer.unwrap());
    assert_eq!(backend.get_asset_resource(M1, VERTEX_BUFFER_SLOT), Some(buffers.vertex_buffer));
    assert_eq!(backend.get_asset_resource(M1, INDEX_BUFFER_SLOT), buffers.index_buffer);
    assert_eq!(backend.get_asset_resource(M2, VERTEX_BUFFER_SLOT), None);
}

#[test]
fn repeated_resolution_creates_once() {
    let mut backend = HeadlessRenderResourceContext::new();
    let mut meshes = MeshAssets::new();
    meshes.set(M1, mesh(2, 10, Some(vec![0, 1, 1])));
    let first = resolve_or_create(&mut backend, &meshes, M1, &layout());
    assert!(first.is_ok());
    for _ in 0..5 {
        assert_eq!(resolve_or_create(&mut backend, &meshes, M1, &layout()), first);
    }
    assert_eq!(count(&backend, BufferUsage::Vertex), 1);
    assert_eq!(count(&backend, BufferUsage::Index), 1);
}

#[test]
fn cached_mesh_needs_no_asset_and_no_fitting_layout() {
    let mut backend = HeadlessRenderResourceContext::new();
    let mut meshes = MeshAssets::new();
    meshes.set(M1, mesh(2, 10, None));
    let first = resolve_or_create(&mut backend, &meshes, M1, &layout()).unwrap();
    let elsewhere = MeshAssets::new();
    let other = VertexLayout {
        name: "Skin".to_string(),
        stride: 4,
        attributes: vec![
            VertexAttribute { name: "weights".to_string(), format: VertexFormat::Float4, offset: 0 },
        ],
    };
    assert_eq!(resolve_or_create(&mut backend, &elsewhere, M1, &other), Ok(first));
    assert_eq!(find_cached(&backend, M1), Some(first));
    assert_eq!(find_cached(&backend, M2), None);
    assert_eq!(backend.creations.len(), 1);
}

#[test]
fn cached_mesh_gives_what_the_slots_hold() {
    let vertex = BufferResource { id: 70, usage: BufferUsage::Vertex };
    let index = BufferResource { id: 71, usage: BufferUsage::Index };
    let mut backend = HeadlessRenderResourceContext::new();
    backend.set_asset_resource(M1, vertex, VERTEX_BUFFER_SLOT);
    backend.set_asset_resource(M2, vertex, VERTEX_BUFFER_SLOT);
    backend.set_asset_resource(M2, index, INDEX_BUFFER_SLOT);
    backend.set_asset_resource(M3, index, INDEX_BUFFER_SLOT);
    let meshes = MeshAssets::new();
    assert_eq!(
        resolve_or_create(&mut backend, &meshes, M1, &layout()),
        Ok(MeshBuffers { vertex_buffer: vertex, index_buffer: None })
    );
    assert_eq!(
        resolve_or_create(&mut backend, &meshes, M2, &layout()),
        Ok(MeshBuffers { vertex_buffer: vertex, index_buffer: Some(index) })
    );
    assert_eq!(
        resolve_or_create(&mut backend, &meshes, M3, &layout()),
        Err(ProvisionError::AssetNotFound)
    );
    assert_eq!(backend.creations.len(), 0);
}

#[test]
fn missing_asset_is_reported_and_changes_nothing() {
    let mut backend = HeadlessRenderResourceContext::new();
    let meshes = MeshAssets::new();
    assert_eq!(
        resolve_or_create(&mut backend, &meshes, MISSING, &layout()),
        Err(ProvisionError::AssetNotFound)
    );
    assert_eq!(create_buffers(&mut backend, MISSING, None, &layout()), Err(ProvisionError::AssetNotFound));
    assert_eq!(backend.creations.len(), 0);
    assert_eq!(backend.get_asset_resource(MISSING, VERTEX_BUFFER_SLOT), None);
    assert_eq!(backend.get_asset_resource(MISSING, INDEX_BUFFER_SLOT), None);
}

#[test]
fn layout_mismatch_is_reported_and_changes_nothing() {
    let mut backend = HeadlessRenderResourceContext::new();
    let mut meshes = MeshAssets::new();
    meshes.set(M1, unskinned());
    assert_eq!(
        resolve_or_create(&mut backend, &meshes, M1, &layout()),
        Err(ProvisionError::LayoutMismatch)
    );
    assert_eq!(
        create_buffers(&mut backend, M1, Some(&unskinned()), &layout()),
        Err(ProvisionError::LayoutMismatch)
    );
    assert_eq!(backend.creations.len(), 0);
    assert_eq!(backend.get_asset_resource(M1, VERTEX_BUFFER_SLOT), None);
}

#[test]
fn creating_buffers_does_not_ask_the_slots() {
    let mut backend = HeadlessRenderResourceContext::new();
    let asset = mesh(1, 0, None);
    let first = create_buffers(&mut backend, M1, Some(&asset), &layout()).unwrap();
    let second = create_buffers(&mut backend, M1, Some(&asset), &layout()).unwrap();
    assert_eq!(first.vertex_buffer, BufferResource { id: 0, usage: BufferUsage::Vertex });
    assert_eq!(second.vertex_buffer, BufferResource { id: 1, usage: BufferUsage::Vertex });
    assert_eq!(backend.get_asset_resource(M1, VERTEX_BUFFER_SLOT), Some(second.vertex_buffer));
    assert_eq!(backend.creations.len(), 2);
}

#[test]
fn mesh_without_indices_gets_no_index_buffer() {
    let mut backend = HeadlessRenderResourceContext::new();
    let mut meshes = MeshAssets::new();
    meshes.set(M1, mesh(4, 0, None));
    let mut assignment = ResourceAssignment::new();
    assert_eq!(setup_mesh_resource(&mut backend, &mut assignment, &layout(), M1, &meshes), Ok(()));
    let buffers = assignment.get_vertex_buffer("Vertex").unwrap();
    assert_eq!(buffers.index_buffer, None);
    assert_eq!(count(&backend, BufferUsage::Vertex), 1);
    assert_eq!(count(&backend, BufferUsage::Index), 0);
    assert_eq!(backend.get_asset_resource(M1, INDEX_BUFFER_SLOT), None);
    let mut again = ResourceAssignment::new();
    assert_eq!(setup_mesh_resource(&mut backend, &mut again, &layout(), M1, &meshes), Ok(()));
    assert_eq!(again.get_vertex_buffer("Vertex"), Some(buffers));
    assert_eq!(count(&backend, BufferUsage::Index), 0);
}

#[test]
fn mesh_with_no_indices_at_all_still_gets_an_index_buffer() {
    let mut backend = HeadlessRenderResourceContext::new();
    let mut meshes = MeshAssets::new();
    meshes.set(M1, mesh(1, 0, Some(vec![])));
    let buffers = resolve_or_create(&mut backend, &meshes, M1, &layout()).unwrap();
    assert_eq!(buffers.index_buffer, Some(BufferResource { id: 1, usage: BufferUsage::Index }));
    assert_eq!(backend.creations[1].data, Vec::<u8>::new());
}

#[test]
fn setup_keeps_other_bindings_and_replaces_its_own() {
    let stale = BufferResource { id: 90, usage: BufferUsage::Vertex };
    let skin = BufferResource { id: 91, usage: BufferUsage::Vertex };
    let mut backend = HeadlessRenderResourceContext::new();
    let mut meshes = MeshAssets::new();
    meshes.set(M1, mesh(1, 0, None));
    let mut assignment = ResourceAssignment::new();
    assignment.set_vertex_buffer("Vertex", stale, Some(stale));
    assignment.set_vertex_buffer("Skin", skin, None);
    assert_eq!(setup_mesh_resource(&mut backend, &mut assignment, &layout(), M1, &meshes), Ok(()));
    assert_eq!(
        assignment.get_vertex_buffer("Vertex"),
        Some(MeshBuffers {
            vertex_buffer: BufferResource { id: 0, usage: BufferUsage::Vertex },
            index_buffer: None,
        })
    );
    assert_eq!(
        assignment.get_vertex_buffer("Skin"),
        Some(MeshBuffers { vertex_buffer: skin, index_buffer: None })
    );
}

#[test]
fn failed_setup_leaves_the_assignment() {
    let stale = BufferResource { id: 90, usage: BufferUsage::Vertex };
    let mut backend = HeadlessRenderResourceContext::new();
    let meshes = MeshAssets::new();
    let mut assignment = ResourceAssignment::new();
    assignment.set_vertex_buffer("Vertex", stale, None);
    assert_eq!(
        setup_mesh_resource(&mut backend, &mut assignment, &layout(), MISSING, &meshes),
        Err(ProvisionError::AssetNotFound)
    );
    assert_eq!(
        assignment.get_vertex_buffer("Vertex"),
        Some(MeshBuffers { vertex_buffer: stale, index_buffer: None })
    );
}

#[test]
fn batch_and_renderable_of_one_mesh_share_its_buffers() {
    let mut backend = HeadlessRenderResourceContext::new();
    let mut meshes = MeshAssets::new();
    meshes.set(M1, mesh(24, 0, None));
    let mut registry = VertexLayoutRegistry::new();
    let mut batches = vec![drawn_with(M1)];
    let mut renderables = vec![drawn_with(M1)];
    let result = mesh_resource_provider_system(
        &mut registry,
        layout(),
        &mut backend,
        &meshes,
        &mut batches,
        &mut renderables,
    );
    assert_eq!(result, Ok(()));
    assert_eq!(backend.creations.len(), 1);
    assert_eq!(backend.creations[0].usage, BufferUsage::Vertex);
    assert_eq!(backend.creations[0].data.len(), 24 * 12);
    assert_eq!(backend.creations[0].data, payload(24, 0));
    let b1 = bound(&batches[0]).unwrap();
    let r7 = bound(&renderables[0]).unwrap();
    assert_eq!(b1.vertex_buffer, r7.vertex_buffer);
    assert_eq!(b1.vertex_buffer, backend.creations[0].resource);
    assert_eq!(b1.index_buffer, None);
    assert_eq!(r7.index_buffer, None);
    let again = mesh_resource_provider_system(
        &mut registry,
        layout(),
        &mut backend,
        &meshes,
        &mut batches,
        &mut renderables,
    );
    assert_eq!(again, Ok(()));
    assert_eq!(backend.creations.len(), 1);
    assert_eq!(bound(&batches[0]), Some(b1));
    assert_eq!(bound(&renderables[0]), Some(r7));
}

#[test]
fn pass_creates_each_mesh_once_in_order_of_first_use() {
    let mut backend = HeadlessRenderResourceContext::new();
    let mut meshes = MeshAssets::new();
    meshes.set(M1, mesh(1, 10, Some(vec![7])));
    meshes.set(M2, mesh(2, 20, None));
    meshes.set(M3, mesh(3, 30, Some(vec![8, 9])));
    let mut batches = vec![drawn_with(M2), drawn_with(M1), drawn_with(M2)];
    let mut renderables = vec![drawn_with(M1), drawn_with(M3), drawn_with(M2)];
    let result = provide_mesh_resources(&mut backend, &meshes, &layout(), &mut batches, &mut renderables);
    assert_eq!(result, Ok(()));
    let usages: Vec<BufferUsage> = backend.creations.iter().map(|c| c.usage).collect();
    assert_eq!(
        usages,
        vec![
            BufferUsage::Vertex,
            BufferUsage::Vertex,
            BufferUsage::Index,
            BufferUsage::Vertex,
            BufferUsage::Index,
        ]
    );
    assert_eq!(backend.creations[0].data, payload(2, 20));
    assert_eq!(backend.creations[1].data, payload(1, 10));
    assert_eq!(backend.creations[2].data, vec![7, 0]);
    assert_eq!(backend.creations[3].data, payload(3, 30));
    assert_eq!(backend.creations[4].data, vec![8, 0, 9, 0]);
    let m1 = find_cached(&backend, M1).unwrap();
    let m2 = find_cached(&backend, M2).unwrap();
    let m3 = find_cached(&backend, M3).unwrap();
    assert_eq!(m2.vertex_buffer, backend.creations[0].resource);
    assert_eq!(m2.index_buffer, None);
    assert_eq!(m1.vertex_buffer, backend.creations[1].resource);
    assert_eq!(m1.index_buffer, Some(backend.creations[2].resource));
    assert_eq!(m3.vertex_buffer, backend.creations[3].resource);
    assert_eq!(m3.index_buffer, Some(backend.creations[4].resource));
    assert_eq!(bound(&batches[0]), Some(m2));
    assert_eq!(bound(&batches[1]), Some(m1));
    assert_eq!(bound(&batches[2]), Some(m2));
    assert_eq!(bound(&renderables[0]), Some(m1));
    assert_eq!(bound(&renderables[1]), Some(m3));
    assert_eq!(bound(&renderables[2]), Some(m2));
    assert_eq!(batches[1].mesh, M1);
    assert_eq!(renderables[1].mesh, M3);
}

#[test]
fn pass_registers_the_layout_whatever_it_processes() {
    let mut meshes = MeshAssets::new();
    meshes.set(M1, mesh(1, 0, None));
    let earlier = VertexLayout { name: "Earlier".to_string(), stride: 1, attributes: vec![] };

    let mut registry = VertexLayoutRegistry::new();
    registry.register(earlier.clone());
    let mut backend = HeadlessRenderResourceContext::new();
    let mut none: Vec<Renderable> = vec![];
    let mut nothing: Vec<Renderable> = vec![];
    let empty = mesh_resource_provider_system(
        &mut registry,
        layout(),
        &mut backend,
        &meshes,
        &mut none,
        &mut nothing,
    );
    assert_eq!(empty, Ok(()));
    assert_eq!(registry.active, Some(layout()));
    assert_eq!(backend.creations.len(), 0);

    let mut registry = VertexLayoutRegistry::new();
    registry.register(earlier.clone());
    let mut many: Vec<Renderable> = (0..10).map(|_| drawn_with(M1)).collect();
    let full = mesh_resource_provider_system(
        &mut registry,
        layout(),
        &mut backend,
        &meshes,
        &mut many,
        &mut nothing,
    );
    assert_eq!(full, Ok(()));
    assert_eq!(registry.active, Some(layout()));

    let mut registry = VertexLayoutRegistry::new();
    registry.register(earlier);
    let mut broken = vec![drawn_with(MISSING)];
    let failed = mesh_resource_provider_system(
        &mut registry,
        layout(),
        &mut backend,
        &meshes,
        &mut broken,
        &mut nothing,
    );
    assert_eq!(failed, Err(ProvisionError::AssetNotFound));
    assert_eq!(registry.active, Some(layout()));
}

#[test]
fn failure_at_the_third_of_five_batches_keeps_the_first_two() {
    let mut backend = HeadlessRenderResourceContext::new();
    let mut meshes = MeshAssets::new();
    meshes.set(M1, mesh(1, 10, Some(vec![1])));
    meshes.set(M2, mesh(2, 20, None));
    meshes.set(M3, mesh(3, 30, None));
    let mut registry = VertexLayoutRegistry::new();
    let mut batches = vec![
        drawn_with(M1),
        drawn_with(M2),
        drawn_with(MISSING),
        drawn_with(M3),
        drawn_with(M1),
    ];
    let mut renderables = vec![drawn_with(M2)];
    let result = mesh_resource_provider_system(
        &mut registry,
        layout(),
        &mut backend,
        &meshes,
        &mut batches,
        &mut renderables,
    );
    assert_eq!(result, Err(ProvisionError::AssetNotFound));
    let m1 = find_cached(&backend, M1).unwrap();
    let m2 = find_cached(&backend, M2).unwrap();
    assert_eq!(bound(&batches[0]), Some(m1));
    assert_eq!(bound(&batches[1]), Some(m2));
    assert_eq!(m1.index_buffer, Some(backend.creations[1].resource));
    assert_eq!(m2.index_buffer, None);
    assert_eq!(bound(&batches[2]), None);
    assert_eq!(bound(&batches[3]), None);
    assert_eq!(bound(&batches[4]), None);
    assert_eq!(bound(&renderables[0]), None);
    assert_eq!(find_cached(&backend, M3), None);
    assert_eq!(backend.creations.len(), 3);
}

#[test]
fn failure_among_the_renderables_keeps_the_batches() {
    let mut backend = HeadlessRenderResourceContext::new();
    let mut meshes = MeshAssets::new();
    meshes.set(M1, mesh(1, 10, None));
    meshes.set(M2, unskinned());
    let mut batches = vec![drawn_with(M1)];
    let mut renderables = vec![drawn_with(M1), drawn_with(M2), drawn_with(MISSING)];
    let result = provide_mesh_resources(&mut backend, &meshes, &layout(), &mut batches, &mut renderables);
    assert_eq!(result, Err(ProvisionError::LayoutMismatch));
    let m1 = find_cached(&backend, M1).unwrap();
    assert_eq!(bound(&batches[0]), Some(m1));
    assert_eq!(bound(&renderables[0]), Some(m1));
    assert_eq!(bound(&renderables[1]), None);
    assert_eq!(bound(&renderables[2]), None);
    assert_eq!(backend.creations.len(), 1);
}

#[test]
fn cached_mesh_without_asset_does_not_stop_the_pass() {
    let vertex = BufferResource { id: 70, usage: BufferUsage::Vertex };
    let mut backend = HeadlessRenderResourceContext::new();
    backend.set_asset_resource(MISSING, vertex, VERTEX_BUFFER_SLOT);
    let mut meshes = MeshAssets::new();
    meshes.set(M1, mesh(1, 10, None));
    let mut batches = vec![drawn_with(MISSING), drawn_with(M1)];
    let mut renderables = vec![];
    let result = provide_mesh_resources(&mut backend, &meshes, &layout(), &mut batches, &mut renderables);
    assert_eq!(result, Ok(()));
    assert_eq!(
        bound(&batches[0]),
        Some(MeshBuffers { vertex_buffer: vertex, index_buffer: None })
    );
    assert_eq!(bound(&batches[1]), find_cached(&backend, M1));
    assert_eq!(backend.creations.len(), 1);
}

#[test]
fn stale_index_slot_reaches_only_later_items() {
    let stale = BufferResource { id: 71, usage: BufferUsage::Index };
    let mut backend = HeadlessRenderResourceContext::new();
    backend.set_asset_resource(M1, stale, INDEX_BUFFER_SLOT);
    let mut meshes = MeshAssets::new();
    meshes.set(M1, mesh(1, 10, None));
    let mut batches = vec![drawn_with(M1)];
    let mut renderables = vec![drawn_with(M1)];
    let result = provide_mesh_resources(&mut backend, &meshes, &layout(), &mut batches, &mut renderables);
    assert_eq!(result, Ok(()));
    let first = bound(&batches[0]).unwrap();
    let second = bound(&renderables[0]).unwrap();
    assert_eq!(first.vertex_buffer, second.vertex_buffer);
    assert_eq!(first.index_buffer, None);
    assert_eq!(second.index_buffer, Some(stale));
    assert_eq!(count(&backend, BufferUsage::Index), 0);
}
