use mesh_resource_provider::layout::IndexFormat;
use mesh_resource_provider::layout::VertexAttribute;
use mesh_resource_provider::layout::VertexFormat;
use mesh_resource_provider::layout::VertexLayout;
use mesh_resource_provider::layout::INDEX_FORMAT;
use mesh_resource_provider::mesh::MeshAsset;
use mesh_resource_provider::mesh::MeshAttribute;
use mesh_resource_provider::resource::ProvisionError;

fn attribute(name: &str, format: VertexFormat, offset: usize) -> VertexAttribute {
    VertexAttribute { name: name.to_string(), format, offset }
}

fn values(name: &str, format: VertexFormat, data: Vec<u8>) -> MeshAttribute {
    MeshAttribute { name: name.to_string(), format, data }
}

fn position_uv_layout(stride: usize) -> VertexLayout {
    VertexLayout {
        name: "Vertex".to_string(),
        stride,
        attributes: vec![
            attribute("position", VertexFormat::Float3, 0),
            attribute("uv", VertexFormat::Float2, 12),
        ],
    }
}

fn two_vertex_mesh() -> MeshAsset {
    MeshAsset {
        vertex_count: 2,
        attributes: vec![
            values("uv", VertexFormat::Float2, (100u8..116).collect()),
            values("position", VertexFormat::Float3, (1u8..25).collect()),
        ],
        indices: None,
    }
}

#[test]
fn format_sizes() {
    assert_eq!(VertexFormat::Uchar4.size(), 4);
    assert_eq!(VertexFormat::Float.size(), 4);
    assert_eq!(VertexFormat::Float2.size(), 8);
    assert_eq!(VertexFormat::Float3.size(), 12);
    assert_eq!(VertexFormat::Float4.size(), 16);
    assert_eq!(IndexFormat::Uint16.width(), 2);
    assert_eq!(IndexFormat::Uint32.width(), 4);
    assert_eq!(INDEX_FORMAT, IndexFormat::Uint16);
}

#[test]
fn vertex_bytes_interleave_attributes() {
    let bytes = two_vertex_mesh().extract_vertex_bytes(&position_uv_layout(20)).unwrap();
    let mut expected: Vec<u8> = Vec::new();
    expected.extend(1u8..13);
    expected.extend(100u8..108);
    expected.extend(13u8..25);
    expected.extend(108u8..116);
    assert_eq!(bytes, expected);
}

#[test]
fn vertex_bytes_pad_with_zeros() {
    let bytes = two_vertex_mesh().extract_vertex_bytes(&position_uv_layout(24)).unwrap();
    assert_eq!(bytes.len(), 48);
    assert_eq!(&bytes[0..12], &(1u8..13).collect::<Vec<u8>>()[..]);
    assert_eq!(&bytes[12..20], &(100u8..108).collect::<Vec<u8>>()[..]);
    assert_eq!(&bytes[20..24], &[0u8, 0, 0, 0][..]);
    assert_eq!(&bytes[24..36], &(13u8..25).collect::<Vec<u8>>()[..]);
    assert_eq!(&bytes[36..44], &(108u8..116).collect::<Vec<u8>>()[..]);
    assert_eq!(&bytes[44..48], &[0u8, 0, 0, 0][..]);
}

#[test]
fn vertex_bytes_of_overlapping_attributes_take_the_last() {
    let mesh = MeshAsset {
        vertex_count: 1,
        attributes: vec![
            values("a", VertexFormat::Uchar4, vec![1, 2, 3, 4]),
            values("b", VertexFormat::Uchar4, vec![5, 6, 7, 8]),
        ],
        indices: None,
    };
    let layout = VertexLayout {
        name: "Vertex".to_string(),
        stride: 8,
        attributes: vec![
            attribute("a", VertexFormat::Uchar4, 0),
            attribute("b", VertexFormat::Uchar4, 2),
        ],
    };
    assert_eq!(mesh.extract_vertex_bytes(&layout), Ok(vec![1, 2, 5, 6, 7, 8, 0, 0]));
    assert_eq!(layout.covering_attribute(1), Some(0));
    assert_eq!(layout.covering_attribute(2), Some(1));
    assert_eq!(layout.covering_attribute(3), Some(1));
    assert_eq!(layout.covering_attribute(6), None);
}

#[test]
fn vertex_bytes_without_vertices_or_attributes() {
    let empty = MeshAsset { vertex_count: 0, attributes: vec![], indices: None };
    let bare = VertexLayout { name: "Vertex".to_string(), stride: 3, attributes: vec![] };
    assert_eq!(empty.extract_vertex_bytes(&bare), Ok(vec![]));
    let four = MeshAsset { vertex_count: 4, attributes: vec![], indices: None };
    assert_eq!(four.extract_vertex_bytes(&bare), Ok(vec![0u8; 12]));
    let flat = VertexLayout { name: "Vertex".to_string(), stride: 0, attributes: vec![] };
    assert_eq!(four.extract_vertex_bytes(&flat), Ok(vec![]));
}

#[test]
fn vertex_bytes_take_the_first_attribute_that_supplies() {
    let mesh = MeshAsset {
        vertex_count: 1,
        attributes: vec![
            values("a", VertexFormat::Float, vec![9, 9, 9, 9]),
            values("a", VertexFormat::Uchar4, vec![1, 2, 3]),
            values("a", VertexFormat::Uchar4, vec![1, 2, 3, 4]),
            values("a", VertexFormat::Uchar4, vec![5, 6, 7, 8]),
        ],
        indices: None,
    };
    let wanted = attribute("a", VertexFormat::Uchar4, 0);
    assert_eq!(mesh.find_source(&wanted), Some(2));
    let layout = VertexLayout { name: "Vertex".to_string(), stride: 4, attributes: vec![wanted] };
    assert_eq!(mesh.extract_vertex_bytes(&layout), Ok(vec![1, 2, 3, 4]));
}

#[test]
fn missing_attribute_is_a_layout_mismatch() {
    let mesh = MeshAsset {
        vertex_count: 2,
        attributes: vec![values("position", VertexFormat::Float3, (1u8..25).collect())],
        indices: None,
    };
    assert_eq!(
        mesh.extract_vertex_bytes(&position_uv_layout(20)),
        Err(ProvisionError::LayoutMismatch)
    );
    assert_eq!(mesh.find_source(&attribute("uv", VertexFormat::Float2, 12)), None);
}

#[test]
fn attribute_of_another_format_is_a_layout_mismatch() {
    let mesh = MeshAsset {
        vertex_count: 2,
        attributes: vec![
            values("position", VertexFormat::Float3, (1u8..25).collect()),
            values("uv", VertexFormat::Float4, vec![0u8; 32]),
        ],
        indices: None,
    };
    assert_eq!(
        mesh.extract_vertex_bytes(&position_uv_layout(20)),
        Err(ProvisionError::LayoutMismatch)
    );
}

#[test]
fn attribute_without_a_value_for_each_vertex_is_a_layout_mismatch() {
    let mesh = MeshAsset {
        vertex_count: 3,
        attributes: vec![
            values("position", VertexFormat::Float3, (1u8..25).collect()),
            values("uv", VertexFormat::Float2, (100u8..124).collect()),
        ],
        indices: None,
    };
    assert_eq!(
        mesh.extract_vertex_bytes(&position_uv_layout(20)),
        Err(ProvisionError::LayoutMismatch)
    );
}

#[test]
fn attribute_past_the_stride_is_a_layout_mismatch() {
    assert_eq!(
        two_vertex_mesh().extract_vertex_bytes(&position_uv_layout(19)),
        Err(ProvisionError::LayoutMismatch)
    );
    assert_eq!(
        two_vertex_mesh().extract_vertex_bytes(&position_uv_layout(8)),
        Err(ProvisionError::LayoutMismatch)
    );
    let far = VertexLayout {
        name: "Vertex".to_string(),
        stride: 20,
        attributes: vec![attribute("position", VertexFormat::Float3, usize::MAX)],
    };
    assert_eq!(two_vertex_mesh().extract_vertex_bytes(&far), Err(ProvisionError::LayoutMismatch));
}

#[test]
fn vertex_count_too_large_for_any_attribute_is_a_layout_mismatch() {
    let mesh = MeshAsset {
        vertex_count: usize::MAX,
        attributes: vec![values("position", VertexFormat::Float3, vec![0u8; 12])],
        indices: None,
    };
    let layout = VertexLayout {
        name: "Vertex".to_string(),
        stride: 12,
        attributes: vec![attribute("position", VertexFormat::Float3, 0)],
    };
    assert_eq!(mesh.extract_vertex_bytes(&layout), Err(ProvisionError::LayoutMismatch));
}

#[test]
fn index_bytes_are_little_endian() {
    let mesh = MeshAsset {
        vertex_count: 0,
        attributes: vec![],
        indices: Some(vec![0x0102, 0xffff, 3]),
    };
    assert_eq!(
        mesh.extract_index_bytes(IndexFormat::Uint16),
        Some(vec![0x02, 0x01, 0xff, 0xff, 0x03, 0x00])
    );
    assert_eq!(
        mesh.extract_index_bytes(IndexFormat::Uint32),
        Some(vec![0x02, 0x01, 0, 0, 0xff, 0xff, 0, 0, 0x03, 0, 0, 0])
    );
}

#[test]
fn index_bytes_of_no_indices() {
    let none = MeshAsset { vertex_count: 3, attributes: vec![], indices: None };
    assert_eq!(none.extract_index_bytes(IndexFormat::Uint16), None);
    let empty = MeshAsset { vertex_count: 3, attributes: vec![], indices: Some(vec![]) };
    assert_eq!(empty.extract_index_bytes(IndexFormat::Uint16), Some(vec![]));
}

#[test]
fn vertex_bytes_longer_than_memory_are_a_layout_mismatch() {
    let bare = VertexLayout { name: "Vertex".to_string(), stride: 2, attributes: vec![] };
    let huge = MeshAsset { vertex_count: usize::MAX / 2, attributes: vec![], indices: None };
    assert_eq!(huge.extract_vertex_bytes(&bare), Err(ProvisionError::LayoutMismatch));
    let wrapping = MeshAsset { vertex_count: usize::MAX, attributes: vec![], indices: None };
    assert_eq!(wrapping.extract_vertex_bytes(&bare), Err(ProvisionError::LayoutMismatch));
}
