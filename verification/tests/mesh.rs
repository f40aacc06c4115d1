use bevy_amoeba::{GridSize, MeshBuilder, MeshVertex};
use bevy_amoeba::mesh::soft_body_mesh;

#[test]
fn grid_single_quad() {
    let b = MeshBuilder::grid(GridSize { x: 1, y: 1 });
    assert_eq!(
        b.vertices,
        vec![
            MeshVertex::QuadCorner(0),
            MeshVertex::QuadCorner(1),
            MeshVertex::QuadCorner(2),
            MeshVertex::QuadCorner(3)
        ]
    );
    assert_eq!(b.indices, vec![0, 1, 2, 0, 2, 3]);
}

#[test]
fn grid_rows_follow_each_other() {
    let b = MeshBuilder::grid(GridSize { x: 2, y: 2 });
    assert_eq!(b.vertices.len(), 16);
    assert_eq!(b.indices.len(), 24);
    assert_eq!(b.vertices[13], MeshVertex::QuadCorner(1));
    assert_eq!(
        b.indices,
        vec![
            0, 1, 2, 0, 2, 3, 4, 5, 6, 4, 6, 7, 8, 9, 10, 8, 10, 11, 12, 13, 14, 12, 14, 15
        ]
    );
}

#[test]
fn grid_indices_stay_in_bounds() {
    let b = MeshBuilder::grid(GridSize { x: 3, y: 5 });
    assert_eq!(b.vertices.len(), 60);
    for (j, &i) in b.indices.iter().enumerate() {
        assert!((i as usize) < b.vertices.len());
        assert_eq!(i as usize / 4, j / 6);
    }
}

#[test]
fn grid_empty() {
    let b = MeshBuilder::grid(GridSize { x: 0, y: 7 });
    assert!(b.vertices.is_empty());
    assert!(b.indices.is_empty());
    let b = MeshBuilder::grid(GridSize { x: 7, y: 0 });
    assert!(b.vertices.is_empty());
    assert!(b.indices.is_empty());
}

#[test]
fn default_builder_is_empty() {
    let b = MeshBuilder::default();
    assert!(b.vertices.is_empty());
    assert!(b.indices.is_empty());
}

#[test]
fn circle_triangle_fan() {
    let b = MeshBuilder::circle_ngon(3);
    assert_eq!(
        b.vertices,
        vec![
            MeshVertex::Center,
            MeshVertex::Rim { step: 0, subdivisions: 3 },
            MeshVertex::Rim { step: 1, subdivisions: 3 },
            MeshVertex::Rim { step: 2, subdivisions: 3 }
        ]
    );
    assert_eq!(b.indices, vec![0, 1, 2, 0, 2, 3, 0, 3, 1]);
}

#[test]
fn circle_fan_triangles_close_the_rim() {
    let n: u32 = 7;
    let b = MeshBuilder::circle_ngon(n);
    assert_eq!(b.indices.len(), 3 * n as usize);
    for t in 0..n {
        let tri = &b.indices[3 * t as usize..3 * t as usize + 3];
        assert_eq!(tri, &[0, t + 1, (t + 1) % n + 1]);
        assert!(tri[0] != tri[1] && tri[1] != tri[2] && tri[0] != tri[2]);
    }
}

#[test]
fn circle_with_one_subdivision() {
    let b = MeshBuilder::circle_ngon(1);
    assert_eq!(b.vertices.len(), 2);
    assert_eq!(b.indices, vec![0, 1, 1]);
}

#[test]
fn circle_with_no_subdivisions() {
    let b = MeshBuilder::circle_ngon(0);
    assert_eq!(b.vertices, vec![MeshVertex::Center]);
    assert_eq!(b.indices, vec![0, 0, 1]);
}

#[test]
fn soft_body_mesh_has_one_vertex_per_slot() {
    let b = soft_body_mesh();
    assert_eq!(b.vertices.len(), 64);
    assert_eq!(b.indices.len(), 189);
    assert_eq!(b.vertices[63], MeshVertex::Rim { step: 62, subdivisions: 63 });
    assert_eq!(&b.indices[186..], &[0, 63, 1]);
}
