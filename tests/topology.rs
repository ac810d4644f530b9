use cloth_sim::topology::{build, BuildError, ClothMesh, GridConfig, Spring, SpringKind};
use std::collections::HashSet;

fn mesh(rows: u32, cols: u32, size: u32) -> ClothMesh {
    build(GridConfig { rows, cols, size }).expect("valid configuration")
}

fn count(m: &ClothMesh, kind: SpringKind) -> usize {
    m.springs.iter().filter(|s| s.kind == kind).count()
}

fn pair(s: &Spring) -> (u32, u32) {
    (s.index_a.min(s.index_b), s.index_a.max(s.index_b))
}

#[test]
fn square_grid_counts() {
    for n in [2u32, 3, 7, 100] {
        let m = mesh(n, n, 25);
        assert_eq!(m.vertices.len(), (n * n) as usize);
        assert_eq!(m.indices.len(), ((n - 1) * (n - 1) * 6) as usize);
    }
}

#[test]
fn springs_are_well_formed() {
    for (rows, cols) in [(2u32, 2u32), (2, 5), (6, 3), (10, 10)] {
        let m = mesh(rows, cols, 4);
        assert!(!m.springs.is_empty());
        for s in &m.springs {
            assert_ne!(s.index_a, s.index_b);
            assert!(s.index_a < rows * cols);
            assert!(s.index_b < rows * cols);
            assert!(s.kind.rest_length_sq_in_cells() > 0);
        }
    }
}

#[test]
fn build_is_deterministic() {
    let c = GridConfig { rows: 9, cols: 6, size: 13 };
    let a = build(c).unwrap();
    let b = build(c).unwrap();
    assert_eq!(a.vertices, b.vertices);
    assert_eq!(a.indices, b.indices);
    assert_eq!(a.springs, b.springs);
    assert_eq!(a.denominator, b.denominator);
}

#[test]
fn stretch_count_on_square_grid() {
    for n in [2usize, 3, 4, 100] {
        let m = mesh(n as u32, n as u32, 25);
        assert_eq!(count(&m, SpringKind::Stretch), 2 * n * (n - 1));
    }
}

#[test]
fn kind_counts_on_rectangular_grid() {
    let m = mesh(4, 6, 5);
    assert_eq!(count(&m, SpringKind::Stretch), 3 * 6 + 4 * 5);
    assert_eq!(count(&m, SpringKind::Shear), 2 * 3 * 5);
    assert_eq!(count(&m, SpringKind::Bend), 2 * 6 + 4 * 4);
}

#[test]
fn one_spring_per_unordered_pair() {
    let m = mesh(5, 7, 3);
    let mut seen = HashSet::new();
    for s in &m.springs {
        assert!(seen.insert(pair(s)), "pair {:?} appears twice", pair(s));
    }
}

#[test]
fn grid_geometry() {
    let m = mesh(100, 100, 25);
    let center = (0.0f64, 15.0f64, 0.0f64);
    let d = m.denominator as f64;
    assert_eq!(m.denominator, 198);
    let first = m.vertices[0];
    assert_eq!(center.0 + first.x_num as f64 / d, -12.5);
    assert_eq!(center.1, 15.0);
    assert_eq!(center.2 + first.z_num as f64 / d, -12.5);
    let last = m.vertices[99 * 100 + 99];
    assert!((center.0 + last.x_num as f64 / d - 12.5).abs() < 1e-9);
    assert!((center.2 + last.z_num as f64 / d - 12.5).abs() < 1e-9);
    let spacing = m.vertices[100].x_num - m.vertices[0].x_num;
    assert!((spacing as f64 / d - 25.0 / 99.0).abs() < 1e-12);
    assert_eq!(m.vertices[1].x_num, first.x_num);
}

#[test]
fn two_by_two_grid() {
    let m = mesh(2, 2, 2);
    assert_eq!(m.vertices.len(), 4);
    assert_eq!(m.indices, vec![0, 1, 2, 1, 3, 2]);
    assert_eq!(count(&m, SpringKind::Stretch), 4);
    assert_eq!(count(&m, SpringKind::Bend), 0);
    let shear: Vec<(u32, u32)> = m
        .springs
        .iter()
        .filter(|s| s.kind == SpringKind::Shear)
        .map(pair)
        .collect();
    // Both diagonals of the single cell lie inside the grid.
    assert_eq!(shear, vec![(0, 3), (1, 2)]);
    let d = m.denominator as i128;
    assert_eq!(d, 2);
    assert_eq!(m.vertices[0].x_num, -2);
    assert_eq!(m.vertices[3].z_num, 2);
}

#[test]
fn invalid_configurations_are_refused() {
    for c in [
        GridConfig { rows: 1, cols: 5, size: 3 },
        GridConfig { rows: 5, cols: 1, size: 3 },
        GridConfig { rows: 0, cols: 0, size: 3 },
        GridConfig { rows: 5, cols: 5, size: 0 },
    ] {
        assert_eq!(build(c).err(), Some(BuildError::InvalidConfiguration));
    }
}

#[test]
fn rest_lengths_by_kind() {
    assert_eq!(SpringKind::Stretch.rest_length_sq_in_cells(), 1);
    assert_eq!(SpringKind::Shear.rest_length_sq_in_cells(), 2);
    assert_eq!(SpringKind::Bend.rest_length_sq_in_cells(), 4);
}

#[test]
fn triangles_cover_each_cell_with_one_winding() {
    let m = mesh(3, 4, 6);
    assert_eq!(m.indices.len(), 2 * 3 * 6);
    assert_eq!(&m.indices[0..6], &[0, 1, 4, 1, 5, 4]);
    assert_eq!(&m.indices[30..36], &[6, 7, 10, 7, 11, 10]);
}
