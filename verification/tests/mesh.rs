use ocean_sim::compositor::instance_tile;
use ocean_sim::grid::Grid;
use ocean_sim::mesh::Mesh;

#[test]
fn mesh_of_side_two_is_one_cell() {
    let mesh = Mesh::new(&Grid::new(2).unwrap());
    assert_eq!(mesh.uvs, vec![(0, 0), (1, 0), (0, 1), (1, 1)]);
    assert_eq!(mesh.indices, vec![0, 3, 2, 0, 1, 3]);
    assert_eq!(mesh.length, 6);
}

#[test]
fn mesh_of_side_one_has_no_triangles() {
    let mesh = Mesh::new(&Grid::new(1).unwrap());
    assert_eq!(mesh.uvs, vec![(0, 0)]);
    assert!(mesh.indices.is_empty());
    assert_eq!(mesh.length, 0);
}

#[test]
fn mesh_of_side_four_lists_cells_row_by_row() {
    let mesh = Mesh::new(&Grid::new(4).unwrap());
    assert_eq!(mesh.uvs.len(), 16);
    assert_eq!(mesh.length, 54);
    assert_eq!(&mesh.indices[0..6], &[0, 5, 4, 0, 1, 5]);
    assert_eq!(&mesh.indices[6..12], &[1, 6, 5, 1, 2, 6]);
    assert_eq!(&mesh.indices[18..24], &[4, 9, 8, 4, 5, 9]);
    assert_eq!(&mesh.indices[48..54], &[10, 15, 14, 10, 11, 15]);
}

#[test]
fn mesh_indices_name_existing_vertices() {
    let mesh = Mesh::new(&Grid::new(32).unwrap());
    assert_eq!(mesh.indices.len(), 6 * 31 * 31);
    for &i in &mesh.indices {
        assert!((i as usize) < mesh.uvs.len());
    }
    for (i, &(x, y)) in mesh.uvs.iter().enumerate() {
        assert_eq!(i as u32, x + y * 32);
    }
}

#[test]
fn instance_tile_walks_the_tiles_row_by_row() {
    assert_eq!(instance_tile(0, 5), (0, 0));
    assert_eq!(instance_tile(4, 5), (4, 0));
    assert_eq!(instance_tile(5, 5), (0, 1));
    assert_eq!(instance_tile(24, 5), (4, 4));
    assert_eq!(instance_tile(7, 1), (0, 7));
}
