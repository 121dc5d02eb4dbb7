use frog_swing::terrain::{grid_indices, grid_vertices, terrain_indices, terrain_vertices, SIZE};

fn area2(p: (usize, usize), q: (usize, usize), r: (usize, usize)) -> i64 {
    let (px, pz) = (p.0 as i64, p.1 as i64);
    let (qx, qz) = (q.0 as i64, q.1 as i64);
    let (rx, rz) = (r.0 as i64, r.1 as i64);
    (qx - px) * (rz - pz) - (qz - pz) * (rx - px)
}

#[test]
fn single_cell_has_two_triangles() {
    assert_eq!(grid_indices(1), vec![0, 2, 1, 1, 2, 3]);
    assert_eq!(grid_vertices(1), vec![(0, 0), (1, 0), (0, 1), (1, 1)]);
}

#[test]
fn empty_grid_has_one_vertex_and_no_triangles() {
    assert_eq!(grid_indices(0), Vec::<u32>::new());
    assert_eq!(grid_vertices(0), vec![(0, 0)]);
}

#[test]
fn two_by_two_grid_lists_cells_row_by_row() {
    let indices = grid_indices(2);
    assert_eq!(indices.len(), 24);
    assert_eq!(&indices[0..6], &[0, 3, 1, 1, 3, 4]);
    assert_eq!(&indices[6..12], &[1, 4, 2, 2, 4, 5]);
    assert_eq!(&indices[12..18], &[3, 6, 4, 4, 6, 7]);
    assert_eq!(&indices[18..24], &[4, 7, 5, 5, 7, 8]);
    assert_eq!(
        grid_vertices(2),
        vec![(0, 0), (1, 0), (2, 0), (0, 1), (1, 1), (2, 1), (0, 2), (1, 2), (2, 2)]
    );
}

#[test]
fn terrain_counts() {
    assert_eq!(SIZE, 128);
    assert_eq!(terrain_vertices().len(), 129 * 129);
    assert_eq!(terrain_indices().len(), 128 * 128 * 6);
}

#[test]
fn terrain_vertex_positions() {
    let vertices = terrain_vertices();
    assert_eq!(vertices[0], (0, 0));
    assert_eq!(vertices[128], (128, 0));
    assert_eq!(vertices[129], (0, 1));
    assert_eq!(vertices[129 * 5 + 7], (7, 5));
    assert_eq!(vertices[129 * 129 - 1], (128, 128));
}

#[test]
fn every_index_names_a_vertex() {
    let vertices = terrain_vertices();
    let indices = terrain_indices();
    assert!(indices.iter().all(|&i| (i as usize) < vertices.len()));
    assert_eq!(*indices.iter().max().unwrap() as usize, vertices.len() - 1);
}

#[test]
fn every_triangle_winds_the_same_way() {
    for size in [1usize, 2, 3, 7] {
        let vertices = grid_vertices(size);
        let indices = grid_indices(size);
        for t in indices.chunks(3) {
            let p = vertices[t[0] as usize];
            let q = vertices[t[1] as usize];
            let r = vertices[t[2] as usize];
            assert_eq!(area2(p, q, r), -1);
        }
    }
}

#[test]
fn cell_corners_of_the_terrain() {
    let vertices = terrain_vertices();
    let indices = terrain_indices();
    let (x, z) = (17usize, 42usize);
    let first = 6 * (z * SIZE + x);
    let corners: Vec<(usize, usize)> =
        indices[first..first + 6].iter().map(|&i| vertices[i as usize]).collect();
    assert_eq!(
        corners,
        vec![(x, z), (x, z + 1), (x + 1, z), (x + 1, z), (x, z + 1), (x + 1, z + 1)]
    );
}
