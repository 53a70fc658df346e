use star_raster::mesh::sphere_indices;
use star_raster::raster::valid_triangles;

#[test]
fn small_sphere_has_exactly_the_expected_index_stream() {
    // rings = 3, sectors = 3: one pole vertex, two rings of four vertices
    // (the seam vertex repeated), one pole vertex: ten vertices in all.
    let indices = sphere_indices(3, 3);
    let expected: Vec<u32> = vec![
        0, 1, 2, 0, 2, 3, 0, 3, 4, // north cap
        1, 5, 2, 2, 5, 6, 2, 6, 3, 3, 6, 7, 3, 7, 4, 4, 7, 8, // one quad row
        5, 9, 6, 6, 9, 7, 7, 9, 8, // south cap
    ];
    assert_eq!(indices, expected);
}

#[test]
fn sphere_index_count_matches_the_closed_form() {
    for &(rings, sectors) in &[(2u32, 1u32), (2, 5), (3, 3), (8, 13), (64, 64)] {
        let indices = sphere_indices(rings, sectors);
        let triangles = 2 * sectors * (rings - 1);
        assert_eq!(indices.len(), 3 * triangles as usize);
        assert_eq!(indices.len() % 3, 0);
    }
}

#[test]
fn every_sphere_index_names_a_vertex() {
    let rings = 16u32;
    let sectors = 24u32;
    let vertex_count = ((rings - 1) * (sectors + 1) + 2) as usize;
    let indices = sphere_indices(rings, sectors);
    assert!(indices.iter().all(|&i| (i as usize) < vertex_count));
    // So every triple of the stream survives validation.
    let ts = valid_triangles(&indices, vertex_count);
    assert_eq!(ts.len(), indices.len() / 3);
}
