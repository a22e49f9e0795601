use lowrez::blocks::Blocks;
use lowrez::chunk::Chunk;
use lowrez::mesh_generator::{generate_mesh_data, tint_milli};

#[test]
fn single_block_emits_up_and_forward_faces() {
    let mut c = Chunk::new(2, 2, 2, 2);
    c.set_block(Blocks::GRASS, 0, 0, 0);
    let mesh = generate_mesh_data(&c);

    assert_eq!(mesh.vertices.len(), 8);
    assert_eq!(mesh.indices.len(), 12);

    // up face: all four corners at half-height one, fully lit by tint 350
    for k in 0..4 {
        let v = &mesh.vertices[k];
        assert_eq!(v.y_half, 1);
        assert_eq!(v.tex_index, 0);
        assert_eq!(v.r, 1000 * 350);
        assert_eq!(v.g, v.r);
        assert_eq!(v.b, v.r);
    }
    assert_eq!(
        (mesh.vertices[0].x_half, mesh.vertices[0].z_half),
        (-1, 1)
    );
    assert_eq!(&mesh.indices[0..6], &[0, 2, 1, 0, 3, 2]);

    // forward face: top corners tinted 350, bottom corners tinted -150
    for k in 4..8 {
        let v = &mesh.vertices[k];
        assert_eq!(v.z_half, 1);
        let expected = if v.y_half == 1 { 600 * 350 } else { 600 * -150 };
        assert_eq!(v.y_half.abs(), 1);
        assert_eq!(v.r, expected);
    }
    assert_eq!(&mesh.indices[6..12], &[4, 5, 6, 4, 6, 7]);
}

#[test]
fn face_between_adjacent_solid_cells_is_culled() {
    let mut c = Chunk::new(2, 2, 2, 2);
    c.set_block(Blocks::GRASS, 0, 0, 0);
    c.set_block(Blocks::DIRT, 0, 1, 0);
    let mesh = generate_mesh_data(&c);

    // lower cell: only its forward face (its up neighbour is solid);
    // upper cell: up face (above the grid reads open) and forward face
    assert_eq!(mesh.vertices.len(), 12);
    for k in 0..4 {
        assert_eq!(mesh.vertices[k].z_half, 1);
        assert_eq!(mesh.vertices[k].tex_index, 0);
    }
    // the upper cell's up face sits at half-height three, tinted 850
    let top: Vec<_> = mesh.vertices.iter().filter(|v| v.y_half == 3).collect();
    assert_eq!(top.len(), 6);
    for v in &top {
        assert_eq!(v.tex_index, 1);
    }
    assert!(top.iter().any(|v| v.r == 1000 * 850));
}

#[test]
fn solid_block_against_solid_forward_neighbour_keeps_only_up_face() {
    let mut c = Chunk::new(1, 1, 2, 2);
    c.set_block(Blocks::OBSIDIAN, 0, 0, 0);
    c.set_block(Blocks::OBSIDIAN, 0, 0, 1);
    let mesh = generate_mesh_data(&c);
    // first cell: up face only; second cell: up and forward (out of bounds
    // behind it reads open)
    assert_eq!(mesh.vertices.len(), 12);
    for v in &mesh.vertices {
        assert_eq!(v.tex_index, 2);
    }
}

#[test]
fn empty_chunk_has_empty_mesh() {
    let c = Chunk::new(8, 2, 11, 2);
    let mesh = generate_mesh_data(&c);
    assert_eq!(mesh.vertices.len(), 0);
    assert_eq!(mesh.indices.len(), 0);
}

#[test]
fn index_offsets_follow_the_running_vertex_count() {
    let mut c = Chunk::new(2, 1, 1, 2);
    c.set_block(Blocks::GRASS, 0, 0, 0);
    c.set_block(Blocks::DIRT, 1, 0, 0);
    let mesh = generate_mesh_data(&c);
    assert_eq!(mesh.vertices.len(), 16);
    assert_eq!(mesh.indices.len(), 24);
    // second cell's faces reference vertices 8..16
    assert_eq!(&mesh.indices[12..18], &[8, 10, 9, 8, 11, 10]);
    assert_eq!(&mesh.indices[18..24], &[12, 13, 14, 12, 14, 15]);
}

#[test]
fn tint_is_monotone_and_capped() {
    assert_eq!(tint_milli(0, 2), 100);
    assert_eq!(tint_milli(1, 2), 350);
    assert_eq!(tint_milli(2, 2), 600);
    assert_eq!(tint_milli(3, 2), 850);
    assert_eq!(tint_milli(4, 2), 1000);
    assert_eq!(tint_milli(100, 2), 1000);
    let mut prev = i32::MIN;
    for y in -4..40 {
        let t = tint_milli(y, 3);
        assert!(t >= prev);
        assert!(t <= 1000);
        if y >= 0 {
            assert!(t >= 100);
        }
        prev = t;
    }
    // below ground level the formula dips under the documented floor
    assert_eq!(tint_milli(-1, 2), -150);
}

#[test]
fn largest_supported_chunk_meshes_within_index_range() {
    // 16 x 4 x 128 is exactly the largest cell count a chunk may hold
    let mut c = Chunk::new(16, 4, 128, 4);
    for z in 0..128 {
        for y in 0..4 {
            for x in 0..16 {
                c.set_block(Blocks::DIRT, x, y, z);
            }
        }
    }
    let mesh = generate_mesh_data(&c);
    // up faces only on the top layer, forward faces only on the far row
    let expected_faces = 16 * 128 + 16 * 4;
    assert_eq!(mesh.vertices.len(), expected_faces * 4);
    assert_eq!(mesh.indices.len(), expected_faces * 6);
    let max_index = *mesh.indices.iter().max().unwrap() as usize;
    assert_eq!(max_index, mesh.vertices.len() - 1);
}
