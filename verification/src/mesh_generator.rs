use vstd::prelude::*;
use crate::blocks::{block_tex_index, spec_block_tex_index, Blocks};
use crate::chunk::{lemma_block_xyz_roundtrip, Chunk};
use crate::cube_mesh::{
    mesh_side, spec_canonical_vertex, spec_face_base_color, spec_face_corner, spec_face_rel_index,
    spec_face_uv, Vertex,
};
use crate::directions::{dir_to_offset, spec_dir_to_offset, Directions};

verus! {

/// Lowest brightness the height tint may reach on or above ground level, in
/// thousandths.
pub const MIN_BLOCK_TINT_BRIGHTNESS_MILLI: i32 = 100;

/// A renderable triangle mesh: a vertex list and a 16-bit index list.
pub struct MeshData {
    pub vertices: Vec<Vertex>,
    pub indices: Vec<u16>,
}

/// Height tint of a vertex, in thousandths: the vertex height over the world
/// height plus the brightness floor, capped at full brightness. Heights come
/// in half units, so the ratio is `y_half / (2 * world_height)`.
pub open spec fn spec_tint_milli(y_half: int, world_height: int) -> int {
    let raw = (y_half * 500) / world_height + MIN_BLOCK_TINT_BRIGHTNESS_MILLI;
    if raw <= 1000 {
        raw
    } else {
        1000
    }
}

/// A face is emitted exactly when its cell is solid and the neighbour it
/// faces reads as open space (out-of-bounds included).
pub open spec fn spec_face_visible(c: Chunk, x: int, y: int, z: int, dir: Directions) -> bool {
    &&& c.spec_get(x, y, z) != Blocks::AIR
    &&& c.spec_get(
        x + spec_dir_to_offset(dir).0,
        y + spec_dir_to_offset(dir).1,
        z + spec_dir_to_offset(dir).2,
    ) == Blocks::AIR
}

/// Corner `k` of the face of cell `(x, y, z)` in direction `dir`, translated
/// to the cell and tinted by its height.
pub open spec fn spec_emitted_vertex(
    c: Chunk,
    x: int,
    y: int,
    z: int,
    dir: Directions,
    k: int,
) -> Vertex {
    let yh = spec_face_corner(dir, k).1 + 2 * y;
    let color = spec_face_base_color(dir) * spec_tint_milli(yh, c.spec_world_height() as int);
    Vertex {
        x_half: (spec_face_corner(dir, k).0 + 2 * x) as i32,
        y_half: yh as i32,
        z_half: (spec_face_corner(dir, k).2 + 2 * z) as i32,
        u: spec_face_uv(dir, k).0 as u8,
        v: spec_face_uv(dir, k).1 as u8,
        tex_index: spec_block_tex_index(c.spec_get(x, y, z)),
        r: color as i32,
        g: color as i32,
        b: color as i32,
    }
}

/// The vertices one face contributes: its translated, tinted quad if it is
/// visible, nothing otherwise.
pub open spec fn spec_face_vertices(c: Chunk, x: int, y: int, z: int, dir: Directions) -> Seq<
    Vertex,
> {
    if spec_face_visible(c, x, y, z, dir) {
        Seq::new(4, |k: int| spec_emitted_vertex(c, x, y, z, dir, k))
    } else {
        Seq::empty()
    }
}

/// The indices one face contributes, shifted by the vertices already in the
/// buffer.
pub open spec fn spec_face_indices(
    c: Chunk,
    x: int,
    y: int,
    z: int,
    dir: Directions,
    offset: int,
) -> Seq<u16> {
    if spec_face_visible(c, x, y, z, dir) {
        Seq::new(6, |j: int| (spec_face_rel_index(dir, j) + offset) as u16)
    } else {
        Seq::empty()
    }
}

/// The vertices one cell contributes: its up face then its forward face.
pub open spec fn spec_block_vertices(c: Chunk, x: int, y: int, z: int) -> Seq<Vertex> {
    spec_face_vertices(c, x, y, z, Directions::Up) + spec_face_vertices(
        c,
        x,
        y,
        z,
        Directions::Forward,
    )
}

/// The indices one cell contributes, shifted by the vertices already in the
/// buffer.
pub open spec fn spec_block_indices(c: Chunk, x: int, y: int, z: int, offset: int) -> Seq<u16> {
    spec_face_indices(c, x, y, z, Directions::Up, offset) + spec_face_indices(
        c,
        x,
        y,
        z,
        Directions::Forward,
        offset + spec_face_vertices(c, x, y, z, Directions::Up).len(),
    )
}

/// The cell the flat index `i` names, in generation order.
pub open spec fn spec_cell_coords(w: int, h: int, i: int) -> (int, int, int) {
    (i % w, (i / w) % h, i / (w * h))
}

/// All vertices contributed by the first `n` cells.
pub open spec fn spec_mesh_vertices(c: Chunk, n: int) -> Seq<Vertex>
    decreases n,
{
    if n <= 0 {
        Seq::empty()
    } else {
        let coords = spec_cell_coords(c.spec_width() as int, c.spec_height() as int, n - 1);
        spec_mesh_vertices(c, n - 1) + spec_block_vertices(c, coords.0, coords.1, coords.2)
    }
}

/// All indices contributed by the first `n` cells.
pub open spec fn spec_mesh_indices(c: Chunk, n: int) -> Seq<u16>
    decreases n,
{
    if n <= 0 {
        Seq::empty()
    } else {
        let coords = spec_cell_coords(c.spec_width() as int, c.spec_height() as int, n - 1);
        spec_mesh_indices(c, n - 1) + spec_block_indices(
            c,
            coords.0,
            coords.1,
            coords.2,
            spec_mesh_vertices(c, n - 1).len() as int,
        )
    }
}

/// Each cell contributes at most eight vertices.
pub proof fn lemma_mesh_vertices_len(c: Chunk, n: int)
    requires
        n >= 0,
    ensures
        spec_mesh_vertices(c, n).len() <= 8 * n,
    decreases n,
{
    if n > 0 {
        lemma_mesh_vertices_len(c, n - 1);
    }
}

/// Height tint of a vertex, in thousandths.
pub fn tint_milli(y_half: i32, world_height: u32) -> (t: i32)
    requires
        world_height >= 1,
        -4096 <= y_half <= 4096,
    ensures
        t == spec_tint_milli(y_half as int, world_height as int),
        t <= 1000,
        t >= 100 + (if y_half < 0 {
            (y_half as int) * 500
        } else {
            0
        }),
{
    let a: i64 = (y_half as i64) * 500;
    proof {
        vstd::arithmetic::div_mod::lemma_fundamental_div_mod(a as int, world_height as int);
        let r = a as int % (world_height as int);
        assert(-2_048_000 <= (a as int) / (world_height as int) <= 2_048_000
            && (y_half < 0 ==> (a as int) / (world_height as int) >= a)
            && (y_half >= 0 ==> (a as int) / (world_height as int) >= 0)) by (nonlinear_arith)
            requires
                a == (world_height as int) * ((a as int) / (world_height as int)) + r,
                0 <= r < (world_height as int),
                1 <= (world_height as int),
                -2_048_000 <= a <= 2_048_000,
                (y_half < 0 ==> a < 0) && (y_half >= 0 ==> a >= 0);
    }
    let q64 = a.checked_div_euclid(world_height as i64).unwrap();
    let q = q64 as i32;
    let raw = q + MIN_BLOCK_TINT_BRIGHTNESS_MILLI;
    if raw <= 1000 {
        raw
    } else {
        1000
    }
}

/// Base brightness of a face, in thousandths.
fn face_base_color(dir: Directions) -> (c: i32)
    ensures
        c == spec_face_base_color(dir),
{
    match dir {
        Directions::Up => 1000,
        Directions::Forward => 600,
    }
}

/// Emit one face of a solid cell, unless the neighbour it faces hides it.
fn generate_face(
    chunk: &Chunk,
    mesh_data: &mut MeshData,
    block: Blocks,
    x: i32,
    y: i32,
    z: i32,
    face: Directions,
)
    requires
        chunk.wf(),
        chunk.spec_in_bounds(x as int, y as int, z as int),
        block == chunk.spec_get(x as int, y as int, z as int),
        block != Blocks::AIR,
        old(mesh_data).vertices@.len() + 4 <= 0x10000,
    ensures
        final(mesh_data).vertices@ == old(mesh_data).vertices@ + spec_face_vertices(
            *chunk,
            x as int,
            y as int,
            z as int,
            face,
        ),
        final(mesh_data).indices@ == old(mesh_data).indices@ + spec_face_indices(
            *chunk,
            x as int,
            y as int,
            z as int,
            face,
            old(mesh_data).vertices@.len() as int,
        ),
{
    let face_offset = dir_to_offset(face);
    if chunk.get_block(x + face_offset.0, y + face_offset.1, z + face_offset.2) != Blocks::AIR {
        proof {
            assert(mesh_data.vertices@ =~= mesh_data.vertices@ + Seq::<Vertex>::empty());
            assert(mesh_data.indices@ =~= mesh_data.indices@ + Seq::<u16>::empty());
        }
        return ;
    }
    let ghost c = *chunk;
    let ghost quad = spec_face_vertices(c, x as int, y as int, z as int, face);
    let ghost old_vertices = mesh_data.vertices@;
    let ghost old_indices = mesh_data.indices@;

    let texture_index = block_tex_index(block);
    let side = mesh_side(face);
    let base = face_base_color(face);
    let current_vertex_count = mesh_data.vertices.len() as u16;

    for k in 0..4usize
        invariant
            chunk.wf(),
            chunk.spec_in_bounds(x as int, y as int, z as int),
            spec_face_visible(c, x as int, y as int, z as int, face),
            c == *chunk,
            quad == spec_face_vertices(c, x as int, y as int, z as int, face),
            texture_index == spec_block_tex_index(c.spec_get(x as int, y as int, z as int)),
            base == spec_face_base_color(face),
            side.vertices@.len() == 4,
            forall|kk: int|
                0 <= kk < 4 ==> #[trigger] side.vertices@[kk] == spec_canonical_vertex(face, kk),
            mesh_data.vertices@ == old_vertices + quad.take(k as int),
            mesh_data.indices@ == old_indices,
    {
        let cv = side.vertices[k];
        let nx = cv.x_half + 2 * x;
        let yh = cv.y_half + 2 * y;
        let nz = cv.z_half + 2 * z;
        let tint = tint_milli(yh, chunk.world_height());
        let color = base * tint;
        let v = Vertex {
            x_half: nx,
            y_half: yh,
            z_half: nz,
            u: cv.u,
            v: cv.v,
            tex_index: texture_index,
            r: color,
            g: color,
            b: color,
        };
        mesh_data.vertices.push(v);
        proof {
            assert(v == spec_emitted_vertex(c, x as int, y as int, z as int, face, k as int));
            assert(mesh_data.vertices@ =~= old_vertices + quad.take(k as int + 1));
        }
    }
    proof {
        assert(mesh_data.vertices@ =~= old_vertices + quad);
    }

    let ghost emitted_indices = spec_face_indices(
        c,
        x as int,
        y as int,
        z as int,
        face,
        old_vertices.len() as int,
    );
    for j in 0..6usize
        invariant
            side.indices@.len() == 6,
            forall|jj: int|
                0 <= jj < 6 ==> #[trigger] side.indices@[jj] == spec_face_rel_index(face, jj),
            spec_face_visible(c, x as int, y as int, z as int, face),
            emitted_indices == spec_face_indices(
                c,
                x as int,
                y as int,
                z as int,
                face,
                old_vertices.len() as int,
            ),
            current_vertex_count == old_vertices.len(),
            old_vertices.len() + 4 <= 0x10000,
            mesh_data.indices@ == old_indices + emitted_indices.take(j as int),
            mesh_data.vertices@ == old_vertices + quad,
    {
        let idx = side.indices[j] + current_vertex_count;
        mesh_data.indices.push(idx);
        proof {
            assert(idx == emitted_indices[j as int]);
            assert(mesh_data.indices@ =~= old_indices + emitted_indices.take(j as int + 1));
        }
    }
    proof {
        assert(mesh_data.indices@ =~= old_indices + emitted_indices);
    }
}

/// Emit the visible faces of one cell: nothing for open space, else its up
/// and forward faces subject to culling.
fn generate_block(chunk: &Chunk, mesh_data: &mut MeshData, x: i32, y: i32, z: i32)
    requires
        chunk.wf(),
        chunk.spec_in_bounds(x as int, y as int, z as int),
        old(mesh_data).vertices@.len() + 8 <= 0x10000,
    ensures
        final(mesh_data).vertices@ == old(mesh_data).vertices@ + spec_block_vertices(
            *chunk,
            x as int,
            y as int,
            z as int,
        ),
        final(mesh_data).indices@ == old(mesh_data).indices@ + spec_block_indices(
            *chunk,
            x as int,
            y as int,
            z as int,
            old(mesh_data).vertices@.len() as int,
        ),
{
    let block = chunk.get_block(x, y, z);

    if block == Blocks::AIR {
        proof {
            assert(mesh_data.vertices@ =~= mesh_data.vertices@ + spec_block_vertices(
                *chunk,
                x as int,
                y as int,
                z as int,
            ));
            assert(mesh_data.indices@ =~= mesh_data.indices@ + spec_block_indices(
                *chunk,
                x as int,
                y as int,
                z as int,
                mesh_data.vertices@.len() as int,
            ));
        }
        return ;
    }

    let ghost old_vertices = mesh_data.vertices@;
    let ghost old_indices = mesh_data.indices@;
    generate_face(chunk, mesh_data, block, x, y, z, Directions::Up);
    generate_face(chunk, mesh_data, block, x, y, z, Directions::Forward);
    proof {
        assert(mesh_data.vertices@ =~= old_vertices + spec_block_vertices(
            *chunk,
            x as int,
            y as int,
            z as int,
        ));
        assert(mesh_data.indices@ =~= old_indices + spec_block_indices(
            *chunk,
            x as int,
            y as int,
            z as int,
            old_vertices.len() as int,
        ));
    }
}

/// Walk every cell of a chunk and emit one combined triangle mesh holding
/// the visible faces of its solid blocks.
pub fn generate_mesh_data(chunk: &Chunk) -> (mesh_data: MeshData)
    requires
        chunk.wf(),
    ensures
        mesh_data.vertices@ == spec_mesh_vertices(
            *chunk,
            chunk.spec_width() * chunk.spec_height() * chunk.spec_depth(),
        ),
        mesh_data.indices@ == spec_mesh_indices(
            *chunk,
            chunk.spec_width() * chunk.spec_height() * chunk.spec_depth(),
        ),
{
    let w = chunk.width();
    let h = chunk.height();
    let d = chunk.depth();
    proof {
        assert(w * h <= MAX_CHUNK_DIM_SQ && w * h * d <= MAX_CHUNK_DIM_CUBE) by (nonlinear_arith)
            requires
                w <= crate::chunk::MAX_CHUNK_DIM && h <= crate::chunk::MAX_CHUNK_DIM && d
                    <= crate::chunk::MAX_CHUNK_DIM;
    }
    let num_blocks = w * h * d;
    let mut mesh_data = MeshData { vertices: Vec::new(), indices: Vec::new() };
    proof {
        assert(mesh_data.vertices@ =~= spec_mesh_vertices(*chunk, 0));
        assert(mesh_data.indices@ =~= spec_mesh_indices(*chunk, 0));
    }

    for i in 0..num_blocks
        invariant
            chunk.wf(),
            w == chunk.spec_width(),
            h == chunk.spec_height(),
            d == chunk.spec_depth(),
            num_blocks == w * h * d,
            num_blocks <= crate::chunk::MAX_CHUNK_CELLS,
            mesh_data.vertices@ == spec_mesh_vertices(*chunk, i as int),
            mesh_data.indices@ == spec_mesh_indices(*chunk, i as int),
    {
        proof {
            assert(w >= 1 && h >= 1 && d >= 1) by (nonlinear_arith)
                requires
                    (i as int) < (w as int) * (h as int) * (d as int) && i >= 0;
            lemma_block_xyz_roundtrip(w as int, h as int, d as int, i as int);
            lemma_mesh_vertices_len(*chunk, i as int);
        }
        let (x, y, z) = Chunk::get_block_xyz(w, h, i as usize);
        generate_block(chunk, &mut mesh_data, x, y, z);
    }

    mesh_data
}

/// Upper bound shorthand used in overflow reasoning.
pub const MAX_CHUNK_DIM_SQ: u32 = 1_048_576;

/// Upper bound shorthand used in overflow reasoning.
pub const MAX_CHUNK_DIM_CUBE: u32 = 1_073_741_824;

/// A face is culled exactly between two adjacent solid cells: the quad for a
/// cell and direction is emitted if and only if the cell is solid and the
/// neighbour it faces reads as open space, and every out-of-bounds neighbour
/// reads as open space.
pub proof fn lemma_face_culling(c: Chunk, x: int, y: int, z: int, dir: Directions)
    ensures
        spec_face_vertices(c, x, y, z, dir).len() == 4 <==> (c.spec_get(x, y, z) != Blocks::AIR
            && c.spec_get(
            x + spec_dir_to_offset(dir).0,
            y + spec_dir_to_offset(dir).1,
            z + spec_dir_to_offset(dir).2,
        ) == Blocks::AIR),
        spec_face_vertices(c, x, y, z, dir).len() == 0 <==> !spec_face_visible(c, x, y, z, dir),
        !c.spec_in_bounds(
            x + spec_dir_to_offset(dir).0,
            y + spec_dir_to_offset(dir).1,
            z + spec_dir_to_offset(dir).2,
        ) ==> c.spec_get(
            x + spec_dir_to_offset(dir).0,
            y + spec_dir_to_offset(dir).1,
            z + spec_dir_to_offset(dir).2,
        ) == Blocks::AIR,
        forall|offset: int, jj: int|
            0 <= offset && offset + 4 <= 0x10000 && 0 <= jj < spec_face_indices(
                c,
                x,
                y,
                z,
                dir,
                offset,
            ).len() ==> offset <= (#[trigger] spec_face_indices(c, x, y, z, dir, offset)[jj])
                < offset + 4,
        forall|k: int|
            0 <= k < spec_face_vertices(c, x, y, z, dir).len() ==> (
            #[trigger] spec_face_vertices(c, x, y, z, dir)[k]).tex_index == spec_block_tex_index(
                c.spec_get(x, y, z),
            ),
{
    assert forall|offset: int, jj: int|
        0 <= offset && offset + 4 <= 0x10000 && 0 <= jj < spec_face_indices(
            c,
            x,
            y,
            z,
            dir,
            offset,
        ).len() implies offset <= (#[trigger] spec_face_indices(c, x, y, z, dir, offset)[jj])
        < offset + 4 by {
        assert(0 <= spec_face_rel_index(dir, jj) < 4);
    }
}

/// The height tint stays within one tenth and full brightness for vertices
/// on or above ground level.
pub proof fn lemma_tint_range(y_half: int, world_height: int)
    requires
        world_height >= 1,
        y_half >= 0,
    ensures
        100 <= spec_tint_milli(y_half, world_height) <= 1000,
{
    vstd::arithmetic::div_mod::lemma_div_pos_is_pos(y_half * 500, world_height);
    assert(y_half * 500 >= 0) by (nonlinear_arith)
        requires
            y_half >= 0;
}

/// The height tint never decreases as the vertex height grows.
pub proof fn lemma_tint_monotone(y1: int, y2: int, world_height: int)
    requires
        world_height >= 1,
        y1 <= y2,
    ensures
        spec_tint_milli(y1, world_height) <= spec_tint_milli(y2, world_height),
{
    assert(y1 * 500 <= y2 * 500) by (nonlinear_arith)
        requires
            y1 <= y2;
    vstd::arithmetic::div_mod::lemma_div_is_ordered(y1 * 500, y2 * 500, world_height);
}

} // verus!
