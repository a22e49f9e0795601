use vstd::prelude::*;
use crate::directions::Directions;

verus! {

/// One mesh vertex. Positions are in half world units, so the corners of a
/// unit cube centred on a cell are exact integers. Texture coordinates are 0
/// or 1 across a face. Colour channels are in millionths: 1_000_000 is full
/// brightness.
#[derive(Copy, Clone, PartialEq, Eq, Structural, Debug)]
pub struct Vertex {
    pub x_half: i32,
    pub y_half: i32,
    pub z_half: i32,
    pub u: u8,
    pub v: u8,
    pub tex_index: u32,
    pub r: i32,
    pub g: i32,
    pub b: i32,
}

/// One canonical face of the unit cube: four vertices and the six indices
/// that split the quad into two triangles.
pub struct Plane {
    pub vertices: Vec<Vertex>,
    pub indices: Vec<u16>,
}

/// Base brightness of a face, in thousandths: the top face is lit fully, the
/// forward face at six tenths.
pub open spec fn spec_face_base_color(dir: Directions) -> int {
    match dir {
        Directions::Up => 1000,
        Directions::Forward => 600,
    }
}

/// Position of corner `k` of a face, relative to the cell centre, in half
/// units.
pub open spec fn spec_face_corner(dir: Directions, k: int) -> (int, int, int) {
    match dir {
        Directions::Up => {
            if k == 0 {
                (-1, 1, 1)
            } else if k == 1 {
                (-1, 1, -1)
            } else if k == 2 {
                (1, 1, -1)
            } else {
                (1, 1, 1)
            }
        },
        Directions::Forward => {
            if k == 0 {
                (-1, 1, 1)
            } else if k == 1 {
                (-1, -1, 1)
            } else if k == 2 {
                (1, -1, 1)
            } else {
                (1, 1, 1)
            }
        },
    }
}

/// Texture coordinates of corner `k` of a face.
pub open spec fn spec_face_uv(dir: Directions, k: int) -> (int, int) {
    match dir {
        Directions::Up => {
            if k == 0 {
                (0, 1)
            } else if k == 1 {
                (0, 0)
            } else if k == 2 {
                (1, 0)
            } else {
                (1, 1)
            }
        },
        Directions::Forward => {
            if k == 0 {
                (0, 0)
            } else if k == 1 {
                (0, 1)
            } else if k == 2 {
                (1, 1)
            } else {
                (1, 0)
            }
        },
    }
}

/// Index `j` of the two triangles of a face, relative to its first vertex.
pub open spec fn spec_face_rel_index(dir: Directions, j: int) -> int {
    match dir {
        Directions::Up => {
            if j == 0 {
                0
            } else if j == 1 {
                2
            } else if j == 2 {
                1
            } else if j == 3 {
                0
            } else if j == 4 {
                3
            } else {
                2
            }
        },
        Directions::Forward => {
            if j == 0 {
                0
            } else if j == 1 {
                1
            } else if j == 2 {
                2
            } else if j == 3 {
                0
            } else if j == 4 {
                2
            } else {
                3
            }
        },
    }
}

/// Corner `k` of a face as an untinted canonical vertex.
pub open spec fn spec_canonical_vertex(dir: Directions, k: int) -> Vertex {
    Vertex {
        x_half: spec_face_corner(dir, k).0 as i32,
        y_half: spec_face_corner(dir, k).1 as i32,
        z_half: spec_face_corner(dir, k).2 as i32,
        u: spec_face_uv(dir, k).0 as u8,
        v: spec_face_uv(dir, k).1 as u8,
        tex_index: 0,
        r: (spec_face_base_color(dir) * 1000) as i32,
        g: (spec_face_base_color(dir) * 1000) as i32,
        b: (spec_face_base_color(dir) * 1000) as i32,
    }
}

/// The canonical quad of a face direction.
pub fn mesh_side(dir: Directions) -> (p: Plane)
    ensures
        p.vertices@.len() == 4,
        p.indices@.len() == 6,
        forall|k: int| 0 <= k < 4 ==> #[trigger] p.vertices@[k] == spec_canonical_vertex(dir, k),
        forall|j: int| 0 <= j < 6 ==> #[trigger] p.indices@[j] == spec_face_rel_index(dir, j),
{
    match dir {
        Directions::Up => {
            let vertices = vec![
                Vertex {
                    x_half: -1,
                    y_half: 1,
                    z_half: 1,
                    u: 0,
                    v: 1,
                    tex_index: 0,
                    r: 1_000_000,
                    g: 1_000_000,
                    b: 1_000_000,
                },
                Vertex {
                    x_half: -1,
                    y_half: 1,
                    z_half: -1,
                    u: 0,
                    v: 0,
                    tex_index: 0,
                    r: 1_000_000,
                    g: 1_000_000,
                    b: 1_000_000,
                },
                Vertex {
                    x_half: 1,
                    y_half: 1,
                    z_half: -1,
                    u: 1,
                    v: 0,
                    tex_index: 0,
                    r: 1_000_000,
                    g: 1_000_000,
                    b: 1_000_000,
                },
                Vertex {
                    x_half: 1,
                    y_half: 1,
                    z_half: 1,
                    u: 1,
                    v: 1,
                    tex_index: 0,
                    r: 1_000_000,
                    g: 1_000_000,
                    b: 1_000_000,
                },
            ];
            let indices = vec![0u16, 2u16, 1u16, 0u16, 3u16, 2u16];
            let p = Plane { vertices, indices };
            proof {
                assert forall|k: int| 0 <= k < 4 implies #[trigger] p.vertices@[k]
                    == spec_canonical_vertex(dir, k) by {
                }
            }
            p
        },
        Directions::Forward => {
            let vertices = vec![
                Vertex {
                    x_half: -1,
                    y_half: 1,
                    z_half: 1,
                    u: 0,
                    v: 0,
                    tex_index: 0,
                    r: 600_000,
                    g: 600_000,
                    b: 600_000,
                },
                Vertex {
                    x_half: -1,
                    y_half: -1,
                    z_half: 1,
                    u: 0,
                    v: 1,
                    tex_index: 0,
                    r: 600_000,
                    g: 600_000,
                    b: 600_000,
                },
                Vertex {
                    x_half: 1,
                    y_half: -1,
                    z_half: 1,
                    u: 1,
                    v: 1,
                    tex_index: 0,
                    r: 600_000,
                    g: 600_000,
                    b: 600_000,
                },
                Vertex {
                    x_half: 1,
                    y_half: 1,
                    z_half: 1,
                    u: 1,
                    v: 0,
                    tex_index: 0,
                    r: 600_000,
                    g: 600_000,
                    b: 600_000,
                },
            ];
            let indices = vec![0u16, 1u16, 2u16, 0u16, 2u16, 3u16];
            let p = Plane { vertices, indices };
            proof {
                assert forall|k: int| 0 <= k < 4 implies #[trigger] p.vertices@[k]
                    == spec_canonical_vertex(dir, k) by {
                }
            }
            p
        },
    }
}

} // verus!
