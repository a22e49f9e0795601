use vstd::prelude::*;
use crate::blocks::Blocks;
use crate::chunk::Chunk;
use crate::fixed::{
    floor_units, round_to_pixel, spec_floor_units, spec_move_sign, spec_round_to_pixel,
    COORD_LIMIT, FP_ONE, PADDED_SPRITE_WIDTH_FP, SPRITE_HALF_HEIGHT_FP, SPRITE_HALF_WIDTH_FP,
};
use crate::horizontal_point::HorizontalPoint;

verus! {

/// Coordinate bound on positions handed to the movement routines; the slack
/// below `COORD_LIMIT` absorbs one movement step and one clamp.
pub const MOVE_LIMIT: i64 = 9_999_999_000_000;

/// Per-sprite draw data: a world position and the texture-array slot to
/// sample. Coordinates are fixed-point ticks; rotation is always identity.
#[derive(Copy, Clone, PartialEq, Eq, Structural, Debug)]
pub struct Instance {
    pub x: i64,
    pub y: i64,
    pub z: i64,
    pub tex_index: i32,
}

/// A sprite entity: its logical horizontal position, used for collision, and
/// its render instance, which may lag behind or be perturbed for rendering.
#[derive(Copy, Clone, PartialEq, Eq, Structural, Debug)]
pub struct Entity {
    pub pos: HorizontalPoint<i64>,
    pub instance: Instance,
}

/// Vertical offset of a sprite's render anchor: half a block up plus the
/// sprite's half height.
pub open spec fn spec_sprite_y() -> int {
    FP_ONE / 2 + SPRITE_HALF_HEIGHT_FP
}

/// X coordinate of footprint corner `i` (0..4): the sprite's left edge plus
/// its half width, pushed to either padded side.
pub open spec fn spec_corner_x(px: int, i: int) -> int {
    px + SPRITE_HALF_WIDTH_FP + (if i % 2 == 1 {
        PADDED_SPRITE_WIDTH_FP as int
    } else {
        -(PADDED_SPRITE_WIDTH_FP as int)
    })
}

/// Z coordinate of footprint corner `i` (0..4).
pub open spec fn spec_corner_z(pz: int, i: int) -> int {
    pz + SPRITE_HALF_WIDTH_FP + (if i / 2 == 1 {
        PADDED_SPRITE_WIDTH_FP as int
    } else {
        -(PADDED_SPRITE_WIDTH_FP as int)
    })
}

/// Which of the two chunks of the scrolling window covers world column `bx`:
/// columns alternate between the chunks every chunk width.
pub open spec fn spec_chunk_of_column(bx: int) -> int {
    (bx / 8) % 2
}

/// Whether footprint corner `i` of a sprite at `(px, pz)` rests on a solid
/// cell of the collidable layer.
pub open spec fn spec_corner_hit(chunks: Seq<Chunk>, px: int, pz: int, i: int) -> bool {
    let bx = spec_floor_units(spec_corner_x(px, i));
    let bz = spec_floor_units(spec_corner_z(pz, i));
    chunks[spec_chunk_of_column(bx)].spec_get(bx % 8, 1, bz) != Blocks::AIR
}

/// The cell of the first colliding footprint corner at or after corner `i`.
pub open spec fn spec_first_hit_from(chunks: Seq<Chunk>, px: int, pz: int, i: int) -> Option<
    (int, int),
>
    decreases 4 - i,
{
    if i >= 4 {
        None
    } else if spec_corner_hit(chunks, px, pz, i) {
        Some(
            (
                spec_floor_units(spec_corner_x(px, i)),
                spec_floor_units(spec_corner_z(pz, i)),
            ),
        )
    } else {
        spec_first_hit_from(chunks, px, pz, i + 1)
    }
}

/// The cell of the first colliding footprint corner of a sprite at
/// `(px, pz)`, or `None` if all four corners rest on open space.
pub open spec fn spec_block_collision(chunks: Seq<Chunk>, px: int, pz: int) -> Option<(int, int)> {
    spec_first_hit_from(chunks, px, pz, 0)
}

/// Where a sprite at `(px, pz)` ends up on the x axis after asking to move
/// by `amount`: the full amount if the proposed position is clear, else
/// snapped one whole unit off the colliding cell against the move direction.
pub open spec fn spec_moved_x(chunks: Seq<Chunk>, px: int, pz: int, amount: int) -> int {
    match spec_block_collision(chunks, px + amount, pz) {
        Option::None => px + amount,
        Option::Some((bx, bz)) => (bx - spec_move_sign(amount)) * (FP_ONE as int),
    }
}

/// Where a sprite at `(px, pz)` ends up on the z axis after asking to move
/// by `amount`.
pub open spec fn spec_moved_z(chunks: Seq<Chunk>, px: int, pz: int, amount: int) -> int {
    match spec_block_collision(chunks, px, pz + amount) {
        Option::None => pz + amount,
        Option::Some((bx, bz)) => (bz - spec_move_sign(amount)) * (FP_ONE as int),
    }
}

/// Conditions under which the movement routines are defined: the two-chunk
/// window is sound, coordinates are bounded, and every footprint corner's
/// column is non-negative so the chunk selection is meaningful.
pub open spec fn spec_move_ok(chunks: Seq<Chunk>, px: int, pz: int) -> bool {
    &&& chunks.len() == 2
    &&& chunks[0].wf()
    &&& chunks[1].wf()
    &&& px >= -100
    &&& -MOVE_LIMIT <= px <= MOVE_LIMIT
    &&& -MOVE_LIMIT <= pz <= MOVE_LIMIT
}

impl Entity {
    /// Create an entity at `(x, z)` showing the given sprite.
    pub fn new(x: i64, z: i64, tex_index: i32) -> (e: Entity)
        ensures
            e.pos.x == x,
            e.pos.z == z,
            e.instance == (Instance { x, y: spec_sprite_y() as i64, z, tex_index }),
    {
        Entity {
            pos: HorizontalPoint::new(x, z),
            instance: Instance { x, y: FP_ONE / 2 + SPRITE_HALF_HEIGHT_FP, z, tex_index },
        }
    }

    /// Footprint corner `i` of a sprite at `pos`.
    fn get_corner_positions(pos: HorizontalPoint<i64>, i: usize) -> (corner: HorizontalPoint<i64>)
        requires
            i < 4,
            -COORD_LIMIT + FP_ONE <= pos.x <= COORD_LIMIT - FP_ONE,
            -COORD_LIMIT + FP_ONE <= pos.z <= COORD_LIMIT - FP_ONE,
        ensures
            corner.x == spec_corner_x(pos.x as int, i as int),
            corner.z == spec_corner_z(pos.z as int, i as int),
            -COORD_LIMIT <= corner.x <= COORD_LIMIT,
            -COORD_LIMIT <= corner.z <= COORD_LIMIT,
    {
        let x_side: i64 = if i % 2 == 1 {
            PADDED_SPRITE_WIDTH_FP
        } else {
            -PADDED_SPRITE_WIDTH_FP
        };
        let z_side: i64 = if i / 2 == 1 {
            PADDED_SPRITE_WIDTH_FP
        } else {
            -PADDED_SPRITE_WIDTH_FP
        };
        HorizontalPoint::new(pos.x + SPRITE_HALF_WIDTH_FP + x_side, pos.z + SPRITE_HALF_WIDTH_FP + z_side)
    }

    /// Test the four footprint corners of a sprite at `pos` against the
    /// collidable layer; the first corner resting on a solid cell names it.
    fn check_block_collisions(pos: HorizontalPoint<i64>, chunks: &Vec<Chunk>) -> (r: Option<
        HorizontalPoint<i64>,
    >)
        requires
            spec_move_ok(chunks@, pos.x as int, pos.z as int),
        ensures
            match r {
                Option::None => spec_block_collision(chunks@, pos.x as int, pos.z as int)
                    is None,
                Option::Some(cell) => spec_block_collision(chunks@, pos.x as int, pos.z as int)
                    == Option::Some((cell.x as int, cell.z as int)),
            },
    {
        let mut i: usize = 0;
        while i < 4
            invariant
                i <= 4,
                spec_move_ok(chunks@, pos.x as int, pos.z as int),
                spec_block_collision(chunks@, pos.x as int, pos.z as int) == spec_first_hit_from(
                    chunks@,
                    pos.x as int,
                    pos.z as int,
                    i as int,
                ),
            decreases 4 - i,
        {
            let corner_pos = Self::get_corner_positions(pos, i);
            let block_x = floor_units(corner_pos.x);
            let block_z = floor_units(corner_pos.z);
            proof {
                vstd::arithmetic::div_mod::lemma_div_pos_is_pos(corner_pos.x as int, FP_ONE as int);
            }
            let chunk_i = (((block_x as u64) / 8) % 2) as usize;
            let local_x = ((block_x as u64) % 8) as i32;
            proof {
                assert(chunk_i == spec_chunk_of_column(block_x as int));
                assert(local_x == (block_x as int) % 8);
            }
            if chunks[chunk_i].get_block(local_x, 1, block_z as i32) != Blocks::AIR {
                return Some(HorizontalPoint::new(block_x, block_z));
            }
            i = i + 1;
        }
        None
    }

    /// The displacement a requested move resolves to on each axis: the full
    /// request if the proposed position is clear, else the clamp against the
    /// first colliding cell.
    fn get_max_movement(&self, movement: HorizontalPoint<i64>, chunks: &Vec<Chunk>) -> (r:
        HorizontalPoint<i64>)
        requires
            spec_move_ok(
                chunks@,
                self.pos.x + movement.x,
                self.pos.z + movement.z,
            ),
            -MOVE_LIMIT <= self.pos.x <= MOVE_LIMIT,
            -MOVE_LIMIT <= self.pos.z <= MOVE_LIMIT,
        ensures
            match spec_block_collision(
                chunks@,
                self.pos.x + movement.x,
                self.pos.z + movement.z,
            ) {
                Option::None => r.x == movement.x && r.z == movement.z,
                Option::Some((bx, bz)) => {
                    &&& r.x == (bx - spec_move_sign(movement.x as int)) * (FP_ONE as int)
                        - self.pos.x
                    &&& r.z == (bz - spec_move_sign(movement.z as int)) * (FP_ONE as int)
                        - self.pos.z
                },
            },
    {
        let moved_pos = HorizontalPoint::new(self.pos.x + movement.x, self.pos.z + movement.z);

        if let Some(col) = Self::check_block_collisions(moved_pos, chunks) {
            proof {
                lemma_collision_cell_bounds(
                    chunks@,
                    moved_pos.x as int,
                    moved_pos.z as int,
                    col.x as int,
                    col.z as int,
                );
            }
            let sign_x: i64 = if movement.x >= 0 {
                1
            } else {
                -1
            };
            let sign_z: i64 = if movement.z >= 0 {
                1
            } else {
                -1
            };
            HorizontalPoint::new(
                (col.x - sign_x) * FP_ONE - self.pos.x,
                (col.z - sign_z) * FP_ONE - self.pos.z,
            )
        } else {
            movement
        }
    }

    /// Move along x by up to `amount`, clamping against the first solid cell
    /// the footprint would enter; the render instance follows, rounded to
    /// the pixel grid. Returns whether the position changed at all.
    pub fn move_x(&mut self, amount: i64, chunks: &Vec<Chunk>) -> (moved: bool)
        requires
            spec_move_ok(chunks@, old(self).pos.x + amount, old(self).pos.z as int),
            -MOVE_LIMIT <= old(self).pos.x <= MOVE_LIMIT,
        ensures
            final(self).pos.x == spec_moved_x(
                chunks@,
                old(self).pos.x as int,
                old(self).pos.z as int,
                amount as int,
            ),
            final(self).pos.z == old(self).pos.z,
            final(self).instance == (Instance {
                x: spec_round_to_pixel(final(self).pos.x as int) as i64,
                ..old(self).instance
            }),
            moved == (final(self).pos.x != old(self).pos.x),
            old(self).pos.x + amount - 20000 <= final(self).pos.x <= old(self).pos.x + amount
                + 20000,
    {
        let max_movement = self.get_max_movement(HorizontalPoint::new(amount, 0), chunks).x;
        proof {
            lemma_moved_x_bounds(
                chunks@,
                self.pos.x as int,
                self.pos.z as int,
                amount as int,
            );
        }
        self.pos.x = self.pos.x + max_movement;
        self.instance.x = round_to_pixel(self.pos.x);
        max_movement != 0
    }

    /// Move along z by up to `amount`, clamping against the first solid cell
    /// the footprint would enter; the render instance follows exactly.
    /// Returns whether the position changed at all.
    pub fn move_z(&mut self, amount: i64, chunks: &Vec<Chunk>) -> (moved: bool)
        requires
            spec_move_ok(chunks@, old(self).pos.x as int, old(self).pos.z + amount),
            -MOVE_LIMIT <= old(self).pos.z <= MOVE_LIMIT,
        ensures
            final(self).pos.z == spec_moved_z(
                chunks@,
                old(self).pos.x as int,
                old(self).pos.z as int,
                amount as int,
            ),
            final(self).pos.x == old(self).pos.x,
            final(self).instance == (Instance { z: final(self).pos.z, ..old(self).instance }),
            moved == (final(self).pos.z != old(self).pos.z),
            old(self).pos.z + amount - 20000 <= final(self).pos.z <= old(self).pos.z + amount
                + 20000,
    {
        let max_movement = self.get_max_movement(HorizontalPoint::new(0, amount), chunks).z;
        proof {
            lemma_moved_z_bounds(
                chunks@,
                self.pos.x as int,
                self.pos.z as int,
                amount as int,
            );
        }
        self.pos.z = self.pos.z + max_movement;
        self.instance.z = self.pos.z;
        max_movement != 0
    }
}

/// Whether the point `(cx, cz)` lies within the padded footprint box of
/// entity `e`.
pub open spec fn spec_entity_overlap(cx: int, cz: int, e: Entity) -> bool {
    &&& e.pos.x + 100 <= cx <= e.pos.x + 9900
    &&& e.pos.z + 100 <= cz <= e.pos.z + 9900
}

/// The first entity at or after position `ei` whose padded box contains the
/// point `(cx, cz)`.
pub open spec fn spec_first_overlap_in(entities: Seq<Entity>, cx: int, cz: int, ei: int) -> Option<
    int,
>
    decreases entities.len() - ei,
{
    if ei < 0 || ei >= entities.len() {
        None
    } else if spec_entity_overlap(cx, cz, entities[ei]) {
        Some(ei)
    } else {
        spec_first_overlap_in(entities, cx, cz, ei + 1)
    }
}

/// The entity hit by footprint corner `i` of a sprite at `(px, pz)`: the
/// corner's column selects which chunk's entity list is searched.
pub open spec fn spec_corner_entity_hit(
    chunk_entities: Seq<Seq<Entity>>,
    px: int,
    pz: int,
    i: int,
) -> Option<(int, int)> {
    let cx = spec_corner_x(px, i);
    let cz = spec_corner_z(pz, i);
    let ci = spec_chunk_of_column(spec_floor_units(cx));
    match spec_first_overlap_in(chunk_entities[ci], cx, cz, 0) {
        Some(ei) => Some((ci, ei)),
        None => None,
    }
}

/// The first entity hit by any footprint corner at or after corner `i`.
pub open spec fn spec_entity_collision_from(
    chunk_entities: Seq<Seq<Entity>>,
    px: int,
    pz: int,
    i: int,
) -> Option<(int, int)>
    decreases 4 - i,
{
    if i >= 4 {
        None
    } else {
        match spec_corner_entity_hit(chunk_entities, px, pz, i) {
            Some(h) => Some(h),
            None => spec_entity_collision_from(chunk_entities, px, pz, i + 1),
        }
    }
}

/// The first entity whose padded box one of the four footprint corners of a
/// sprite at `(px, pz)` falls into, scanning corners in order.
pub open spec fn spec_entity_collision(
    chunk_entities: Seq<Seq<Entity>>,
    px: int,
    pz: int,
) -> Option<(int, int)> {
    spec_entity_collision_from(chunk_entities, px, pz, 0)
}

/// The entity lists as raw sequences.
pub open spec fn spec_views(chunk_entities: Seq<Vec<Entity>>) -> Seq<Seq<Entity>> {
    chunk_entities.map_values(|v: Vec<Entity>| v@)
}

/// All entity coordinates stay within the supported coordinate range.
pub open spec fn spec_entities_bounded(chunk_entities: Seq<Seq<Entity>>) -> bool {
    forall|c: int, k: int|
        0 <= c < chunk_entities.len() && 0 <= k < chunk_entities[c].len() ==> {
            &&& -COORD_LIMIT <= (#[trigger] chunk_entities[c][k]).pos.x <= COORD_LIMIT
            &&& -COORD_LIMIT <= chunk_entities[c][k].pos.z <= COORD_LIMIT
        }
}

impl Entity {
    /// Test the four padded footprint corners of a sprite at `pos` against
    /// every entity of the chunk each corner's column selects; the first
    /// containment found names the chunk and the entity hit.
    pub fn check_entity_collisions(
        pos: HorizontalPoint<i64>,
        chunk_entities: &Vec<Vec<Entity>>,
    ) -> (r: Option<(usize, usize)>)
        requires
            chunk_entities@.len() == 2,
            pos.x >= -100,
            -MOVE_LIMIT <= pos.x <= MOVE_LIMIT,
            -MOVE_LIMIT <= pos.z <= MOVE_LIMIT,
            spec_entities_bounded(spec_views(chunk_entities@)),
        ensures
            match r {
                Option::None => spec_entity_collision(
                    spec_views(chunk_entities@),
                    pos.x as int,
                    pos.z as int,
                ) is None,
                Option::Some(hit) => {
                    &&& spec_entity_collision(
                        spec_views(chunk_entities@),
                        pos.x as int,
                        pos.z as int,
                    ) == Option::Some((hit.0 as int, hit.1 as int))
                    &&& hit.0 < 2
                    &&& hit.1 < spec_views(chunk_entities@)[hit.0 as int].len()
                },
            },
    {
        let ghost dv = spec_views(chunk_entities@);
        let mut i: usize = 0;
        while i < 4
            invariant
                i <= 4,
                dv == spec_views(chunk_entities@),
                chunk_entities@.len() == 2,
                pos.x >= -100,
                -MOVE_LIMIT <= pos.x <= MOVE_LIMIT,
                -MOVE_LIMIT <= pos.z <= MOVE_LIMIT,
                spec_entities_bounded(dv),
                spec_entity_collision(dv, pos.x as int, pos.z as int)
                    == spec_entity_collision_from(dv, pos.x as int, pos.z as int, i as int),
            decreases 4 - i,
        {
            let corner_pos = Self::get_corner_positions(pos, i);
            let block_x = floor_units(corner_pos.x);
            proof {
                vstd::arithmetic::div_mod::lemma_div_pos_is_pos(corner_pos.x as int, FP_ONE as int);
            }
            let chunk_i = (((block_x as u64) / 8) % 2) as usize;
            proof {
                assert(chunk_i == spec_chunk_of_column(spec_floor_units(corner_pos.x as int)));
                assert(dv[chunk_i as int] == chunk_entities@[chunk_i as int]@);
            }
            let ghost cx = corner_pos.x as int;
            let ghost cz = corner_pos.z as int;
            let ents = &chunk_entities[chunk_i];
            let mut ei: usize = 0;
            while ei < ents.len()
                invariant
                    ei <= ents@.len(),
                    i < 4,
                    ents@ == chunk_entities@[chunk_i as int]@,
                    dv == spec_views(chunk_entities@),
                    dv[chunk_i as int] == ents@,
                    spec_entities_bounded(dv),
                    chunk_i < 2,
                    dv.len() == 2,
                    cx == corner_pos.x as int,
                    cz == corner_pos.z as int,
                    cx == spec_corner_x(pos.x as int, i as int),
                    cz == spec_corner_z(pos.z as int, i as int),
                    chunk_i as int == spec_chunk_of_column(spec_floor_units(cx)),
                    spec_entity_collision(dv, pos.x as int, pos.z as int)
                        == spec_entity_collision_from(dv, pos.x as int, pos.z as int, i as int),
                    spec_first_overlap_in(ents@, cx, cz, 0) == spec_first_overlap_in(
                        ents@,
                        cx,
                        cz,
                        ei as int,
                    ),
                decreases ents@.len() - ei,
            {
                let e = &ents[ei];
                let overlap = e.pos.x + 100 <= corner_pos.x && corner_pos.x <= e.pos.x + 9900
                    && e.pos.z + 100 <= corner_pos.z && corner_pos.z <= e.pos.z + 9900;
                if overlap {
                    proof {
                        assert(spec_entity_overlap(cx, cz, ents@[ei as int]));
                        assert(spec_first_overlap_in(ents@, cx, cz, ei as int) == Some(ei as int));
                        assert(spec_corner_entity_hit(dv, pos.x as int, pos.z as int, i as int)
                            == Some((chunk_i as int, ei as int)));
                        assert(spec_entity_collision_from(dv, pos.x as int, pos.z as int, i as int)
                            == Some((chunk_i as int, ei as int)));
                    }
                    return Some((chunk_i, ei));
                }
                ei = ei + 1;
            }
            proof {
                assert(spec_first_overlap_in(ents@, cx, cz, ei as int) is None);
                assert(spec_corner_entity_hit(dv, pos.x as int, pos.z as int, i as int) is None);
            }
            i = i + 1;
        }
        None
    }
}

/// The first colliding cell lies under one of the four footprint corners,
/// which bounds it to within one unit of the position.
pub proof fn lemma_collision_cell_bounds(
    chunks: Seq<Chunk>,
    px: int,
    pz: int,
    bx: int,
    bz: int,
)
    requires
        spec_block_collision(chunks, px, pz) == Option::<(int, int)>::Some((bx, bz)),
    ensures
        px + 100 - 9999 <= bx * (FP_ONE as int) <= px + 9900,
        pz + 100 - 9999 <= bz * (FP_ONE as int) <= pz + 9900,
{
    lemma_hit_corner_bounds(chunks, px, pz, 0, bx, bz);
}

proof fn lemma_hit_corner_bounds(
    chunks: Seq<Chunk>,
    px: int,
    pz: int,
    i: int,
    bx: int,
    bz: int,
)
    requires
        0 <= i <= 4,
        spec_first_hit_from(chunks, px, pz, i) == Option::<(int, int)>::Some((bx, bz)),
    ensures
        px + 100 - 9999 <= bx * (FP_ONE as int) <= px + 9900,
        pz + 100 - 9999 <= bz * (FP_ONE as int) <= pz + 9900,
    decreases 4 - i,
{
    if i >= 4 {
    } else if spec_corner_hit(chunks, px, pz, i) {
        let cx = spec_corner_x(px, i);
        let cz = spec_corner_z(pz, i);
        vstd::arithmetic::div_mod::lemma_fundamental_div_mod(cx, FP_ONE as int);
        vstd::arithmetic::div_mod::lemma_mod_division_less_than_divisor(cx, FP_ONE as int);
        vstd::arithmetic::div_mod::lemma_fundamental_div_mod(cz, FP_ONE as int);
        vstd::arithmetic::div_mod::lemma_mod_division_less_than_divisor(cz, FP_ONE as int);
        assert(px + 100 <= cx <= px + 9900);
        assert(pz + 100 <= cz <= pz + 9900);
        assert(bx == cx / (FP_ONE as int));
        assert(bx * (FP_ONE as int) <= cx);
        assert(cx < bx * (FP_ONE as int) + (FP_ONE as int));
    } else {
        lemma_hit_corner_bounds(chunks, px, pz, i + 1, bx, bz);
    }
}

/// A reported collision is witnessed by one of the four footprint corners.
pub proof fn lemma_block_collision_witness(
    chunks: Seq<Chunk>,
    px: int,
    pz: int,
    bx: int,
    bz: int,
)
    requires
        spec_block_collision(chunks, px, pz) == Option::<(int, int)>::Some((bx, bz)),
    ensures
        exists|i: int|
            {
                &&& 0 <= i < 4
                &&& #[trigger] spec_corner_hit(chunks, px, pz, i)
                &&& bx == spec_floor_units(spec_corner_x(px, i))
                &&& bz == spec_floor_units(spec_corner_z(pz, i))
            },
{
    lemma_hit_witness_from(chunks, px, pz, 0, bx, bz);
}

proof fn lemma_hit_witness_from(chunks: Seq<Chunk>, px: int, pz: int, j: int, bx: int, bz: int)
    requires
        0 <= j <= 4,
        spec_first_hit_from(chunks, px, pz, j) == Option::<(int, int)>::Some((bx, bz)),
    ensures
        exists|i: int|
            {
                &&& 0 <= i < 4
                &&& #[trigger] spec_corner_hit(chunks, px, pz, i)
                &&& bx == spec_floor_units(spec_corner_x(px, i))
                &&& bz == spec_floor_units(spec_corner_z(pz, i))
            },
    decreases 4 - j,
{
    if j < 4 {
        if spec_corner_hit(chunks, px, pz, j) {
        } else {
            lemma_hit_witness_from(chunks, px, pz, j + 1, bx, bz);
        }
    }
}

/// A corner resting on a solid cell means the collision test reports a hit.
pub proof fn lemma_hit_implies_some(chunks: Seq<Chunk>, px: int, pz: int, i: int)
    requires
        0 <= i < 4,
        spec_corner_hit(chunks, px, pz, i),
    ensures
        !(spec_block_collision(chunks, px, pz) is None),
{
    lemma_some_hit_from(chunks, px, pz, 0, i);
}

proof fn lemma_some_hit_from(chunks: Seq<Chunk>, px: int, pz: int, j: int, i: int)
    requires
        0 <= j <= i < 4,
        spec_corner_hit(chunks, px, pz, i),
    ensures
        !(spec_first_hit_from(chunks, px, pz, j) is None),
    decreases 4 - j,
{
    if j < i && !spec_corner_hit(chunks, px, pz, j) {
        lemma_some_hit_from(chunks, px, pz, j + 1, i);
    }
}

/// The colliding cell's column is never negative when the footprint stands
/// at a non-negative x.
pub proof fn lemma_collision_column_nonneg(
    chunks: Seq<Chunk>,
    px: int,
    pz: int,
    bx: int,
    bz: int,
)
    requires
        px >= -100,
        spec_block_collision(chunks, px, pz) == Option::<(int, int)>::Some((bx, bz)),
    ensures
        bx >= 0,
{
    lemma_block_collision_witness(chunks, px, pz, bx, bz);
    let i = choose|i: int|
        {
            &&& 0 <= i < 4
            &&& #[trigger] spec_corner_hit(chunks, px, pz, i)
            &&& bx == spec_floor_units(spec_corner_x(px, i))
            &&& bz == spec_floor_units(spec_corner_z(pz, i))
        };
    vstd::arithmetic::div_mod::lemma_div_pos_is_pos(spec_corner_x(px, i), FP_ONE as int);
}

/// A forward move from a clear position is never clamped against column
/// zero: whichever corner enters a solid cell was one fixed-point unit
/// behind it before the move, so the cell lies at or beyond column one.
pub proof fn lemma_forward_clamp_column(
    chunks: Seq<Chunk>,
    px: int,
    pz: int,
    amount: int,
    bx: int,
    bz: int,
)
    requires
        px >= -100,
        0 <= amount < FP_ONE,
        spec_block_collision(chunks, px, pz) is None,
        spec_block_collision(chunks, px + amount, pz) == Option::<(int, int)>::Some((bx, bz)),
    ensures
        bx >= 1,
{
    lemma_block_collision_witness(chunks, px + amount, pz, bx, bz);
    let i = choose|i: int|
        {
            &&& 0 <= i < 4
            &&& #[trigger] spec_corner_hit(chunks, px + amount, pz, i)
            &&& bx == spec_floor_units(spec_corner_x(px + amount, i))
            &&& bz == spec_floor_units(spec_corner_z(pz, i))
        };
    let c = spec_corner_x(px + amount, i);
    vstd::arithmetic::div_mod::lemma_div_pos_is_pos(c, FP_ONE as int);
    if bx == 0 {
        vstd::arithmetic::div_mod::lemma_fundamental_div_mod(c, FP_ONE as int);
        vstd::arithmetic::div_mod::lemma_mod_division_less_than_divisor(c, FP_ONE as int);
        assert(c < FP_ONE);
        let c_old = spec_corner_x(px, i);
        assert(0 <= c_old < FP_ONE);
        vstd::arithmetic::div_mod::lemma_basic_div(c_old, FP_ONE as int);
        assert(spec_floor_units(c_old) == 0);
        assert(spec_corner_hit(chunks, px, pz, i));
        lemma_hit_implies_some(chunks, px, pz, i);
    }
}

/// A resolved x move lands within two units of the requested target.
pub proof fn lemma_moved_x_bounds(chunks: Seq<Chunk>, px: int, pz: int, amount: int)
    ensures
        px + amount - 20000 <= spec_moved_x(chunks, px, pz, amount) <= px + amount + 20000,
{
    match spec_block_collision(chunks, px + amount, pz) {
        Option::None => {},
        Option::Some((bx, bz)) => {
            lemma_collision_cell_bounds(chunks, px + amount, pz, bx, bz);
        },
    }
}

/// A resolved z move lands within two units of the requested target.
pub proof fn lemma_moved_z_bounds(chunks: Seq<Chunk>, px: int, pz: int, amount: int)
    ensures
        pz + amount - 20000 <= spec_moved_z(chunks, px, pz, amount) <= pz + amount + 20000,
{
    match spec_block_collision(chunks, px, pz + amount) {
        Option::None => {},
        Option::Some((bx, bz)) => {
            lemma_collision_cell_bounds(chunks, px, pz + amount, bx, bz);
        },
    }
}

/// Movement clamps exactly at a block boundary: when a forward x move would
/// enter a solid cell, the sprite is left flush one whole unit before that
/// cell's column, its leading corners strictly outside it, and the move
/// reports motion exactly when the sprite was not already flush.
pub proof fn lemma_move_x_clamps_at_boundary(
    chunks: Seq<Chunk>,
    px: int,
    pz: int,
    amount: int,
    bx: int,
    bz: int,
)
    requires
        spec_block_collision(chunks, px + amount, pz) == Option::<(int, int)>::Some((bx, bz)),
    ensures
        amount >= 0 ==> spec_moved_x(chunks, px, pz, amount) == (bx - 1) * (FP_ONE as int),
        amount >= 0 ==> spec_corner_x(spec_moved_x(chunks, px, pz, amount), 1) < bx * (
        FP_ONE as int),
        amount >= 0 ==> spec_corner_x(spec_moved_x(chunks, px, pz, amount), 3) < bx * (
        FP_ONE as int),
        amount < 0 ==> spec_moved_x(chunks, px, pz, amount) == (bx + 1) * (FP_ONE as int),
        amount < 0 ==> spec_corner_x(spec_moved_x(chunks, px, pz, amount), 0) > (bx + 1) * (
        FP_ONE as int),
        amount < 0 ==> spec_corner_x(spec_moved_x(chunks, px, pz, amount), 2) > (bx + 1) * (
        FP_ONE as int),
        (spec_moved_x(chunks, px, pz, amount) == px) <==> (px == (bx - spec_move_sign(amount)) * (
        FP_ONE as int)),
{
    let m = spec_moved_x(chunks, px, pz, amount);
    if amount >= 0 {
        assert(m == (bx - 1) * (FP_ONE as int)) by (nonlinear_arith)
            requires
                m == (bx - 1) * (FP_ONE as int);
        assert(spec_corner_x(m, 1) == bx * (FP_ONE as int) - 100) by (nonlinear_arith)
            requires
                m == (bx - 1) * (FP_ONE as int);
    } else {
        assert(spec_corner_x(m, 0) == (bx + 1) * (FP_ONE as int) + 100) by (nonlinear_arith)
            requires
                m == (bx + 1) * (FP_ONE as int);
    }
}

/// The z-axis counterpart: a forward z move that would enter a solid cell
/// leaves the sprite flush one whole unit before that cell's row.
pub proof fn lemma_move_z_clamps_at_boundary(
    chunks: Seq<Chunk>,
    px: int,
    pz: int,
    amount: int,
    bx: int,
    bz: int,
)
    requires
        spec_block_collision(chunks, px, pz + amount) == Option::<(int, int)>::Some((bx, bz)),
    ensures
        amount >= 0 ==> spec_moved_z(chunks, px, pz, amount) == (bz - 1) * (FP_ONE as int),
        amount >= 0 ==> spec_corner_z(spec_moved_z(chunks, px, pz, amount), 2) < bz * (
        FP_ONE as int),
        amount >= 0 ==> spec_corner_z(spec_moved_z(chunks, px, pz, amount), 3) < bz * (
        FP_ONE as int),
        amount < 0 ==> spec_moved_z(chunks, px, pz, amount) == (bz + 1) * (FP_ONE as int),
        amount < 0 ==> spec_corner_z(spec_moved_z(chunks, px, pz, amount), 0) > (bz + 1) * (
        FP_ONE as int),
        amount < 0 ==> spec_corner_z(spec_moved_z(chunks, px, pz, amount), 1) > (bz + 1) * (
        FP_ONE as int),
        (spec_moved_z(chunks, px, pz, amount) == pz) <==> (pz == (bz - spec_move_sign(amount)) * (
        FP_ONE as int)),
{
    let m = spec_moved_z(chunks, px, pz, amount);
    if amount >= 0 {
        assert(spec_corner_z(m, 2) == bz * (FP_ONE as int) - 100) by (nonlinear_arith)
            requires
                m == (bz - 1) * (FP_ONE as int);
    } else {
        assert(spec_corner_z(m, 0) == (bz + 1) * (FP_ONE as int) + 100) by (nonlinear_arith)
            requires
                m == (bz + 1) * (FP_ONE as int);
    }
}

} // verus!
