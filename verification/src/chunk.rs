use vstd::prelude::*;
use vstd::arithmetic::div_mod::{
    lemma_div_denominator, lemma_fundamental_div_mod, lemma_fundamental_div_mod_converse,
    lemma_mod_division_less_than_divisor, lemma_multiply_divide_lt,
};
use crate::blocks::{
    Blocks, border_tile, floor_tile, obstacle_tile, wall_tile, is_border_tile, is_floor_tile,
    is_obstacle_tile, is_wall_tile, BORDER_TILE_COUNT, FLOOR_TILE_COUNT, OBSTACLE_TILE_COUNT,
    WALL_TILE_COUNT,
};
use crate::entity::{Entity, Instance, spec_sprite_y};
use crate::fixed::FP_ONE;
use crate::horizontal_point::HorizontalPoint;
use crate::rng::rng_below;

verus! {

/// Bound on a chunk's world-X placement, in world units.
pub const MAX_WORLD_X: i32 = 999_000_000;

/// What generation may leave in a cell, by structural band: the two extreme
/// depth rows are border tiles, the two rows inside them are wall tiles, and
/// the interior is floor tiles at ground level, open space above ground in a
/// spawn chunk, and obstacle tiles above ground otherwise.
pub open spec fn spec_generated_cell(
    spawn_chunk: bool,
    depth: int,
    y: int,
    z: int,
    b: Blocks,
) -> bool {
    if z == 0 || z == depth - 1 {
        is_border_tile(b)
    } else if z == 1 || z == depth - 2 {
        is_wall_tile(b)
    } else if y == 0 {
        is_floor_tile(b)
    } else if spawn_chunk {
        b == Blocks::AIR
    } else {
        is_obstacle_tile(b)
    }
}

/// The entity a generation pass spawns on the open cell `(x, ., z)` of a
/// chunk placed at `world_x`: a hostile sprite at that cell's world position.
pub open spec fn spec_enemy_at(world_cell_x: int, cell_z: int) -> Entity {
    Entity {
        pos: HorizontalPoint {
            x: (world_cell_x * FP_ONE) as i64,
            z: (cell_z * FP_ONE) as i64,
        },
        instance: Instance {
            x: (world_cell_x * FP_ONE) as i64,
            y: spec_sprite_y() as i64,
            z: (cell_z * FP_ONE) as i64,
            tex_index: 1,
        },
    }
}

/// Holds of every entity that a generation pass may have spawned: it stands
/// on some above-ground interior cell that generation left open.
pub open spec fn spec_spawned_enemy(e: Entity, world_x: int, c: Chunk) -> bool {
    exists|x: int, y: int, z: int|
        {
            &&& 0 <= x < c.spec_width()
            &&& 1 <= y < c.spec_height()
            &&& 2 <= z <= c.spec_depth() - 3
            &&& #[trigger] c.spec_get(x, y, z) == Blocks::AIR
            &&& e == spec_enemy_at(x + world_x, z)
        }
}

/// Largest cell count a chunk may hold. Mesh indices are 16-bit and each cell
/// contributes at most eight vertices, so the grid must stay within this size.
pub const MAX_CHUNK_CELLS: u32 = 8192;

/// Largest extent of a single chunk axis.
pub const MAX_CHUNK_DIM: u32 = 1024;

/// A dense three-dimensional grid of blocks. Cell `(x, y, z)` lives at flat
/// index `z * width * height + y * width + x` (x varies fastest).
pub struct Chunk {
    width: u32,
    height: u32,
    depth: u32,
    world_height: u32,
    blocks: Vec<Blocks>,
}

/// Flat index of cell `(x, y, z)` in a grid of the given width and height.
pub open spec fn spec_block_index(w: int, h: int, x: int, y: int, z: int) -> int {
    z * (w * h) + y * w + x
}

impl Chunk {
    pub closed spec fn spec_width(&self) -> u32 {
        self.width
    }

    pub closed spec fn spec_height(&self) -> u32 {
        self.height
    }

    pub closed spec fn spec_depth(&self) -> u32 {
        self.depth
    }

    pub closed spec fn spec_world_height(&self) -> u32 {
        self.world_height
    }

    /// The grid contents as a flat sequence.
    pub closed spec fn grid(&self) -> Seq<Blocks> {
        self.blocks@
    }

    /// Structural soundness: the flat storage matches the dimensions and the
    /// dimensions stay within the supported limits.
    pub open spec fn wf(&self) -> bool {
        &&& self.grid().len() == self.spec_width() * self.spec_height() * self.spec_depth()
        &&& self.spec_width() <= MAX_CHUNK_DIM
        &&& self.spec_height() <= MAX_CHUNK_DIM
        &&& self.spec_depth() <= MAX_CHUNK_DIM
        &&& self.spec_width() * self.spec_height() * self.spec_depth() <= MAX_CHUNK_CELLS
        &&& self.spec_world_height() >= 1
    }

    pub open spec fn spec_in_bounds(&self, x: int, y: int, z: int) -> bool {
        &&& 0 <= x < self.spec_width()
        &&& 0 <= y < self.spec_height()
        &&& 0 <= z < self.spec_depth()
    }

    /// The block stored at `(x, y, z)`; any out-of-range coordinate reads as
    /// open space.
    pub open spec fn spec_get(&self, x: int, y: int, z: int) -> Blocks {
        if self.spec_in_bounds(x, y, z) {
            self.grid()[spec_block_index(
                self.spec_width() as int,
                self.spec_height() as int,
                x,
                y,
                z,
            )]
        } else {
            Blocks::AIR
        }
    }

    /// Create a grid of the given dimensions filled with `AIR`.
    pub fn new(width: u32, height: u32, depth: u32, world_height: u32) -> (c: Chunk)
        requires
            width <= MAX_CHUNK_DIM,
            height <= MAX_CHUNK_DIM,
            depth <= MAX_CHUNK_DIM,
            width * height * depth <= MAX_CHUNK_CELLS,
            world_height >= 1,
        ensures
            c.wf(),
            c.spec_width() == width,
            c.spec_height() == height,
            c.spec_depth() == depth,
            c.spec_world_height() == world_height,
            forall|x: int, y: int, z: int| c.spec_get(x, y, z) == Blocks::AIR,
    {
        proof {
            assert(width * height <= MAX_CHUNK_DIM * MAX_CHUNK_DIM) by (nonlinear_arith)
                requires width <= MAX_CHUNK_DIM && height <= MAX_CHUNK_DIM;
        }
        let cells = width * height;
        proof {
            assert(cells * depth == width * height * depth) by (nonlinear_arith)
                requires cells == width * height;
            assert(cells * depth <= MAX_CHUNK_DIM * MAX_CHUNK_DIM * MAX_CHUNK_DIM)
                by (nonlinear_arith)
                requires
                    cells <= MAX_CHUNK_DIM * MAX_CHUNK_DIM && depth <= MAX_CHUNK_DIM;
        }
        let n = cells as usize * depth as usize;
        let blocks = vec![Blocks::AIR; n];
        let c = Chunk { width, height, depth, world_height, blocks };
        proof {
            assert(forall|x: int, y: int, z: int| c.spec_get(x, y, z) == Blocks::AIR) by {
                assert forall|x: int, y: int, z: int|
                    c.spec_in_bounds(x, y, z) implies c.grid()[spec_block_index(
                    width as int,
                    height as int,
                    x,
                    y,
                    z,
                )] == Blocks::AIR by {
                    lemma_block_index_bounds(width as int, height as int, depth as int, x, y, z);
                }
            }
        }
        c
    }

    pub fn width(&self) -> (w: u32)
        ensures
            w == self.spec_width(),
    {
        self.width
    }

    pub fn height(&self) -> (h: u32)
        ensures
            h == self.spec_height(),
    {
        self.height
    }

    pub fn depth(&self) -> (d: u32)
        ensures
            d == self.spec_depth(),
    {
        self.depth
    }

    pub fn world_height(&self) -> (w: u32)
        ensures
            w == self.spec_world_height(),
    {
        self.world_height
    }

    /// Recover `(x, y, z)` from a flat index in a grid of the given width and
    /// height.
    pub fn get_block_xyz(chunk_width: u32, chunk_height: u32, i: usize) -> (r: (i32, i32, i32))
        requires
            1 <= chunk_width <= MAX_CHUNK_DIM,
            1 <= chunk_height <= MAX_CHUNK_DIM,
            i < 0x4000_0000,
        ensures
            r.0 == (i as int) % (chunk_width as int),
            r.1 == ((i as int) / (chunk_width as int)) % (chunk_height as int),
            r.2 == (i as int) / (chunk_width as int * chunk_height as int),
    {
        proof {
            assert(1 <= chunk_width * chunk_height <= MAX_CHUNK_DIM * MAX_CHUNK_DIM)
                by (nonlinear_arith)
                requires
                    1 <= chunk_width <= MAX_CHUNK_DIM && 1 <= chunk_height <= MAX_CHUNK_DIM;
        }
        let i_u32 = i as u32;
        let x = i_u32 % chunk_width;
        let y = (i_u32 / chunk_width) % chunk_height;
        let z = i_u32 / (chunk_width * chunk_height);
        proof {
            lemma_div_denominator(i as int, chunk_width as int, chunk_height as int);
        }
        (x as i32, y as i32, z as i32)
    }

    /// Flat index of `(x, y, z)` in a grid of the given width and height.
    pub fn get_block_i(chunk_width: u32, chunk_height: u32, x: i32, y: i32, z: i32) -> (i: usize)
        requires
            1 <= chunk_width <= MAX_CHUNK_DIM,
            1 <= chunk_height <= MAX_CHUNK_DIM,
            0 <= x < chunk_width,
            0 <= y < chunk_height,
            0 <= z <= MAX_CHUNK_DIM,
        ensures
            i == spec_block_index(chunk_width as int, chunk_height as int, x as int, y as int, z as int),
    {
        proof {
            assert((z as int) * (chunk_width as int) <= MAX_CHUNK_DIM * MAX_CHUNK_DIM
                && (z as int) * (chunk_width as int) * (chunk_height as int) <= MAX_CHUNK_DIM
                * MAX_CHUNK_DIM * MAX_CHUNK_DIM
                && (y as int) * (chunk_width as int) <= MAX_CHUNK_DIM * MAX_CHUNK_DIM
                && (z as int) * (chunk_width as int) * (chunk_height as int) + (y as int)
                * (chunk_width as int) + (x as int) <= MAX_CHUNK_DIM * (MAX_CHUNK_DIM
                * MAX_CHUNK_DIM) + MAX_CHUNK_DIM * MAX_CHUNK_DIM + MAX_CHUNK_DIM
                && (z as int) * (chunk_width as int) * (chunk_height as int) + (y as int)
                * (chunk_width as int) + (x as int) == spec_block_index(
                chunk_width as int,
                chunk_height as int,
                x as int,
                y as int,
                z as int,
            )) by (nonlinear_arith)
                requires
                    0 <= x < chunk_width <= MAX_CHUNK_DIM,
                    0 <= y < chunk_height <= MAX_CHUNK_DIM,
                    0 <= z <= MAX_CHUNK_DIM;
        }
        ((z as u32) * chunk_width * chunk_height + (y as u32) * chunk_width + (x as u32)) as usize
    }

    fn is_block_in_bounds(&self, x: i32, y: i32, z: i32) -> (r: bool)
        ensures
            r == self.spec_in_bounds(x as int, y as int, z as int),
    {
        x >= 0 && (x as u32) < self.width && y >= 0 && (y as u32) < self.height && z >= 0
            && (z as u32) < self.depth
    }

    /// Read a cell; out-of-range coordinates read as `AIR`.
    pub fn get_block(&self, x: i32, y: i32, z: i32) -> (b: Blocks)
        requires
            self.wf(),
        ensures
            b == self.spec_get(x as int, y as int, z as int),
    {
        if !self.is_block_in_bounds(x, y, z) {
            return Blocks::AIR;
        }
        proof {
            lemma_block_index_bounds(
                self.spec_width() as int,
                self.spec_height() as int,
                self.spec_depth() as int,
                x as int,
                y as int,
                z as int,
            );
        }
        let i = Self::get_block_i(self.width, self.height, x, y, z);
        self.blocks[i]
    }

    /// Write a cell; out-of-range coordinates leave the grid unchanged.
    pub fn set_block(&mut self, block: Blocks, x: i32, y: i32, z: i32)
        requires
            old(self).wf(),
        ensures
            final(self).wf(),
            final(self).spec_width() == old(self).spec_width(),
            final(self).spec_height() == old(self).spec_height(),
            final(self).spec_depth() == old(self).spec_depth(),
            final(self).spec_world_height() == old(self).spec_world_height(),
            old(self).spec_in_bounds(x as int, y as int, z as int) ==> final(self).grid()
                == old(self).grid().update(
                spec_block_index(
                    old(self).spec_width() as int,
                    old(self).spec_height() as int,
                    x as int,
                    y as int,
                    z as int,
                ),
                block,
            ),
            !old(self).spec_in_bounds(x as int, y as int, z as int) ==> *final(self) == *old(self),
    {
        if !self.is_block_in_bounds(x, y, z) {
            return ;
        }
        proof {
            lemma_block_index_bounds(
                self.spec_width() as int,
                self.spec_height() as int,
                self.spec_depth() as int,
                x as int,
                y as int,
                z as int,
            );
        }
        let i = Self::get_block_i(self.width, self.height, x, y, z);
        self.blocks.set(i, block);
    }

    /// Fill the grid band by band from uniform draws, clearing and refilling
    /// the companion entity and direction lists. A spawn chunk keeps its
    /// above-ground interior open and spawns nothing; otherwise each interior
    /// cell left open has a one-in-six chance of spawning a hostile entity.
    pub fn generate(
        &mut self,
        rng: &mut rand::rngs::StdRng,
        spawn_chunk: bool,
        world_x: i32,
        entities: &mut Vec<Entity>,
        entity_dirs: &mut Vec<i32>,
    )
        requires
            old(self).wf(),
            -MAX_WORLD_X <= world_x <= MAX_WORLD_X,
        ensures
            final(self).wf(),
            final(self).spec_width() == old(self).spec_width(),
            final(self).spec_height() == old(self).spec_height(),
            final(self).spec_depth() == old(self).spec_depth(),
            final(self).spec_world_height() == old(self).spec_world_height(),
            forall|x: int, y: int, z: int|
                final(self).spec_in_bounds(x, y, z) ==> spec_generated_cell(
                    spawn_chunk,
                    final(self).spec_depth() as int,
                    y,
                    z,
                    #[trigger] final(self).spec_get(x, y, z),
                ),
            final(entities)@.len() == final(entity_dirs)@.len(),
            final(entities)@.len() <= old(self).spec_width() * old(self).spec_height() * old(
                self,
            ).spec_depth(),
            spawn_chunk ==> final(entities)@.len() == 0,
            forall|k: int|
                0 <= k < final(entity_dirs)@.len() ==> #[trigger] final(entity_dirs)@[k] == 1,
            forall|k: int|
                0 <= k < final(entities)@.len() ==> spec_spawned_enemy(
                    #[trigger] final(entities)@[k],
                    world_x as int,
                    *final(self),
                ),
    {
        entities.clear();
        entity_dirs.clear();

        let w = self.width;
        let h = self.height;
        let d = self.depth;
        proof {
            assert(w * h <= MAX_CHUNK_DIM * MAX_CHUNK_DIM && w * h * d <= MAX_CHUNK_DIM
                * MAX_CHUNK_DIM * MAX_CHUNK_DIM) by (nonlinear_arith)
                requires
                    w <= MAX_CHUNK_DIM && h <= MAX_CHUNK_DIM && d <= MAX_CHUNK_DIM;
        }
        let blocks_len = w * h * d;
        let ghost pre = *self;

        for i in 0..blocks_len
            invariant
                self.wf(),
                self.spec_width() == pre.spec_width(),
                self.spec_height() == pre.spec_height(),
                self.spec_depth() == pre.spec_depth(),
                self.spec_world_height() == pre.spec_world_height(),
                w == pre.spec_width(),
                h == pre.spec_height(),
                d == pre.spec_depth(),
                blocks_len == w * h * d,
                -MAX_WORLD_X <= world_x <= MAX_WORLD_X,
                entities@.len() == entity_dirs@.len(),
                entities@.len() <= i,
                spawn_chunk ==> entities@.len() == 0,
                forall|k: int| 0 <= k < entity_dirs@.len() ==> #[trigger] entity_dirs@[k] == 1,
                forall|k: int|
                    0 <= k < entities@.len() ==> spec_enemy_before(
                        #[trigger] entities@[k],
                        world_x as int,
                        *self,
                        i as int,
                    ),
                forall|x: int, y: int, z: int|
                    (self.spec_in_bounds(x, y, z) && spec_block_index(
                        w as int,
                        h as int,
                        x,
                        y,
                        z,
                    ) < i) ==> spec_generated_cell(
                        spawn_chunk,
                        d as int,
                        y,
                        z,
                        #[trigger] self.spec_get(x, y, z),
                    ),
        {
            proof {
                assert(w >= 1 && h >= 1 && d >= 1) by (nonlinear_arith)
                    requires
                        (i as int) < (w as int) * (h as int) * (d as int) && i >= 0;
                lemma_block_xyz_roundtrip(w as int, h as int, d as int, i as int);
            }
            let (x, y, z) = Self::get_block_xyz(w, h, i as usize);

            let block = if z == 0 || z == d as i32 - 1 {
                border_tile(rng_below(rng, BORDER_TILE_COUNT))
            } else if z == 1 || z == d as i32 - 2 {
                wall_tile(rng_below(rng, WALL_TILE_COUNT))
            } else if y == 0 {
                floor_tile(rng_below(rng, FLOOR_TILE_COUNT))
            } else if spawn_chunk {
                Blocks::AIR
            } else {
                obstacle_tile(rng_below(rng, OBSTACLE_TILE_COUNT))
            };

            let ghost before_set = *self;
            self.set_block(block, x, y, z);
            proof {
                lemma_set_get(before_set, *self, block, x as int, y as int, z as int);
                assert forall|k: int|
                    0 <= k < entities@.len() implies spec_enemy_before(
                    #[trigger] entities@[k],
                    world_x as int,
                    *self,
                    i as int + 1,
                ) by {
                    lemma_enemy_step(
                        entities@[k],
                        world_x as int,
                        before_set,
                        *self,
                        i as int,
                        x as int,
                        y as int,
                        z as int,
                    );
                }
                assert forall|x2: int, y2: int, z2: int|
                    (self.spec_in_bounds(x2, y2, z2) && spec_block_index(
                        w as int,
                        h as int,
                        x2,
                        y2,
                        z2,
                    ) < i as int + 1) implies spec_generated_cell(
                    spawn_chunk,
                    d as int,
                    y2,
                    z2,
                    self.spec_get(x2, y2, z2),
                ) by {
                    if spec_block_index(w as int, h as int, x2, y2, z2) == i as int {
                        lemma_block_index_injective(
                            w as int,
                            h as int,
                            x2,
                            y2,
                            z2,
                            x as int,
                            y as int,
                            z as int,
                        );
                        assert(self.spec_get(x2, y2, z2) == block);
                    } else {
                        assert(self.spec_get(x2, y2, z2) == before_set.spec_get(x2, y2, z2));
                    }
                }
            }

            if !spawn_chunk && block == Blocks::AIR && rng_below(rng, 6) == 0 {
                let enemy = Entity::new(
                    ((x as i64) + (world_x as i64)) * FP_ONE,
                    (z as i64) * FP_ONE,
                    1,
                );
                entities.push(enemy);
                entity_dirs.push(1);
                proof {
                    assert(entities@.last() == spec_enemy_at(
                        x as int + world_x as int,
                        z as int,
                    ));
                    assert(self.spec_get(x as int, y as int, z as int) == Blocks::AIR);
                    assert(spec_enemy_before(
                        entities@.last(),
                        world_x as int,
                        *self,
                        i as int + 1,
                    ));
                }
            }
        }
        proof {
            assert forall|k: int|
                0 <= k < entities@.len() implies spec_spawned_enemy(
                #[trigger] entities@[k],
                world_x as int,
                *self,
            ) by {
                lemma_enemy_unbound(entities@[k], world_x as int, *self, blocks_len as int);
            }
            assert forall|x: int, y: int, z: int|
                self.spec_in_bounds(x, y, z) implies spec_generated_cell(
                spawn_chunk,
                d as int,
                y,
                z,
                #[trigger] self.spec_get(x, y, z),
            ) by {
                lemma_block_index_bounds(w as int, h as int, d as int, x, y, z);
            }
        }
    }
}

/// Loop-local form of `spec_spawned_enemy`: the witness cell's flat index is
/// below the generation cursor, so later writes cannot disturb it.
pub open spec fn spec_enemy_before(e: Entity, world_x: int, c: Chunk, bound: int) -> bool {
    exists|x: int, y: int, z: int|
        {
            &&& 0 <= x < c.spec_width()
            &&& 1 <= y < c.spec_height()
            &&& 2 <= z <= c.spec_depth() - 3
            &&& spec_block_index(c.spec_width() as int, c.spec_height() as int, x, y, z) < bound
            &&& #[trigger] c.spec_get(x, y, z) == Blocks::AIR
            &&& e == spec_enemy_at(x + world_x, z)
        }
}

/// A witnessed spawned entity stays witnessed after the cursor cell is
/// written: every witness index lies strictly below the cursor's.
proof fn lemma_enemy_step(
    e: Entity,
    world_x: int,
    pre: Chunk,
    post: Chunk,
    i: int,
    wx: int,
    wy: int,
    wz: int,
)
    requires
        pre.wf(),
        spec_enemy_before(e, world_x, pre, i),
        post.spec_width() == pre.spec_width(),
        post.spec_height() == pre.spec_height(),
        post.spec_depth() == pre.spec_depth(),
        pre.spec_in_bounds(wx, wy, wz),
        spec_block_index(pre.spec_width() as int, pre.spec_height() as int, wx, wy, wz) == i,
        forall|x2: int, y2: int, z2: int|
            (x2, y2, z2) != (wx, wy, wz) ==> post.spec_get(x2, y2, z2) == pre.spec_get(x2, y2, z2),
    ensures
        spec_enemy_before(e, world_x, post, i + 1),
{
    let (x, y, z): (int, int, int) = choose|x: int, y: int, z: int|
        {
            &&& 0 <= x < pre.spec_width()
            &&& 1 <= y < pre.spec_height()
            &&& 2 <= z <= pre.spec_depth() - 3
            &&& spec_block_index(pre.spec_width() as int, pre.spec_height() as int, x, y, z) < i
            &&& #[trigger] pre.spec_get(x, y, z) == Blocks::AIR
            &&& e == spec_enemy_at(x + world_x, z)
        };
    assert((x, y, z) != (wx, wy, wz));
    assert(post.spec_get(x, y, z) == Blocks::AIR);
    assert(spec_enemy_before(e, world_x, post, i + 1));
}

/// At the end of generation the bounded witness becomes the public one.
proof fn lemma_enemy_unbound(e: Entity, world_x: int, c: Chunk, bound: int)
    requires
        spec_enemy_before(e, world_x, c, bound),
    ensures
        spec_spawned_enemy(e, world_x, c),
{
    let (x, y, z): (int, int, int) = choose|x: int, y: int, z: int|
        {
            &&& 0 <= x < c.spec_width()
            &&& 1 <= y < c.spec_height()
            &&& 2 <= z <= c.spec_depth() - 3
            &&& spec_block_index(c.spec_width() as int, c.spec_height() as int, x, y, z) < bound
            &&& #[trigger] c.spec_get(x, y, z) == Blocks::AIR
            &&& e == spec_enemy_at(x + world_x, z)
        };
    assert(c.spec_get(x, y, z) == Blocks::AIR);
    assert(spec_spawned_enemy(e, world_x, c));
}

/// An in-range cell's flat index lies within the grid storage.
pub proof fn lemma_block_index_bounds(w: int, h: int, d: int, x: int, y: int, z: int)
    requires
        0 <= x < w,
        0 <= y < h,
        0 <= z < d,
    ensures
        0 <= spec_block_index(w, h, x, y, z) < w * h * d,
{
    assert(0 <= z * (w * h) + y * w + x < w * h * d) by (nonlinear_arith)
        requires
            0 <= x < w && 0 <= y < h && 0 <= z < d;
}

/// Distinct in-range cells have distinct flat indices.
pub proof fn lemma_block_index_injective(
    w: int,
    h: int,
    x1: int,
    y1: int,
    z1: int,
    x2: int,
    y2: int,
    z2: int,
)
    requires
        0 <= x1 < w,
        0 <= y1 < h,
        0 <= x2 < w,
        0 <= y2 < h,
        0 <= z1,
        0 <= z2,
        spec_block_index(w, h, x1, y1, z1) == spec_block_index(w, h, x2, y2, z2),
    ensures
        x1 == x2 && y1 == y2 && z1 == z2,
{
    let i = spec_block_index(w, h, x1, y1, z1);
    lemma_block_index_decompose(w, h, x1, y1, z1);
    lemma_block_index_decompose(w, h, x2, y2, z2);
}

/// A flat index determines its cell coordinates by division and remainder.
pub proof fn lemma_block_index_decompose(w: int, h: int, x: int, y: int, z: int)
    requires
        0 <= x < w,
        0 <= y < h,
        0 <= z,
    ensures
        spec_block_index(w, h, x, y, z) % w == x,
        (spec_block_index(w, h, x, y, z) / w) % h == y,
        spec_block_index(w, h, x, y, z) / (w * h) == z,
{
    let i = spec_block_index(w, h, x, y, z);
    assert(i == (z * h + y) * w + x) by (nonlinear_arith)
        requires
            i == z * (w * h) + y * w + x;
    lemma_fundamental_div_mod_converse(i, w, z * h + y, x);
    lemma_fundamental_div_mod_converse(z * h + y, h, z, y);
    lemma_div_denominator(i, w, h);
}

/// Round trip: a flat index below the cell count names an in-range cell.
pub proof fn lemma_block_xyz_roundtrip(w: int, h: int, d: int, i: int)
    requires
        1 <= w,
        1 <= h,
        1 <= d,
        0 <= i < w * h * d,
    ensures
        0 <= i % w < w,
        0 <= (i / w) % h < h,
        0 <= i / (w * h) < d,
        spec_block_index(w, h, i % w, (i / w) % h, i / (w * h)) == i,
{
    lemma_fundamental_div_mod(i, w);
    lemma_mod_division_less_than_divisor(i, w);
    lemma_fundamental_div_mod(i / w, h);
    lemma_mod_division_less_than_divisor(i / w, h);
    lemma_div_denominator(i, w, h);
    assert(0 <= i / w) by {
        vstd::arithmetic::div_mod::lemma_div_pos_is_pos(i, w);
    }
    assert(0 <= (i / w) / h) by {
        vstd::arithmetic::div_mod::lemma_div_pos_is_pos(i / w, h);
    }
    assert(w * h >= 1) by (nonlinear_arith)
        requires
            w >= 1 && h >= 1;
    assert(i / (w * h) < d) by {
        lemma_multiply_divide_lt(i, w * h, d);
    }
    let q = i / w;
    let x = i % w;
    let y = q % h;
    let z = q / h;
    assert(i == w * q + x);
    assert(q == h * z + y);
    assert(spec_block_index(w, h, x, y, z) == i) by (nonlinear_arith)
        requires
            i == w * q + x && q == h * z + y && spec_block_index(w, h, x, y, z) == z * (w * h) + y
                * w + x;
}

/// Writing a cell and reading it back yields the written block, and no other
/// cell changes; out-of-range writes change nothing and out-of-range reads
/// yield `AIR`.
pub proof fn lemma_set_get(pre: Chunk, post: Chunk, b: Blocks, x: int, y: int, z: int)
    requires
        pre.wf(),
        post.spec_width() == pre.spec_width(),
        post.spec_height() == pre.spec_height(),
        post.spec_depth() == pre.spec_depth(),
        pre.spec_in_bounds(x, y, z) ==> post.grid() == pre.grid().update(
            spec_block_index(pre.spec_width() as int, pre.spec_height() as int, x, y, z),
            b,
        ),
        !pre.spec_in_bounds(x, y, z) ==> post == pre,
    ensures
        pre.spec_in_bounds(x, y, z) ==> post.spec_get(x, y, z) == b,
        !pre.spec_in_bounds(x, y, z) ==> post.grid() == pre.grid(),
        forall|x2: int, y2: int, z2: int|
            (x2, y2, z2) != (x, y, z) ==> post.spec_get(x2, y2, z2) == pre.spec_get(x2, y2, z2),
{
    let w = pre.spec_width() as int;
    let h = pre.spec_height() as int;
    let d = pre.spec_depth() as int;
    if pre.spec_in_bounds(x, y, z) {
        lemma_block_index_bounds(w, h, d, x, y, z);
        assert forall|x2: int, y2: int, z2: int|
            (x2, y2, z2) != (x, y, z) implies post.spec_get(x2, y2, z2) == pre.spec_get(
            x2,
            y2,
            z2,
        ) by {
            if pre.spec_in_bounds(x2, y2, z2) {
                lemma_block_index_bounds(w, h, d, x2, y2, z2);
                if spec_block_index(w, h, x2, y2, z2) == spec_block_index(w, h, x, y, z) {
                    lemma_block_index_injective(w, h, x2, y2, z2, x, y, z);
                }
            }
        }
    }
}

} // verus!
