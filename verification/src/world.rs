use vstd::prelude::*;
use crate::blocks::Blocks;
use crate::chunk::{spec_block_index, spec_generated_cell, spec_spawned_enemy, Chunk};
use crate::entity::{
    spec_block_collision, spec_entity_collision, spec_moved_x, spec_moved_z, spec_views, Entity,
    Instance,
};
use crate::fixed::{
    spec_floor_units, spec_round_to_pixel, FP_ONE, PADDED_SPRITE_WIDTH_FP, SPRITE_HALF_WIDTH_FP,
};
use crate::horizontal_point::HorizontalPoint;
use crate::render_order::MAX_RENDER_ENTITIES;

verus! {

/// Chunk extent along x, in world units.
pub const CHUNK_WIDTH: u32 = 8;

/// Chunk extent along y, in world units.
pub const CHUNK_HEIGHT: u32 = 2;

/// Chunk extent along z, in world units.
pub const CHUNK_DEPTH: u32 = 11;

/// World height used for mesh tinting.
pub const WORLD_HEIGHT: u32 = 2;

/// Player speed per simulation tick, in fixed-point ticks (a sixteenth of a
/// unit).
pub const PLAYER_SPEED_FP: i64 = 625;

/// Hostile entity speed per simulation tick, in fixed-point ticks.
pub const ENEMY_SPEED_FP: i64 = 1000;

/// Projectile speed per simulation tick, in fixed-point ticks.
pub const PROJECTILE_SPEED_FP: i64 = 2000;

/// Scroll distance that triggers recycling the chunk behind the player.
pub const PAN_FULL_FP: i64 = 80000;

/// Player spawn position.
pub const PLAYER_START_X_FP: i64 = 35000;

/// Player spawn position.
pub const PLAYER_START_Z_FP: i64 = 45000;

/// Bound on entity coordinates the world maintains, in fixed-point ticks.
pub const WORLD_COORD_LIMIT: i64 = 1_000_000_000_000;

/// Bound on chunk placements, in world units.
pub const WORLD_OFFSET_LIMIT: i64 = 90_000_000;

/// Bound on the accumulated pan distance, in fixed-point ticks.
pub const PAN_LIMIT_FP: i64 = 1_000_000_000;

/// The player's and camera's inputs for one simulation tick, already reduced
/// to plain flags.
#[derive(Copy, Clone, PartialEq, Eq, Structural, Debug)]
pub struct InputState {
    pub left_held: bool,
    pub right_held: bool,
    pub up_held: bool,
    pub down_held: bool,
    pub fire_pressed: bool,
}

/// The simulation's whole state: the two-chunk scrolling window with its
/// placements, the per-chunk hostile entities with their movement directions,
/// the free entities (player first, then projectiles), and the camera anchor
/// and scroll accumulator.
pub struct WorldState {
    pub fixed_update_count: u32,
    pub chunks: Vec<Chunk>,
    pub chunk_offsets: Vec<i64>,
    pub chunk_entities: Vec<Vec<Entity>>,
    pub chunk_entity_dirs: Vec<Vec<i32>>,
    pub entities: Vec<Entity>,
    pub pan_distance: i64,
    pub cam_anchor_x: i64,
}

/// All coordinates of one entity stay within the world's coordinate bound.
pub open spec fn spec_entity_in_world(e: Entity) -> bool {
    &&& -WORLD_COORD_LIMIT <= e.pos.x <= WORLD_COORD_LIMIT
    &&& -WORLD_COORD_LIMIT <= e.pos.z <= WORLD_COORD_LIMIT
    &&& -WORLD_COORD_LIMIT <= e.instance.x <= WORLD_COORD_LIMIT
    &&& -WORLD_COORD_LIMIT <= e.instance.z <= WORLD_COORD_LIMIT
}

impl WorldState {
    /// Structural soundness of the world: two well-formed chunks of the
    /// game's dimensions at sane placements, aligned entity and direction
    /// lists, a live player, and all coordinates in range.
    pub open spec fn wf(&self) -> bool {
        &&& self.chunks@.len() == 2
        &&& self.chunk_offsets@.len() == 2
        &&& self.chunk_entities@.len() == 2
        &&& self.chunk_entity_dirs@.len() == 2
        &&& forall|c: int|
            0 <= c < 2 ==> {
                &&& (#[trigger] self.chunks@[c]).wf()
                &&& self.chunks@[c].spec_width() == CHUNK_WIDTH
                &&& self.chunks@[c].spec_height() == CHUNK_HEIGHT
                &&& self.chunks@[c].spec_depth() == CHUNK_DEPTH
                &&& self.chunks@[c].spec_world_height() == WORLD_HEIGHT
            }
        &&& forall|c: int|
            0 <= c < 2 ==> {
                &&& 0 <= #[trigger] self.chunk_offsets@[c] <= WORLD_OFFSET_LIMIT
                &&& self.chunk_offsets@[c] % 8 == 0
                &&& (self.chunk_offsets@[c] / 8) % 2 == c
            }
        &&& forall|c: int|
            0 <= c < 2 ==> (#[trigger] self.chunk_entities@[c])@.len()
                == self.chunk_entity_dirs@[c]@.len()
        &&& forall|c: int, k: int|
            0 <= c < 2 && 0 <= k < self.chunk_entity_dirs@[c]@.len() ==> ((
            #[trigger] self.chunk_entity_dirs@[c]@[k]) == 1 || self.chunk_entity_dirs@[c]@[k]
                == -1)
        &&& forall|c: int, k: int|
            0 <= c < 2 && 0 <= k < self.chunk_entities@[c]@.len() ==> {
                &&& spec_entity_in_world(#[trigger] self.chunk_entities@[c]@[k])
                &&& self.chunk_entities@[c]@[k].pos.x >= 0
            }
        &&& self.entities@.len() >= 1
        &&& forall|k: int|
            0 <= k < self.entities@.len() ==> spec_entity_in_world(#[trigger] self.entities@[k])
        &&& self.entities@.len() + self.chunk_entities@[0]@.len() + self.chunk_entities@[1]@.len()
            <= MAX_RENDER_ENTITIES
        &&& -PAN_LIMIT_FP <= self.pan_distance <= PAN_LIMIT_FP
        &&& 0 <= self.cam_anchor_x <= WORLD_COORD_LIMIT
    }

    /// What one simulation tick additionally needs of the entry state: head
    /// room under every bound, the player far enough from the world's left
    /// edge, its footprint clear of solid cells, and every projectile where
    /// last tick's clamping could have left it.
    pub open spec fn tick_ready(&self) -> bool {
        &&& self.wf()
        &&& self.entities@[0].pos.x >= PLAYER_SPEED_FP
        &&& spec_block_collision(
            self.chunks@,
            self.entities@[0].pos.x as int,
            self.entities@[0].pos.z as int,
        ) is None
        &&& forall|k: int| 1 <= k < self.entities@.len() ==> (#[trigger] self.entities@[k]).pos.x
            >= -100
        &&& forall|k: int|
            0 <= k < self.entities@.len() ==> {
                &&& -WORLD_COORD_LIMIT + 100_000 <= (#[trigger] self.entities@[k]).pos.x
                    <= WORLD_COORD_LIMIT - 100_000
                &&& -WORLD_COORD_LIMIT + 100_000 <= self.entities@[k].pos.z <= WORLD_COORD_LIMIT
                    - 100_000
            }
        &&& forall|c: int, k: int|
            0 <= c < 2 && 0 <= k < self.chunk_entities@[c]@.len() ==> {
                &&& -WORLD_COORD_LIMIT + 100_000 <= (
                #[trigger] self.chunk_entities@[c]@[k]).pos.z <= WORLD_COORD_LIMIT - 100_000
                &&& self.chunk_entities@[c]@[k].pos.x <= WORLD_COORD_LIMIT - 100_000
            }
        &&& forall|c: int| 0 <= c < 2 ==> #[trigger] self.chunk_offsets@[c] <= WORLD_OFFSET_LIMIT
            - 16
        &&& -PAN_LIMIT_FP + PLAYER_SPEED_FP <= self.pan_distance <= PAN_LIMIT_FP - PLAYER_SPEED_FP
        &&& self.cam_anchor_x <= WORLD_COORD_LIMIT - 100_000
        &&& self.entities@.len() + self.chunk_entities@[0]@.len() + self.chunk_entities@[1]@.len()
            <= MAX_RENDER_ENTITIES - 600
    }

    /// Create the starting world: a spawn chunk at the origin with a fresh
    /// chunk beside it, and the player standing clear in the spawn chunk.
    pub fn new(rng: &mut rand::rngs::StdRng) -> (w: WorldState)
        ensures
            w.wf(),
            w.fixed_update_count == 0,
            w.pan_distance == 0,
            w.cam_anchor_x == 0,
            w.chunk_offsets@[0] == 0,
            w.chunk_offsets@[1] == 8,
            w.entities@.len() == 1,
            w.entities@[0].pos.x == PLAYER_START_X_FP,
            w.entities@[0].pos.z == PLAYER_START_Z_FP,
            w.entities@[0] == (Entity {
                pos: HorizontalPoint { x: PLAYER_START_X_FP, z: PLAYER_START_Z_FP },
                instance: Instance {
                    x: PLAYER_START_X_FP,
                    y: crate::entity::spec_sprite_y() as i64,
                    z: PLAYER_START_Z_FP,
                    tex_index: 0,
                },
            }),
            w.chunk_entities@[0]@.len() == 0,
            forall|x: int, y: int, z: int|
                w.chunks@[0].spec_in_bounds(x, y, z) ==> spec_generated_cell(
                    true,
                    CHUNK_DEPTH as int,
                    y,
                    z,
                    #[trigger] w.chunks@[0].spec_get(x, y, z),
                ),
            forall|x: int, y: int, z: int|
                w.chunks@[1].spec_in_bounds(x, y, z) ==> spec_generated_cell(
                    false,
                    CHUNK_DEPTH as int,
                    y,
                    z,
                    #[trigger] w.chunks@[1].spec_get(x, y, z),
                ),
            forall|k: int|
                0 <= k < w.chunk_entities@[1]@.len() ==> spec_spawned_enemy(
                    #[trigger] w.chunk_entities@[1]@[k],
                    8,
                    w.chunks@[1],
                ),
            w.tick_ready(),
    {
        let mut chunk0 = Chunk::new(CHUNK_WIDTH, CHUNK_HEIGHT, CHUNK_DEPTH, WORLD_HEIGHT);
        let mut chunk1 = Chunk::new(CHUNK_WIDTH, CHUNK_HEIGHT, CHUNK_DEPTH, WORLD_HEIGHT);
        let mut entities0: Vec<Entity> = Vec::new();
        let mut dirs0: Vec<i32> = Vec::new();
        let mut entities1: Vec<Entity> = Vec::new();
        let mut dirs1: Vec<i32> = Vec::new();

        chunk0.generate(rng, true, 0, &mut entities0, &mut dirs0);
        chunk1.generate(rng, false, 8, &mut entities1, &mut dirs1);

        let mut chunks: Vec<Chunk> = Vec::new();
        chunks.push(chunk0);
        chunks.push(chunk1);
        let mut chunk_offsets: Vec<i64> = Vec::new();
        chunk_offsets.push(0);
        chunk_offsets.push(8);
        let mut chunk_entities: Vec<Vec<Entity>> = Vec::new();
        chunk_entities.push(entities0);
        chunk_entities.push(entities1);
        let mut chunk_entity_dirs: Vec<Vec<i32>> = Vec::new();
        chunk_entity_dirs.push(dirs0);
        chunk_entity_dirs.push(dirs1);
        let mut entities: Vec<Entity> = Vec::new();
        entities.push(Entity::new(PLAYER_START_X_FP, PLAYER_START_Z_FP, 0));

        let w = WorldState {
            fixed_update_count: 0,
            chunks,
            chunk_offsets,
            chunk_entities,
            chunk_entity_dirs,
            entities,
            pan_distance: 0,
            cam_anchor_x: 0,
        };
        proof {
            lemma_world_enemy_bounds(w.chunks@[1], w.chunk_entities@[1]@, 8);
            lemma_start_footprint_clear(w.chunks@);
        }
        w
    }
}

/// What regenerating a chunk may leave behind: the grid keeps the prototype's
/// dimensions and is band-conforming, and the companion lists hold aligned,
/// well-characterized spawns (none at all for a spawn chunk).
pub open spec fn spec_generation_outcome(
    c: Chunk,
    es: Seq<Entity>,
    ds: Seq<i32>,
    spawn_chunk: bool,
    world_x: int,
    proto: Chunk,
) -> bool {
    &&& c.wf()
    &&& c.spec_width() == proto.spec_width()
    &&& c.spec_height() == proto.spec_height()
    &&& c.spec_depth() == proto.spec_depth()
    &&& c.spec_world_height() == proto.spec_world_height()
    &&& forall|x: int, y: int, z: int|
        c.spec_in_bounds(x, y, z) ==> spec_generated_cell(
            spawn_chunk,
            c.spec_depth() as int,
            y,
            z,
            #[trigger] c.spec_get(x, y, z),
        )
    &&& es.len() == ds.len()
    &&& es.len() <= c.spec_width() * c.spec_height() * c.spec_depth()
    &&& spawn_chunk ==> es.len() == 0
    &&& forall|k: int| 0 <= k < ds.len() ==> #[trigger] ds[k] == 1
    &&& forall|k: int| 0 <= k < es.len() ==> spec_spawned_enemy(#[trigger] es[k], world_x, c)
}

/// The player entity after a death reset: back at the spawn point, its render
/// instance untouched until the next move.
pub open spec fn spec_reset_player(p: Entity) -> Entity {
    Entity {
        pos: HorizontalPoint { x: PLAYER_START_X_FP, z: PLAYER_START_Z_FP },
        instance: p.instance,
    }
}

/// Which window slot the recycle step moves ahead: the slot one column-group
/// past the player's, by the ring's column parity.
pub open spec fn spec_recycle_target(px: int) -> int {
    (px / (FP_ONE as int) / 8 + 1) % 2
}

/// Whether the player stands in the leading half of an adjacent window whose
/// placements are `o0` and `o1`.
pub open spec fn spec_player_in_leading_half(o0: int, o1: int, px: int) -> bool {
    let lo = if o0 <= o1 {
        o0
    } else {
        o1
    };
    lo + 8 <= px / (FP_ONE as int) < lo + 16
}

/// The scroll phase: while the player is at or behind the camera anchor
/// nothing changes; ahead of it, the anchor follows the player and the
/// requested x amount accrues on the pan account; a full chunk width of
/// accrual recycles the slot `spec_recycle_target` names: its placement jumps
/// two chunk widths ahead and its grid and entity lists are regenerated
/// there.
pub open spec fn spec_scroll_phase(
    pre: WorldState,
    amt_x: int,
    post: WorldState,
    dirty: bool,
) -> bool {
    let px = pre.entities@[0].pos.x as int;
    &&& post.entities@ == pre.entities@
    &&& post.fixed_update_count == pre.fixed_update_count
    &&& if px <= pre.cam_anchor_x {
        &&& post.chunks@ == pre.chunks@
        &&& post.chunk_offsets@ == pre.chunk_offsets@
        &&& post.chunk_entities@ == pre.chunk_entities@
        &&& post.chunk_entity_dirs@ == pre.chunk_entity_dirs@
        &&& post.pan_distance == pre.pan_distance
        &&& post.cam_anchor_x == pre.cam_anchor_x
        &&& !dirty
    } else {
        &&& post.cam_anchor_x == px
        &&& if pre.pan_distance + amt_x < PAN_FULL_FP {
            &&& post.pan_distance == pre.pan_distance + amt_x
            &&& post.chunks@ == pre.chunks@
            &&& post.chunk_offsets@ == pre.chunk_offsets@
            &&& post.chunk_entities@ == pre.chunk_entities@
            &&& post.chunk_entity_dirs@ == pre.chunk_entity_dirs@
            &&& !dirty
        } else {
            let last = spec_recycle_target(px);
            &&& dirty
            &&& post.pan_distance == 0
            &&& post.chunk_offsets@ == pre.chunk_offsets@.update(
                last,
                (pre.chunk_offsets@[last] + 16) as i64,
            )
            &&& post.chunks@ == pre.chunks@.update(last, post.chunks@[last])
            &&& post.chunk_entities@ == pre.chunk_entities@.update(
                last,
                post.chunk_entities@[last],
            )
            &&& post.chunk_entity_dirs@ == pre.chunk_entity_dirs@.update(
                last,
                post.chunk_entity_dirs@[last],
            )
            &&& spec_generation_outcome(
                post.chunks@[last],
                post.chunk_entities@[last]@,
                post.chunk_entity_dirs@[last]@,
                false,
                pre.chunk_offsets@[last] + 16,
                pre.chunks@[last],
            )
        }
    }
}

/// The per-chunk direction lists as raw sequences.
pub open spec fn spec_dirs_views(ds: Seq<Vec<i32>>) -> Seq<Seq<i32>> {
    ds.map_values(|v: Vec<i32>| v@)
}

/// A projectile after its forward step: its x is the resolved move, the
/// render instance following with its x rounded to the pixel grid.
pub open spec fn spec_projectile_after_move(chunks: Seq<Chunk>, e: Entity) -> Entity {
    let m = spec_moved_x(chunks, e.pos.x as int, e.pos.z as int, PROJECTILE_SPEED_FP as int);
    Entity {
        pos: HorizontalPoint { x: m as i64, z: e.pos.z },
        instance: Instance {
            x: spec_round_to_pixel(m) as i64,
            y: e.instance.y,
            z: e.instance.z,
            tex_index: e.instance.tex_index,
        },
    }
}

/// The projectile phase, scanning entities from index `i - 1` down to one,
/// with `states` the successive chunk configurations: `states[0]` is the
/// configuration the scan starts from and each destroying impact steps to
/// the next one. A projectile resting on a hostile entity takes that entity
/// and its direction entry with it and ends the scan; otherwise it steps
/// forward: if the step moved it nowhere it knocks out the first solid cell
/// among its forward probes and vanishes, and if it outran the player by a
/// chunk width it vanishes. `chunks2` is the configuration the phase ends
/// on, so a scan over a single-element trace destroyed nothing.
pub open spec fn spec_projectiles_rel(
    es: Seq<Entity>,
    ce: Seq<Seq<Entity>>,
    ds: Seq<Seq<i32>>,
    states: Seq<Seq<Chunk>>,
    es2: Seq<Entity>,
    ce2: Seq<Seq<Entity>>,
    ds2: Seq<Seq<i32>>,
    chunks2: Seq<Chunk>,
    i: int,
) -> bool
    decreases i,
{
    if i <= 1 {
        &&& es2 == es
        &&& ce2 == ce
        &&& ds2 == ds
        &&& states == seq![chunks2]
    } else {
        let chunks = states[0];
        let j = i - 1;
        match spec_entity_collision(ce, es[j].pos.x as int, es[j].pos.z as int) {
            Option::Some(hit) => {
                &&& es2 == es.remove(j)
                &&& ce2 == ce.update(hit.0, ce[hit.0].remove(hit.1))
                &&& ds2 == ds.update(hit.0, ds[hit.0].remove(hit.1))
                &&& states == seq![chunks2]
            },
            Option::None => {
                let moved_e = spec_projectile_after_move(chunks, es[j]);
                let es_m = es.update(j, moved_e);
                if moved_e.pos.x == es[j].pos.x {
                    if spec_probe_hit_from(chunks, moved_e.pos.x as int, moved_e.pos.z as int, 0)
                        is Some {
                        &&& states.len() >= 2
                        &&& spec_destruction(
                            chunks,
                            states[1],
                            moved_e.pos.x as int,
                            moved_e.pos.z as int,
                            true,
                        )
                        &&& spec_projectiles_rel(
                            es_m.remove(j),
                            ce,
                            ds,
                            states.drop_first(),
                            es2,
                            ce2,
                            ds2,
                            chunks2,
                            j,
                        )
                    } else {
                        spec_projectiles_rel(
                            es_m.remove(j),
                            ce,
                            ds,
                            states,
                            es2,
                            ce2,
                            ds2,
                            chunks2,
                            j,
                        )
                    }
                } else if moved_e.pos.x - 80000 > es[0].pos.x {
                    spec_projectiles_rel(es_m.remove(j), ce, ds, states, es2, ce2, ds2, chunks2, j)
                } else {
                    spec_projectiles_rel(es_m, ce, ds, states, es2, ce2, ds2, chunks2, j)
                }
            },
        }
    }
}

/// A hostile entity after its depth step: its z is the resolved move, its x
/// and sprite unchanged, the render instance following the new depth.
pub open spec fn spec_enemy_after_move(chunks: Seq<Chunk>, e: Entity, dir: int) -> Entity {
    let m = spec_moved_z(chunks, e.pos.x as int, e.pos.z as int, dir * (ENEMY_SPEED_FP as int));
    Entity {
        pos: HorizontalPoint { x: e.pos.x, z: m as i64 },
        instance: Instance {
            x: e.instance.x,
            y: e.instance.y,
            z: m as i64,
            tex_index: e.instance.tex_index,
        },
    }
}

/// A hostile entity's direction after its depth step: turned around exactly
/// when the step moved it nowhere.
pub open spec fn spec_enemy_dir_after_move(chunks: Seq<Chunk>, e: Entity, dir: int) -> i32 {
    if spec_moved_z(chunks, e.pos.x as int, e.pos.z as int, dir * (ENEMY_SPEED_FP as int))
        == e.pos.z {
        (-dir) as i32
    } else {
        dir as i32
    }
}

/// The enemy phase: every chunk-owned entity takes one depth step against
/// the grid, exactly the blocked ones turn around, and nothing else changes.
pub open spec fn spec_enemy_phase(pre: WorldState, post: WorldState) -> bool {
    &&& post.chunk_entities@.len() == 2
    &&& post.chunk_entity_dirs@.len() == 2
    &&& forall|c: int|
        0 <= c < 2 ==> {
            &&& (#[trigger] post.chunk_entities@[c])@.len() == pre.chunk_entities@[c]@.len()
            &&& post.chunk_entity_dirs@[c]@.len() == pre.chunk_entity_dirs@[c]@.len()
        }
    &&& forall|c: int, k: int|
        0 <= c < 2 && 0 <= k < pre.chunk_entities@[c]@.len() ==> {
            &&& (#[trigger] post.chunk_entities@[c]@[k]) == spec_enemy_after_move(
                pre.chunks@,
                pre.chunk_entities@[c]@[k],
                pre.chunk_entity_dirs@[c]@[k] as int,
            )
            &&& post.chunk_entity_dirs@[c]@[k] == spec_enemy_dir_after_move(
                pre.chunks@,
                pre.chunk_entities@[c]@[k],
                pre.chunk_entity_dirs@[c]@[k] as int,
            )
        }
    &&& post.entities@ == pre.entities@
    &&& post.chunks@ == pre.chunks@
    &&& post.chunk_offsets@ == pre.chunk_offsets@
    &&& post.pan_distance == pre.pan_distance
    &&& post.cam_anchor_x == pre.cam_anchor_x
    &&& post.fixed_update_count == pre.fixed_update_count
}

/// The end-of-tick death check: if the player's footprint rests on no
/// hostile entity the world is untouched; otherwise the window snaps back to
/// the origin, both chunks are regenerated (the spawn chunk first, so its
/// entity list is empty), the player returns to its spawn point, and the
/// scroll bookkeeping is cleared.
pub open spec fn spec_death_phase(pre: WorldState, post: WorldState, dirty: bool) -> bool {
    match spec_entity_collision(
        spec_views(pre.chunk_entities@),
        pre.entities@[0].pos.x as int,
        pre.entities@[0].pos.z as int,
    ) {
        Option::None => post == pre && !dirty,
        Option::Some(h) => {
            &&& dirty
            &&& post.chunk_offsets@ == seq![0i64, 8i64]
            &&& post.chunks@.len() == 2
            &&& post.chunk_entities@.len() == 2
            &&& post.chunk_entity_dirs@.len() == 2
            &&& spec_generation_outcome(
                post.chunks@[0],
                post.chunk_entities@[0]@,
                post.chunk_entity_dirs@[0]@,
                true,
                0,
                pre.chunks@[0],
            )
            &&& spec_generation_outcome(
                post.chunks@[1],
                post.chunk_entities@[1]@,
                post.chunk_entity_dirs@[1]@,
                false,
                8,
                pre.chunks@[1],
            )
            &&& post.entities@ == pre.entities@.update(0, spec_reset_player(pre.entities@[0]))
            &&& post.pan_distance == 0
            &&& post.cam_anchor_x == PLAYER_START_X_FP
            &&& post.fixed_update_count == pre.fixed_update_count
        },
    }
}

/// The x direction the held keys ask for; right wins over left.
pub open spec fn spec_dir_x(input: InputState) -> int {
    if input.right_held {
        1
    } else if input.left_held {
        -1
    } else {
        0
    }
}

/// The z direction the held keys ask for; up wins over down.
pub open spec fn spec_dir_z(input: InputState) -> int {
    if input.up_held {
        -1
    } else if input.down_held {
        1
    } else {
        0
    }
}

/// The player entity after the movement phase: the x move is attempted only
/// when it would keep the player right of the camera's left bound, then the
/// z move; the render instance follows, its x rounded to the pixel grid by
/// the x move only.
pub open spec fn spec_player_after_move(s: WorldState, input: InputState) -> Entity {
    let p = s.entities@[0];
    let amt_x = spec_dir_x(input) * (PLAYER_SPEED_FP as int);
    let amt_z = spec_dir_z(input) * (PLAYER_SPEED_FP as int);
    let guard = p.pos.x + amt_x > s.cam_anchor_x - 35000;
    let px1 = if guard {
        spec_moved_x(s.chunks@, p.pos.x as int, p.pos.z as int, amt_x)
    } else {
        p.pos.x as int
    };
    let pz1 = spec_moved_z(s.chunks@, px1, p.pos.z as int, amt_z);
    Entity {
        pos: HorizontalPoint { x: px1 as i64, z: pz1 as i64 },
        instance: Instance {
            x: if guard {
                spec_round_to_pixel(px1) as i64
            } else {
                p.instance.x
            },
            y: p.instance.y,
            z: pz1 as i64,
            tex_index: p.instance.tex_index,
        },
    }
}

/// The projectile a fire press spawns: a fresh sprite at the player's
/// position.
pub open spec fn spec_fired_projectile(p: Entity) -> Entity {
    Entity {
        pos: HorizontalPoint { x: p.pos.x, z: p.pos.z },
        instance: Instance {
            x: p.pos.x,
            y: crate::entity::spec_sprite_y() as i64,
            z: p.pos.z,
            tex_index: 2,
        },
    }
}

/// The movement phase: the tick counter steps (wrapping) and the player
/// moves by the held keys; everything else is untouched.
pub open spec fn spec_move_phase(pre: WorldState, input: InputState, post: WorldState) -> bool {
    &&& post.entities@ == pre.entities@.update(0, spec_player_after_move(pre, input))
    &&& post.chunks@ == pre.chunks@
    &&& post.chunk_offsets@ == pre.chunk_offsets@
    &&& post.chunk_entities@ == pre.chunk_entities@
    &&& post.chunk_entity_dirs@ == pre.chunk_entity_dirs@
    &&& post.pan_distance == pre.pan_distance
    &&& post.cam_anchor_x == pre.cam_anchor_x
    &&& post.fixed_update_count == (pre.fixed_update_count + 1) % 0x1_0000_0000
}

/// The fire phase: a pressed fire key appends a projectile at the player's
/// position; everything else is untouched.
pub open spec fn spec_fire_phase(pre: WorldState, input: InputState, post: WorldState) -> bool {
    &&& post.entities@ == (if input.fire_pressed {
        pre.entities@.push(spec_fired_projectile(pre.entities@[0]))
    } else {
        pre.entities@
    })
    &&& post.chunks@ == pre.chunks@
    &&& post.chunk_offsets@ == pre.chunk_offsets@
    &&& post.chunk_entities@ == pre.chunk_entities@
    &&& post.chunk_entity_dirs@ == pre.chunk_entity_dirs@
    &&& post.pan_distance == pre.pan_distance
    &&& post.cam_anchor_x == pre.cam_anchor_x
    &&& post.fixed_update_count == pre.fixed_update_count
}

/// The projectile phase as a whole-state relation: entities, per-chunk
/// lists and chunks step through `spec_projectiles_rel` along some trace of
/// chunk configurations; the scroll bookkeeping is untouched.
pub open spec fn spec_projectile_phase(pre: WorldState, post: WorldState, dirty: bool) -> bool {
    &&& exists|states: Seq<Seq<Chunk>>|
        {
            &&& #[trigger] spec_projectiles_rel(
                pre.entities@,
                spec_views(pre.chunk_entities@),
                spec_dirs_views(pre.chunk_entity_dirs@),
                states,
                post.entities@,
                spec_views(post.chunk_entities@),
                spec_dirs_views(post.chunk_entity_dirs@),
                post.chunks@,
                pre.entities@.len() as int,
            )
            &&& states.len() >= 1
            &&& states[0] == pre.chunks@
            &&& states.last() == post.chunks@
            &&& dirty == (states.len() > 1)
        }
    &&& post.chunk_offsets@ == pre.chunk_offsets@
    &&& post.pan_distance == pre.pan_distance
    &&& post.cam_anchor_x == pre.cam_anchor_x
    &&& post.fixed_update_count == pre.fixed_update_count
}

/// Whether the end-of-tick death check fires on this state.
pub open spec fn spec_death_dirty(s: WorldState) -> bool {
    spec_entity_collision(
        spec_views(s.chunk_entities@),
        s.entities@[0].pos.x as int,
        s.entities@[0].pos.z as int,
    ) is Some
}

/// One whole simulation tick: the movement, scroll, fire, projectile, enemy
/// and death phases in order, through some intermediate states; the tick is
/// dirty exactly when a phase changed chunk geometry.
pub open spec fn spec_tick(
    pre: WorldState,
    input: InputState,
    post: WorldState,
    dirty: bool,
) -> bool {
    exists|s1: WorldState, s2: WorldState, d2: bool, s3: WorldState, s4: WorldState, d4: bool, s5: WorldState|
        #![trigger spec_move_phase(pre, input, s1), spec_scroll_phase(s1, spec_dir_x(input) * (PLAYER_SPEED_FP as int), s2, d2), spec_fire_phase(s2, input, s3), spec_projectile_phase(s3, s4, d4), spec_enemy_phase(s4, s5)]
        {
            &&& spec_move_phase(pre, input, s1)
            &&& spec_scroll_phase(s1, spec_dir_x(input) * (PLAYER_SPEED_FP as int), s2, d2)
            &&& spec_fire_phase(s2, input, s3)
            &&& spec_projectile_phase(s3, s4, d4)
            &&& spec_enemy_phase(s4, s5)
            &&& spec_death_phase(s5, post, spec_death_dirty(s5))
            &&& dirty == (d2 || d4 || spec_death_dirty(s5))
        }
}

impl WorldState {
    /// Read the held movement keys as axis directions, move the player along
    /// x (unless the camera's left bound forbids it) and then along z, and
    /// report the x amount that was requested.
    fn move_player(&mut self, input: InputState) -> (move_x_amt: i64)
        requires
            old(self).wf(),
            old(self).entities@[0].pos.x >= PLAYER_SPEED_FP,
            spec_block_collision(
                old(self).chunks@,
                old(self).entities@[0].pos.x as int,
                old(self).entities@[0].pos.z as int,
            ) is None,
            -WORLD_COORD_LIMIT + 100_000 <= old(self).entities@[0].pos.x <= WORLD_COORD_LIMIT
                - 100_000,
            -WORLD_COORD_LIMIT + 100_000 <= old(self).entities@[0].pos.z <= WORLD_COORD_LIMIT
                - 100_000,
        ensures
            final(self).wf(),
            final(self).chunks@ == old(self).chunks@,
            final(self).chunk_offsets@ == old(self).chunk_offsets@,
            final(self).chunk_entities@ == old(self).chunk_entities@,
            final(self).chunk_entity_dirs@ == old(self).chunk_entity_dirs@,
            final(self).pan_distance == old(self).pan_distance,
            final(self).cam_anchor_x == old(self).cam_anchor_x,
            final(self).fixed_update_count == old(self).fixed_update_count,
            final(self).entities@.len() == old(self).entities@.len(),
            forall|k: int|
                1 <= k < old(self).entities@.len() ==> #[trigger] final(self).entities@[k] == old(
                    self,
                ).entities@[k],
            final(self).entities@[0].pos.x >= 0,
            -WORLD_COORD_LIMIT + 50_000 <= final(self).entities@[0].pos.x <= WORLD_COORD_LIMIT
                - 50_000,
            -WORLD_COORD_LIMIT + 50_000 <= final(self).entities@[0].pos.z <= WORLD_COORD_LIMIT
                - 50_000,
            move_x_amt == spec_dir_x(input) * PLAYER_SPEED_FP,
            final(self).entities@[0] == spec_player_after_move(*old(self), input),
            final(self).entities@ == old(self).entities@.update(
                0,
                spec_player_after_move(*old(self), input),
            ),
    {
        let mut dir_x: i64 = 0;
        let mut dir_z: i64 = 0;
        if input.left_held {
            dir_x = -1;
        }
        if input.right_held {
            dir_x = 1;
        }
        if input.down_held {
            dir_z = 1;
        }
        if input.up_held {
            dir_z = -1;
        }
        let move_x_amt = dir_x * PLAYER_SPEED_FP;

        let mut player = self.entities[0];
        let ghost entry = player;
        if player.pos.x + move_x_amt > self.cam_anchor_x - 35000 {
            player.move_x(move_x_amt, &self.chunks);
            proof {
                match spec_block_collision(
                    self.chunks@,
                    entry.pos.x + move_x_amt,
                    entry.pos.z as int,
                ) {
                    Option::None => {
                        assert(player.pos.x >= 0);
                    },
                    Option::Some((bx, bz)) => {
                        if move_x_amt >= 0 {
                            crate::entity::lemma_forward_clamp_column(
                                self.chunks@,
                                entry.pos.x as int,
                                entry.pos.z as int,
                                move_x_amt as int,
                                bx,
                                bz,
                            );
                        } else {
                            crate::entity::lemma_collision_column_nonneg(
                                self.chunks@,
                                entry.pos.x + move_x_amt,
                                entry.pos.z as int,
                                bx,
                                bz,
                            );
                        }
                        assert(player.pos.x >= 0);
                    },
                }
            }
        }
        player.move_z(dir_z * PLAYER_SPEED_FP, &self.chunks);
        let ghost pre = self.entities@;
        self.entities.set(0, player);
        proof {
            assert(spec_entity_in_world(player));
            assert forall|k: int|
                0 <= k < self.entities@.len() implies spec_entity_in_world(
                #[trigger] self.entities@[k],
            ) by {
                if k > 0 {
                    assert(self.entities@[k] == pre[k]);
                }
            }
            assert(player == spec_player_after_move(*old(self), input));
            assert(self.entities@ =~= old(self).entities@.update(
                0,
                spec_player_after_move(*old(self), input),
            ));
        }
        move_x_amt
    }
}

/// Moving a chunk placement one window ahead keeps it on the grid of whole
/// chunks and keeps the column parity that routes world columns back to it.
proof fn lemma_offset_step(off: int)
    requires
        off % 8 == 0,
        0 <= off,
    ensures
        (off + 16) % 8 == 0,
        ((off + 16) / 8) % 2 == (off / 8) % 2,
{
    let q = off / 8;
    vstd::arithmetic::div_mod::lemma_fundamental_div_mod(off, 8);
    assert(off + 16 == 8 * (q + 2));
    vstd::arithmetic::div_mod::lemma_mod_multiples_basic(q + 2, 8);
    assert((8 * (q + 2)) % 8 == 0);
    vstd::arithmetic::div_mod::lemma_fundamental_div_mod_converse(off + 16, 8, q + 2, 0);
    assert((off + 16) / 8 == q + 2);
    vstd::arithmetic::div_mod::lemma_mod_add_multiples_vanish(q, 2);
    assert((2 + q) % 2 == q % 2);
}

/// The two placements of the scrolling window cover adjacent chunk-wide
/// ranges.
pub open spec fn spec_window_adjacent(o0: int, o1: int) -> bool {
    o1 == o0 + 8 || o0 == o1 + 8
}

/// Recycling keeps the window adjacent: while the window is adjacent and the
/// player stands in its leading half, the trailing chunk is the one chosen
/// by the player's column parity, so bumping it two chunk widths ahead
/// leaves the two placements adjacent again.
pub proof fn lemma_recycle_keeps_window_adjacent(o0: int, o1: int, px_units: int)
    requires
        o0 % 8 == 0,
        o1 % 8 == 0,
        0 <= o0,
        0 <= o1,
        (o0 / 8) % 2 == 0,
        (o1 / 8) % 2 == 1,
        spec_window_adjacent(o0, o1),
        (if o0 <= o1 {
            o0
        } else {
            o1
        }) + 8 <= px_units < (if o0 <= o1 {
            o0
        } else {
            o1
        }) + 16,
    ensures
        (px_units / 8 + 1) % 2 == 0 ==> spec_window_adjacent(o0 + 16, o1),
        (px_units / 8 + 1) % 2 == 1 ==> spec_window_adjacent(o0, o1 + 16),
{
    let lo = if o0 <= o1 {
        o0
    } else {
        o1
    };
    let q = lo / 8;
    vstd::arithmetic::div_mod::lemma_fundamental_div_mod(lo, 8);
    assert(lo == 8 * q);
    let r = px_units - (lo + 8);
    assert(0 <= r < 8);
    vstd::arithmetic::div_mod::lemma_fundamental_div_mod_converse(px_units, 8, q + 1, r);
    assert(px_units / 8 == q + 1);
    vstd::arithmetic::div_mod::lemma_mod_add_multiples_vanish(q, 2);
    assert((px_units / 8 + 1) % 2 == (q + 2) % 2);
    assert((q + 2) % 2 == q % 2);
    if o0 <= o1 {
        assert(q % 2 == 0);
    } else {
        assert(q % 2 == 1);
    }
}

/// Coordinate bounds on the per-chunk entities that one tick's work keeps,
/// with `margin` fixed-point ticks of head room under the world bound.
pub open spec fn spec_enemies_bounded_by(s: WorldState, margin: int) -> bool {
    forall|c: int, k: int|
        0 <= c < 2 && 0 <= k < s.chunk_entities@[c]@.len() ==> {
            &&& 0 <= (#[trigger] s.chunk_entities@[c]@[k]).pos.x <= WORLD_COORD_LIMIT - margin
            &&& -WORLD_COORD_LIMIT + margin <= s.chunk_entities@[c]@[k].pos.z
                <= WORLD_COORD_LIMIT - margin
        }
}

impl WorldState {
    /// Accumulate the player's forward motion once it passes the camera
    /// anchor; after a full chunk width of scroll, recycle the chunk behind
    /// the player: place it one window ahead and regenerate it. The camera
    /// anchor then follows the player. Returns whether chunk geometry
    /// changed.
    fn scroll_window(&mut self, rng: &mut rand::rngs::StdRng, move_x_amt: i64) -> (dirty: bool)
        requires
            old(self).wf(),
            old(self).entities@[0].pos.x >= 0,
            old(self).entities@[0].pos.x <= WORLD_COORD_LIMIT - 50_000,
            -PLAYER_SPEED_FP <= move_x_amt <= PLAYER_SPEED_FP,
            -PAN_LIMIT_FP + PLAYER_SPEED_FP <= old(self).pan_distance <= PAN_LIMIT_FP
                - PLAYER_SPEED_FP,
            forall|c: int|
                0 <= c < 2 ==> #[trigger] old(self).chunk_offsets@[c] <= WORLD_OFFSET_LIMIT - 16,
            spec_enemies_bounded_by(*old(self), 100_000),
            old(self).entities@.len() + old(self).chunk_entities@[0]@.len() + old(
                self,
            ).chunk_entities@[1]@.len() <= MAX_RENDER_ENTITIES - 500,
        ensures
            final(self).wf(),
            final(self).entities@ == old(self).entities@,
            final(self).fixed_update_count == old(self).fixed_update_count,
            spec_enemies_bounded_by(*final(self), 50_000),
            final(self).entities@.len() + final(self).chunk_entities@[0]@.len()
                + final(self).chunk_entities@[1]@.len() <= old(self).entities@.len() + old(
                self,
            ).chunk_entities@[0]@.len() + old(self).chunk_entities@[1]@.len() + 176,
            forall|c: int|
                0 <= c < 2 ==> (#[trigger] final(self).chunk_entity_dirs@[c])@.len()
                    == final(self).chunk_entities@[c]@.len(),
            !dirty ==> final(self).chunks@ == old(self).chunks@,
            spec_scroll_phase(*old(self), move_x_amt as int, *final(self), dirty),
            (spec_window_adjacent(
                old(self).chunk_offsets@[0] as int,
                old(self).chunk_offsets@[1] as int,
            ) && spec_player_in_leading_half(
                old(self).chunk_offsets@[0] as int,
                old(self).chunk_offsets@[1] as int,
                old(self).entities@[0].pos.x as int,
            )) ==> spec_window_adjacent(
                final(self).chunk_offsets@[0] as int,
                final(self).chunk_offsets@[1] as int,
            ),
    {
        let mut dirty = false;
        let player_x = self.entities[0].pos.x;
        if player_x > self.cam_anchor_x {
            self.pan_distance = self.pan_distance + move_x_amt;
            if self.pan_distance >= PAN_FULL_FP {
                self.pan_distance = 0;
                let units = crate::fixed::floor_units(player_x);
                proof {
                    vstd::arithmetic::div_mod::lemma_div_pos_is_pos(player_x as int, FP_ONE as int);
                }
                let last_chunk_i = ((((units as u64) / 8) + 1) % 2) as usize;
                proof {
                    assert(last_chunk_i as int == spec_recycle_target(player_x as int));
                    if spec_window_adjacent(
                        self.chunk_offsets@[0] as int,
                        self.chunk_offsets@[1] as int,
                    ) && spec_player_in_leading_half(
                        self.chunk_offsets@[0] as int,
                        self.chunk_offsets@[1] as int,
                        player_x as int,
                    ) {
                        lemma_recycle_keeps_window_adjacent(
                            self.chunk_offsets@[0] as int,
                            self.chunk_offsets@[1] as int,
                            units as int,
                        );
                    }
                }
                let new_off = self.chunk_offsets[last_chunk_i] + 16;
                proof {
                    lemma_offset_step(self.chunk_offsets@[last_chunk_i as int] as int);
                }
                self.chunk_offsets.set(last_chunk_i, new_off);
                let ghost pre_chunks = self.chunks@;
                let ghost pre_ce = self.chunk_entities@;
                let ghost pre_dirs = self.chunk_entity_dirs@;
                let mut c = self.chunks.remove(last_chunk_i);
                let mut ce = self.chunk_entities.remove(last_chunk_i);
                let mut dirs = self.chunk_entity_dirs.remove(last_chunk_i);
                c.generate(rng, false, new_off as i32, &mut ce, &mut dirs);
                proof {
                    lemma_world_enemy_bounds(c, ce@, new_off as int);
                }
                self.chunks.insert(last_chunk_i, c);
                self.chunk_entities.insert(last_chunk_i, ce);
                self.chunk_entity_dirs.insert(last_chunk_i, dirs);
                proof {
                    assert(self.chunks@ =~= pre_chunks.update(last_chunk_i as int, c));
                    assert(self.chunk_entities@ =~= pre_ce.update(last_chunk_i as int, ce));
                    assert(self.chunk_entity_dirs@ =~= pre_dirs.update(last_chunk_i as int, dirs));
                }
                dirty = true;
            }
            self.cam_anchor_x = self.entities[0].pos.x;
        }
        dirty
    }
}

impl WorldState {
    /// Walk every projectile from the newest down: one resting on another
    /// entity takes that entity with it; one that could not move hit a block,
    /// which it destroys before vanishing; one that outran the player by a
    /// chunk width vanishes. Returns whether chunk geometry changed.
    fn update_projectiles(&mut self) -> (dirty: bool)
        requires
            old(self).wf(),
            old(self).entities@[0].pos.x >= 0,
            forall|k: int|
                1 <= k < old(self).entities@.len() ==> (#[trigger] old(self).entities@[k]).pos.x
                    >= -100,
            forall|k: int|
                0 <= k < old(self).entities@.len() ==> {
                    &&& -WORLD_COORD_LIMIT + 50_000 <= (#[trigger] old(self).entities@[k]).pos.x
                        <= WORLD_COORD_LIMIT - 50_000
                    &&& -WORLD_COORD_LIMIT + 50_000 <= old(self).entities@[k].pos.z
                        <= WORLD_COORD_LIMIT - 50_000
                },
            spec_enemies_bounded_by(*old(self), 50_000),
        ensures
            final(self).wf(),
            final(self).entities@.len() >= 1,
            final(self).entities@[0] == old(self).entities@[0],
            final(self).chunk_offsets@ == old(self).chunk_offsets@,
            final(self).pan_distance == old(self).pan_distance,
            final(self).cam_anchor_x == old(self).cam_anchor_x,
            final(self).fixed_update_count == old(self).fixed_update_count,
            forall|k: int|
                1 <= k < final(self).entities@.len() ==> {
                    &&& (#[trigger] final(self).entities@[k]).pos.x >= -10000
                    &&& -WORLD_COORD_LIMIT + 30_000 <= final(self).entities@[k].pos.x
                        <= WORLD_COORD_LIMIT - 30_000
                    &&& -WORLD_COORD_LIMIT + 30_000 <= final(self).entities@[k].pos.z
                        <= WORLD_COORD_LIMIT - 30_000
                },
            spec_enemies_bounded_by(*final(self), 50_000),
            final(self).entities@.len() + final(self).chunk_entities@[0]@.len()
                + final(self).chunk_entities@[1]@.len() <= old(self).entities@.len() + old(
                self,
            ).chunk_entities@[0]@.len() + old(self).chunk_entities@[1]@.len(),
            !dirty ==> final(self).chunks@ == old(self).chunks@,
            exists|states: Seq<Seq<Chunk>>|
                {
                    &&& #[trigger] spec_projectiles_rel(
                        old(self).entities@,
                        spec_views(old(self).chunk_entities@),
                        spec_dirs_views(old(self).chunk_entity_dirs@),
                        states,
                        final(self).entities@,
                        spec_views(final(self).chunk_entities@),
                        spec_dirs_views(final(self).chunk_entity_dirs@),
                        final(self).chunks@,
                        old(self).entities@.len() as int,
                    )
                    &&& states.len() >= 1
                    &&& states[0] == old(self).chunks@
                    &&& states.last() == final(self).chunks@
                    &&& dirty == (states.len() > 1)
                },
    {
        let n = self.entities.len();
        let (dirty, _states) = self.projectile_pass(n);
        dirty
    }

    /// Process projectiles at indices below `i`, newest first, as one tail of
    /// the projectile phase; the returned trace lists the successive chunk
    /// configurations, starting from the current one.
    #[verifier::rlimit(50)]
    fn projectile_pass(&mut self, i: usize) -> (res: (bool, Ghost<Seq<Seq<Chunk>>>))
        requires
            old(self).wf(),
            old(self).entities@.len() >= 1,
            i <= old(self).entities@.len(),
            old(self).entities@[0].pos.x >= 0,
            forall|k: int|
                1 <= k < i ==> {
                    &&& (#[trigger] old(self).entities@[k]).pos.x >= -100
                    &&& -WORLD_COORD_LIMIT + 50_000 <= old(self).entities@[k].pos.x
                        <= WORLD_COORD_LIMIT - 50_000
                    &&& -WORLD_COORD_LIMIT + 50_000 <= old(self).entities@[k].pos.z
                        <= WORLD_COORD_LIMIT - 50_000
                },
            forall|k: int|
                i <= k < old(self).entities@.len() ==> {
                    &&& (#[trigger] old(self).entities@[k]).pos.x >= -10000
                    &&& -WORLD_COORD_LIMIT + 30_000 <= old(self).entities@[k].pos.x
                        <= WORLD_COORD_LIMIT - 30_000
                    &&& -WORLD_COORD_LIMIT + 30_000 <= old(self).entities@[k].pos.z
                        <= WORLD_COORD_LIMIT - 30_000
                },
            -WORLD_COORD_LIMIT + 50_000 <= old(self).entities@[0].pos.x <= WORLD_COORD_LIMIT
                - 50_000,
            -WORLD_COORD_LIMIT + 50_000 <= old(self).entities@[0].pos.z <= WORLD_COORD_LIMIT
                - 50_000,
            spec_enemies_bounded_by(*old(self), 50_000),
        ensures
            final(self).wf(),
            final(self).entities@.len() >= 1,
            final(self).entities@.len() <= old(self).entities@.len(),
            final(self).entities@[0] == old(self).entities@[0],
            final(self).chunk_offsets@ == old(self).chunk_offsets@,
            final(self).pan_distance == old(self).pan_distance,
            final(self).cam_anchor_x == old(self).cam_anchor_x,
            final(self).fixed_update_count == old(self).fixed_update_count,
            forall|k: int|
                1 <= k < final(self).entities@.len() ==> {
                    &&& (#[trigger] final(self).entities@[k]).pos.x >= -10000
                    &&& -WORLD_COORD_LIMIT + 30_000 <= final(self).entities@[k].pos.x
                        <= WORLD_COORD_LIMIT - 30_000
                    &&& -WORLD_COORD_LIMIT + 30_000 <= final(self).entities@[k].pos.z
                        <= WORLD_COORD_LIMIT - 30_000
                },
            spec_enemies_bounded_by(*final(self), 50_000),
            final(self).entities@.len() + final(self).chunk_entities@[0]@.len()
                + final(self).chunk_entities@[1]@.len() <= old(self).entities@.len() + old(
                self,
            ).chunk_entities@[0]@.len() + old(self).chunk_entities@[1]@.len(),
            spec_projectiles_rel(
                old(self).entities@,
                spec_views(old(self).chunk_entities@),
                spec_dirs_views(old(self).chunk_entity_dirs@),
                res.1@,
                final(self).entities@,
                spec_views(final(self).chunk_entities@),
                spec_dirs_views(final(self).chunk_entity_dirs@),
                final(self).chunks@,
                i as int,
            ),
            res.1@.len() >= 1,
            res.1@[0] == old(self).chunks@,
            res.1@.last() == final(self).chunks@,
            res.0 == (res.1@.len() > 1),
        decreases i,
    {
        if i <= 1 {
            let ghost states = seq![self.chunks@];
            return (false, Ghost(states));
        }
        let j = i - 1;
        let ghost entry = *old(self);
        let pos = self.entities[j].pos;

        if let Some(hit) = Entity::check_entity_collisions(pos, &self.chunk_entities) {
            let ghost pre_ce = self.chunk_entities@;
            let ghost pre_ds = self.chunk_entity_dirs@;
            let mut ce = self.chunk_entities.remove(hit.0);
            let ghost pre_inner = ce@;
            let _hit_entity = ce.remove(hit.1);
            proof {
                pre_inner.remove_ensures(hit.1 as int);
            }
            self.chunk_entities.insert(hit.0, ce);
            let mut ds = self.chunk_entity_dirs.remove(hit.0);
            let ghost pre_inner_ds = ds@;
            let _hit_dir = ds.remove(hit.1);
            proof {
                pre_inner_ds.remove_ensures(hit.1 as int);
            }
            self.chunk_entity_dirs.insert(hit.0, ds);
            let ghost pre_es = self.entities@;
            self.entities.remove(j);
            proof {
                pre_es.remove_ensures(j as int);
                assert(self.chunk_entities@ =~= pre_ce.update(hit.0 as int, ce));
                assert(self.chunk_entity_dirs@ =~= pre_ds.update(hit.0 as int, ds));
                assert forall|k: int|
                    1 <= k < self.entities@.len() implies {
                    &&& (#[trigger] self.entities@[k]).pos.x >= -10000
                    &&& -WORLD_COORD_LIMIT + 30_000 <= self.entities@[k].pos.x
                        <= WORLD_COORD_LIMIT - 30_000
                    &&& -WORLD_COORD_LIMIT + 30_000 <= self.entities@[k].pos.z
                        <= WORLD_COORD_LIMIT - 30_000
                } by {
                    if k < j {
                        assert(self.entities@[k] == pre_es[k]);
                    } else {
                        assert(self.entities@[k] == pre_es[k + 1]);
                    }
                }
                assert(spec_views(self.chunk_entities@) =~= spec_views(entry.chunk_entities@)
                    .update(hit.0 as int, spec_views(entry.chunk_entities@)[hit.0 as int].remove(
                    hit.1 as int,
                )));
                assert(spec_dirs_views(self.chunk_entity_dirs@) =~= spec_dirs_views(
                    entry.chunk_entity_dirs@,
                ).update(hit.0 as int, spec_dirs_views(entry.chunk_entity_dirs@)[hit.0 as int]
                    .remove(hit.1 as int)));
            }
            let ghost states = seq![self.chunks@];
            return (false, Ghost(states));
        }

        let mut proj = self.entities[j];
        let ghost proj0 = proj;
        let moved = proj.move_x(PROJECTILE_SPEED_FP, &self.chunks);
        let ghost pre_es = self.entities@;
        self.entities.set(j, proj);
        proof {
            assert(proj == spec_projectile_after_move(entry.chunks@, proj0));
            assert(self.entities@ =~= entry.entities@.update(j as int, proj));
        }

        if !moved {
            let destroyed = destroy_first_hit_block(&mut self.chunks, proj.pos.x, proj.pos.z);
            let ghost chunks_m = self.chunks@;
            let ghost pre_es2 = self.entities@;
            self.entities.remove(j);
            proof {
                pre_es2.remove_ensures(j as int);
                assert(self.entities@ =~= entry.entities@.update(j as int, proj).remove(j as int));
            }
            let (d_rest, tail) = self.projectile_pass(j);
            let ghost states = if destroyed {
                seq![entry.chunks@] + tail@
            } else {
                tail@
            };
            proof {
                if destroyed {
                    assert(states.drop_first() =~= tail@);
                    assert(states[0] == entry.chunks@);
                    assert(states[1] == tail@[0]);
                    assert(states.last() == tail@.last());
                    assert(spec_destruction(
                        entry.chunks@,
                        chunks_m,
                        proj.pos.x as int,
                        proj.pos.z as int,
                        true,
                    ));
                } else {
                    assert(chunks_m == entry.chunks@);
                }
            }
            return (destroyed || d_rest, Ghost(states));
        }
        if proj.pos.x - 80000 > self.entities[0].pos.x {
            let ghost pre_es2 = self.entities@;
            self.entities.remove(j);
            proof {
                pre_es2.remove_ensures(j as int);
                assert(self.entities@ =~= entry.entities@.update(j as int, proj).remove(j as int));
            }
            let (d_rest, tail) = self.projectile_pass(j);
            return (d_rest, tail);
        }
        let (d_rest, tail) = self.projectile_pass(j);
        (d_rest, tail)
    }
}

impl WorldState {
    /// Step every hostile entity along its depth direction; one that could
    /// not move turns around for the next tick.
    #[verifier::rlimit(50)]
    fn move_enemies(&mut self)
        requires
            old(self).wf(),
            spec_enemies_bounded_by(*old(self), 50_000),
        ensures
            final(self).wf(),
            final(self).entities@ == old(self).entities@,
            final(self).chunks@ == old(self).chunks@,
            final(self).chunk_offsets@ == old(self).chunk_offsets@,
            final(self).pan_distance == old(self).pan_distance,
            final(self).cam_anchor_x == old(self).cam_anchor_x,
            final(self).fixed_update_count == old(self).fixed_update_count,
            spec_enemies_bounded_by(*final(self), 30_000),
            forall|c: int|
                0 <= c < 2 ==> (#[trigger] final(self).chunk_entities@[c])@.len() == old(
                    self,
                ).chunk_entities@[c]@.len(),
            spec_enemy_phase(*old(self), *final(self)),
    {
        let ghost orig = *old(self);
        let mut ci: usize = 0;
        while ci < 2
            invariant
                ci <= 2,
                self.wf(),
                self.entities@ == orig.entities@,
                self.chunks@ == orig.chunks@,
                self.chunk_offsets@ == orig.chunk_offsets@,
                self.pan_distance == orig.pan_distance,
                self.cam_anchor_x == orig.cam_anchor_x,
                self.fixed_update_count == orig.fixed_update_count,
                orig.wf(),
                spec_enemies_bounded_by(orig, 50_000),
                spec_enemies_bounded_by(*self, 30_000),
                forall|c: int|
                    0 <= c < 2 ==> (#[trigger] self.chunk_entities@[c])@.len()
                        == orig.chunk_entities@[c]@.len(),
                forall|c: int|
                    ci <= c < 2 ==> {
                        &&& #[trigger] self.chunk_entities@[c] == orig.chunk_entities@[c]
                        &&& self.chunk_entity_dirs@[c] == orig.chunk_entity_dirs@[c]
                    },
                forall|c: int, k: int|
                    0 <= c < ci && 0 <= k < orig.chunk_entities@[c]@.len() ==> {
                        &&& (#[trigger] self.chunk_entities@[c]@[k]) == spec_enemy_after_move(
                            orig.chunks@,
                            orig.chunk_entities@[c]@[k],
                            orig.chunk_entity_dirs@[c]@[k] as int,
                        )
                        &&& self.chunk_entity_dirs@[c]@[k] == spec_enemy_dir_after_move(
                            orig.chunks@,
                            orig.chunk_entities@[c]@[k],
                            orig.chunk_entity_dirs@[c]@[k] as int,
                        )
                    },
            decreases 2 - ci,
        {
            let ghost pre_ce = self.chunk_entities@;
            let ghost pre_ds = self.chunk_entity_dirs@;
            let mut ents = self.chunk_entities.remove(ci);
            let mut ds = self.chunk_entity_dirs.remove(ci);
            let ghost entry_ents = ents@;

            let mut k: usize = 0;
            while k < ents.len()
                invariant
                    k <= ents@.len(),
                    ci < 2,
                    self.chunks@ == orig.chunks@,
                    orig.wf(),
                    ents@.len() == entry_ents.len(),
                    ds@.len() == ents@.len(),
                    entry_ents == orig.chunk_entities@[ci as int]@,
                    ds@.len() == orig.chunk_entity_dirs@[ci as int]@.len(),
                    spec_enemies_bounded_by(orig, 50_000),
                    forall|j: int| k <= j < ents@.len() ==> #[trigger] ents@[j] == entry_ents[j],
                    forall|j: int|
                        k <= j < ds@.len() ==> #[trigger] ds@[j]
                            == orig.chunk_entity_dirs@[ci as int]@[j],
                    forall|j: int|
                        0 <= j < ds@.len() ==> (#[trigger] ds@[j] == 1 || ds@[j] == -1),
                    forall|j: int|
                        0 <= j < ents@.len() ==> {
                            &&& spec_entity_in_world(#[trigger] ents@[j])
                            &&& ents@[j].pos.x >= 0
                            &&& ents@[j].pos.x <= WORLD_COORD_LIMIT - 30_000
                            &&& -WORLD_COORD_LIMIT + 30_000 <= ents@[j].pos.z
                                <= WORLD_COORD_LIMIT - 30_000
                        },
                    forall|j: int|
                        0 <= j < k ==> {
                            &&& (#[trigger] ents@[j]) == spec_enemy_after_move(
                                orig.chunks@,
                                entry_ents[j],
                                orig.chunk_entity_dirs@[ci as int]@[j] as int,
                            )
                            &&& ds@[j] == spec_enemy_dir_after_move(
                                orig.chunks@,
                                entry_ents[j],
                                orig.chunk_entity_dirs@[ci as int]@[j] as int,
                            )
                        },
                decreases ents@.len() - k,
            {
                proof {
                    assert(spec_enemies_bounded_by(orig, 50_000));
                    assert(orig.chunk_entities@[ci as int]@[k as int].pos.z
                        <= WORLD_COORD_LIMIT - 50_000);
                }
                let ghost ents_head = ents@;
                let ghost ds_head = ds@;
                let mut e = ents[k];
                let ghost e0 = e;
                let d = ds[k];
                let moved = e.move_z((d as i64) * ENEMY_SPEED_FP, &self.chunks);
                ents.set(k, e);
                if !moved {
                    ds.set(k, -d);
                }
                proof {
                    assert(e0 == entry_ents[k as int]);
                    assert(d == orig.chunk_entity_dirs@[ci as int]@[k as int]);
                    assert(ents@[k as int] == spec_enemy_after_move(
                        orig.chunks@,
                        entry_ents[k as int],
                        d as int,
                    ));
                    assert(ds@[k as int] == spec_enemy_dir_after_move(
                        orig.chunks@,
                        entry_ents[k as int],
                        d as int,
                    ));
                    assert forall|j: int| 0 <= j < k as int + 1 implies {
                        &&& (#[trigger] ents@[j]) == spec_enemy_after_move(
                            orig.chunks@,
                            entry_ents[j],
                            orig.chunk_entity_dirs@[ci as int]@[j] as int,
                        )
                        &&& ds@[j] == spec_enemy_dir_after_move(
                            orig.chunks@,
                            entry_ents[j],
                            orig.chunk_entity_dirs@[ci as int]@[j] as int,
                        )
                    } by {
                        if j == k as int {
                            assert(ents@[j] == spec_enemy_after_move(
                                orig.chunks@,
                                entry_ents[j],
                                d as int,
                            ));
                            assert(ds@[j] == spec_enemy_dir_after_move(
                                orig.chunks@,
                                entry_ents[j],
                                d as int,
                            ));
                        } else {
                            assert(ents@[j] == ents_head[j]);
                            assert(ds@[j] == ds_head[j]);
                        }
                    }
                }
                k = k + 1;
            }

            self.chunk_entities.insert(ci, ents);
            self.chunk_entity_dirs.insert(ci, ds);
            proof {
                assert(self.chunk_entities@ =~= pre_ce.update(ci as int, ents));
                assert(self.chunk_entity_dirs@ =~= pre_ds.update(ci as int, ds));
                assert forall|c: int, k: int|
                    0 <= c < ci as int + 1 && 0 <= k < orig.chunk_entities@[c]@.len() implies {
                    &&& (#[trigger] self.chunk_entities@[c]@[k]) == spec_enemy_after_move(
                        orig.chunks@,
                        orig.chunk_entities@[c]@[k],
                        orig.chunk_entity_dirs@[c]@[k] as int,
                    )
                    &&& self.chunk_entity_dirs@[c]@[k] == spec_enemy_dir_after_move(
                        orig.chunks@,
                        orig.chunk_entities@[c]@[k],
                        orig.chunk_entity_dirs@[c]@[k] as int,
                    )
                } by {
                    if c == ci as int {
                        assert(self.chunk_entities@[c] == ents);
                        assert(self.chunk_entity_dirs@[c] == ds);
                        assert(ents@[k] == spec_enemy_after_move(
                            orig.chunks@,
                            entry_ents[k],
                            orig.chunk_entity_dirs@[c]@[k] as int,
                        ));
                    } else {
                        assert(self.chunk_entities@[c] == pre_ce[c]);
                        assert(self.chunk_entity_dirs@[c] == pre_ds[c]);
                    }
                }
            }
            ci = ci + 1;
        }
    }

    /// If the player's footprint rests on any hostile entity, restart: put
    /// the window back at the origin, regenerate both chunks, and return the
    /// player to its spawn point. Returns whether chunk geometry changed.
    fn handle_player_collision(&mut self, rng: &mut rand::rngs::StdRng) -> (dirty: bool)
        requires
            old(self).wf(),
            old(self).entities@[0].pos.x >= 0,
            -WORLD_COORD_LIMIT + 30_000 <= old(self).entities@[0].pos.x <= WORLD_COORD_LIMIT
                - 30_000,
            -WORLD_COORD_LIMIT + 30_000 <= old(self).entities@[0].pos.z <= WORLD_COORD_LIMIT
                - 30_000,
            old(self).entities@.len() <= MAX_RENDER_ENTITIES - 352,
        ensures
            final(self).wf(),
            final(self).entities@.len() == old(self).entities@.len(),
            final(self).entities@[0].pos.x >= 0,
            final(self).fixed_update_count == old(self).fixed_update_count,
            !dirty ==> final(self).chunks@ == old(self).chunks@,
            spec_death_phase(*old(self), *final(self), dirty),
    {
        let pos = self.entities[0].pos;
        let hit = Entity::check_entity_collisions(pos, &self.chunk_entities);
        if hit.is_none() {
            return false;
        }

        self.chunk_offsets.set(0, 0);
        self.chunk_offsets.set(1, 8);

        let ghost pre_chunks = self.chunks@;
        let ghost pre_ce = self.chunk_entities@;
        let ghost pre_ds = self.chunk_entity_dirs@;

        let mut c0 = self.chunks.remove(0);
        let mut ce0 = self.chunk_entities.remove(0);
        let mut ds0 = self.chunk_entity_dirs.remove(0);
        c0.generate(rng, true, 0, &mut ce0, &mut ds0);
        self.chunks.insert(0, c0);
        self.chunk_entities.insert(0, ce0);
        self.chunk_entity_dirs.insert(0, ds0);

        let mut c1 = self.chunks.remove(1);
        let mut ce1 = self.chunk_entities.remove(1);
        let mut ds1 = self.chunk_entity_dirs.remove(1);
        c1.generate(rng, false, 8, &mut ce1, &mut ds1);
        self.chunks.insert(1, c1);
        self.chunk_entities.insert(1, ce1);
        self.chunk_entity_dirs.insert(1, ds1);

        proof {
            assert(self.chunks@ =~= pre_chunks.update(0, c0).update(1, c1));
            assert(self.chunk_entities@ =~= pre_ce.update(0, ce0).update(1, ce1));
            assert(self.chunk_entity_dirs@ =~= pre_ds.update(0, ds0).update(1, ds1));
            lemma_world_enemy_bounds(c0, ce0@, 0);
            lemma_world_enemy_bounds(c1, ce1@, 8);
        }

        let mut player = self.entities[0];
        player.pos.x = PLAYER_START_X_FP;
        player.pos.z = PLAYER_START_Z_FP;
        let ghost pre_es = self.entities@;
        self.entities.set(0, player);
        proof {
            assert forall|k: int|
                0 <= k < self.entities@.len() implies spec_entity_in_world(
                #[trigger] self.entities@[k],
            ) by {
                if k > 0 {
                    assert(self.entities@[k] == pre_es[k]);
                }
            }
        }
        self.pan_distance = 0;
        self.cam_anchor_x = PLAYER_START_X_FP;
        proof {
            assert(self.chunk_offsets@ =~= seq![0i64, 8i64]);
            assert(self.entities@ =~= old(self).entities@.update(
                0,
                spec_reset_player(old(self).entities@[0]),
            ));
        }
        true
    }

    /// Run one fixed-rate simulation tick: move the player by the held keys,
    /// scroll and recycle the chunk window, spawn a projectile on fire, step
    /// projectiles with their impacts, step the hostile entities, and restart
    /// the world if one caught the player. Returns whether chunk geometry
    /// changed and its draw data must be rebuilt; the sprite instance list is
    /// rebuilt from the resulting state every tick.
    pub fn fixed_update(&mut self, rng: &mut rand::rngs::StdRng, input: InputState) -> (dirty:
        bool)
        requires
            old(self).tick_ready(),
        ensures
            final(self).wf(),
            final(self).entities@.len() >= 1,
            final(self).entities@[0].pos.x >= 0,
            final(self).fixed_update_count == (old(self).fixed_update_count + 1) % 0x1_0000_0000,
            !dirty ==> final(self).chunks@ == old(self).chunks@,
            spec_tick(*old(self), input, *final(self), dirty),
            (spec_window_adjacent(
                old(self).chunk_offsets@[0] as int,
                old(self).chunk_offsets@[1] as int,
            ) && spec_player_in_leading_half(
                old(self).chunk_offsets@[0] as int,
                old(self).chunk_offsets@[1] as int,
                spec_player_after_move(*old(self), input).pos.x as int,
            )) ==> spec_window_adjacent(
                final(self).chunk_offsets@[0] as int,
                final(self).chunk_offsets@[1] as int,
            ),
    {
        let ghost pre = *old(self);
        if self.fixed_update_count == u32::MAX {
            self.fixed_update_count = 0;
        } else {
            self.fixed_update_count = self.fixed_update_count + 1;
        }
        let ghost bumped = *self;

        let move_x_amt = self.move_player(input);
        let ghost s1 = *self;
        proof {
            assert(spec_player_after_move(bumped, input) == spec_player_after_move(pre, input));
            assert(spec_move_phase(pre, input, s1));
            assert(s1.entities@[0] == spec_player_after_move(pre, input));
        }

        let dirty_scroll = self.scroll_window(rng, move_x_amt);
        let ghost s2 = *self;

        if input.fire_pressed {
            let px = self.entities[0].pos.x;
            let pz = self.entities[0].pos.z;
            let ghost pre_es = self.entities@;
            self.entities.push(Entity::new(px, pz, 2));
            proof {
                assert forall|k: int|
                    0 <= k < self.entities@.len() implies spec_entity_in_world(
                    #[trigger] self.entities@[k],
                ) by {
                    if k < pre_es.len() {
                        assert(self.entities@[k] == pre_es[k]);
                    }
                }
                assert(self.entities@ =~= s2.entities@.push(
                    spec_fired_projectile(s2.entities@[0]),
                ));
            }
        }
        let ghost s3 = *self;
        proof {
            assert(spec_fire_phase(s2, input, s3));
        }

        let dirty_blocks = self.update_projectiles();
        let ghost s4 = *self;
        proof {
            assert(spec_projectile_phase(s3, s4, dirty_blocks));
        }

        self.move_enemies();
        let ghost s5 = *self;

        let dirty_reset = self.handle_player_collision(rng);
        proof {
            assert(dirty_reset == spec_death_dirty(s5));
            assert(spec_death_phase(s5, *self, spec_death_dirty(s5)));
            assert(spec_tick(pre, input, *self, dirty_scroll || dirty_blocks || dirty_reset)) by {
                assert(spec_move_phase(pre, input, s1));
                assert(spec_scroll_phase(
                    s1,
                    spec_dir_x(input) * (PLAYER_SPEED_FP as int),
                    s2,
                    dirty_scroll,
                ));
                assert(spec_fire_phase(s2, input, s3));
                assert(spec_projectile_phase(s3, s4, dirty_blocks));
                assert(spec_enemy_phase(s4, s5));
                assert(spec_death_phase(s5, *self, spec_death_dirty(s5)));
            };
            if spec_window_adjacent(
                pre.chunk_offsets@[0] as int,
                pre.chunk_offsets@[1] as int,
            ) && spec_player_in_leading_half(
                pre.chunk_offsets@[0] as int,
                pre.chunk_offsets@[1] as int,
                spec_player_after_move(pre, input).pos.x as int,
            ) {
                assert(spec_window_adjacent(
                    s2.chunk_offsets@[0] as int,
                    s2.chunk_offsets@[1] as int,
                ));
                assert(s5.chunk_offsets@ == s2.chunk_offsets@);
                if spec_death_dirty(s5) {
                    assert(self.chunk_offsets@ == seq![0i64, 8i64]);
                } else {
                    assert(*self == s5);
                }
            }
        }

        dirty_scroll || dirty_blocks || dirty_reset
    }
}

/// The collidable cell the `j`-th forward probe of a stopped projectile at
/// `(px, pz)` rests on: one unit ahead in x, at one of three padded depths.
pub open spec fn spec_probe_cell(px: int, pz: int, j: int) -> (int, int) {
    (
        spec_floor_units(px + FP_ONE),
        spec_floor_units(pz + SPRITE_HALF_WIDTH_FP + (j - 1) * (PADDED_SPRITE_WIDTH_FP as int)),
    )
}

/// Whether the `j`-th forward probe rests on a solid cell.
pub open spec fn spec_probe_solid(chunks: Seq<Chunk>, px: int, pz: int, j: int) -> bool {
    let bx = spec_probe_cell(px, pz, j).0;
    let bz = spec_probe_cell(px, pz, j).1;
    chunks[(bx / 8) % 2].spec_get(bx % 8, 1, bz) != Blocks::AIR
}

/// The first of the three forward probes at or after `j` that rests on a
/// solid cell.
pub open spec fn spec_probe_hit_from(chunks: Seq<Chunk>, px: int, pz: int, j: int) -> Option<int>
    decreases 3 - j,
{
    if j >= 3 {
        None
    } else if spec_probe_solid(chunks, px, pz, j) {
        Some(j)
    } else {
        spec_probe_hit_from(chunks, px, pz, j + 1)
    }
}

/// What a stopped projectile's impact does to the chunks: nothing if all
/// three forward probes rest on open cells, else the first probed solid cell
/// is knocked out of its chunk's grid.
pub open spec fn spec_destruction(
    chunks: Seq<Chunk>,
    chunks2: Seq<Chunk>,
    px: int,
    pz: int,
    destroyed: bool,
) -> bool {
    match spec_probe_hit_from(chunks, px, pz, 0) {
        Option::None => chunks2 == chunks && !destroyed,
        Option::Some(j) => {
            let bx = spec_probe_cell(px, pz, j).0;
            let bz = spec_probe_cell(px, pz, j).1;
            let hc = (bx / 8) % 2;
            &&& destroyed
            &&& chunks2 == chunks.update(hc, chunks2[hc])
            &&& chunks2[hc].spec_width() == chunks[hc].spec_width()
            &&& chunks2[hc].spec_height() == chunks[hc].spec_height()
            &&& chunks2[hc].spec_depth() == chunks[hc].spec_depth()
            &&& chunks2[hc].spec_world_height() == chunks[hc].spec_world_height()
            &&& chunks2[hc].grid() == chunks[hc].grid().update(
                spec_block_index(
                    chunks[hc].spec_width() as int,
                    chunks[hc].spec_height() as int,
                    bx % 8,
                    1,
                    bz,
                ),
                Blocks::AIR,
            )
        },
    }
}

/// Check the three forward probe points of a projectile against the
/// collidable layer; the first solid cell found is knocked out. Returns
/// whether a cell was destroyed.
fn destroy_first_hit_block(chunks: &mut Vec<Chunk>, px: i64, pz: i64) -> (destroyed: bool)
    requires
        old(chunks)@.len() == 2,
        old(chunks)@[0].wf(),
        old(chunks)@[1].wf(),
        px >= -10000,
        -WORLD_COORD_LIMIT <= px <= WORLD_COORD_LIMIT,
        -WORLD_COORD_LIMIT <= pz <= WORLD_COORD_LIMIT,
    ensures
        final(chunks)@.len() == 2,
        forall|c: int|
            0 <= c < 2 ==> {
                &&& (#[trigger] final(chunks)@[c]).wf()
                &&& final(chunks)@[c].spec_width() == old(chunks)@[c].spec_width()
                &&& final(chunks)@[c].spec_height() == old(chunks)@[c].spec_height()
                &&& final(chunks)@[c].spec_depth() == old(chunks)@[c].spec_depth()
                &&& final(chunks)@[c].spec_world_height() == old(chunks)@[c].spec_world_height()
            },
        !destroyed ==> final(chunks)@ == old(chunks)@,
        spec_destruction(old(chunks)@, final(chunks)@, px as int, pz as int, destroyed),
{
    let ghost pre_chunks = chunks@;
    let hit_block_x = crate::fixed::floor_units(px + FP_ONE);
    proof {
        vstd::arithmetic::div_mod::lemma_div_pos_is_pos(px + FP_ONE, FP_ONE as int);
    }
    let hit_chunk = (((hit_block_x as u64) / 8) % 2) as usize;
    let local_x = ((hit_block_x as u64) % 8) as i32;
    proof {
        assert(hit_block_x == spec_probe_cell(px as int, pz as int, 0).0);
        assert(hit_chunk as int == (spec_probe_cell(px as int, pz as int, 0).0 / 8) % 2);
        assert(local_x as int == spec_probe_cell(px as int, pz as int, 0).0 % 8);
    }
    let ghost dims = Seq::new(2, |c: int| (old(chunks)@[c].spec_width(), old(chunks)@[c].spec_height(), old(chunks)@[c].spec_depth(), old(chunks)@[c].spec_world_height()));

    let ghost entry = chunks@;
    let mut hit_z_corner: i64 = 0;
    while hit_z_corner < 3
        invariant
            0 <= hit_z_corner <= 3,
            chunks@ == entry,
            entry == pre_chunks,
            pre_chunks == old(chunks)@,
            chunks@.len() == 2,
            hit_chunk < 2,
            hit_block_x == spec_probe_cell(px as int, pz as int, 0).0,
            hit_chunk as int == (hit_block_x as int / 8) % 2,
            local_x as int == (hit_block_x as int) % 8,
            -128 <= local_x <= 127,
            -WORLD_COORD_LIMIT + FP_ONE <= px <= WORLD_COORD_LIMIT,
            px >= -10000,
            -WORLD_COORD_LIMIT <= pz <= WORLD_COORD_LIMIT,
            spec_probe_hit_from(pre_chunks, px as int, pz as int, 0) == spec_probe_hit_from(
                pre_chunks,
                px as int,
                pz as int,
                hit_z_corner as int,
            ),
            forall|c: int|
                0 <= c < 2 ==> {
                    &&& (#[trigger] chunks@[c]).wf()
                    &&& chunks@[c].spec_width() == dims[c].0
                    &&& chunks@[c].spec_height() == dims[c].1
                    &&& chunks@[c].spec_depth() == dims[c].2
                    &&& chunks@[c].spec_world_height() == dims[c].3
                },
            dims == Seq::new(2, |c: int| (old(chunks)@[c].spec_width(), old(chunks)@[c].spec_height(), old(chunks)@[c].spec_depth(), old(chunks)@[c].spec_world_height())),
        ensures
            chunks@.len() == 2,
            chunks@ == old(chunks)@,
            spec_probe_hit_from(old(chunks)@, px as int, pz as int, 0) is None,
            forall|c: int|
                0 <= c < 2 ==> {
                    &&& (#[trigger] chunks@[c]).wf()
                    &&& chunks@[c].spec_width() == dims[c].0
                    &&& chunks@[c].spec_height() == dims[c].1
                    &&& chunks@[c].spec_depth() == dims[c].2
                    &&& chunks@[c].spec_world_height() == dims[c].3
                },
        decreases 3 - hit_z_corner,
    {
        let norm = hit_z_corner - 1;
        let hit_block_z = crate::fixed::floor_units(
            pz + crate::fixed::SPRITE_HALF_WIDTH_FP + norm * crate::fixed::PADDED_SPRITE_WIDTH_FP,
        );
        proof {
            assert(hit_block_z == spec_probe_cell(px as int, pz as int, hit_z_corner as int).1);
        }
        let solid = chunks[hit_chunk].get_block(local_x, 1, hit_block_z as i32) != Blocks::AIR;
        if solid {
            proof {
                assert(spec_probe_solid(pre_chunks, px as int, pz as int, hit_z_corner as int));
                assert(spec_probe_hit_from(pre_chunks, px as int, pz as int, 0) == Some(
                    hit_z_corner as int,
                ));
            }
            let ghost pre = chunks@;
            let mut c = chunks.remove(hit_chunk);
            c.set_block(Blocks::AIR, local_x, 1, hit_block_z as i32);
            chunks.insert(hit_chunk, c);
            proof {
                assert(chunks@ =~= pre.update(hit_chunk as int, c));
                assert(pre_chunks[hit_chunk as int].spec_in_bounds(
                    local_x as int,
                    1,
                    hit_block_z as int,
                ));
                let j = hit_z_corner as int;
                let bx = spec_probe_cell(px as int, pz as int, j).0;
                let bz = spec_probe_cell(px as int, pz as int, j).1;
                let hc = (bx / 8) % 2;
                assert(bx == hit_block_x as int);
                assert(bz == hit_block_z as int);
                assert(hc == hit_chunk as int);
                assert(chunks@ == pre_chunks.update(hc, chunks@[hc]));
                assert(chunks@[hc] == c);
                assert(c.grid() == pre_chunks[hc].grid().update(
                    spec_block_index(
                        pre_chunks[hc].spec_width() as int,
                        pre_chunks[hc].spec_height() as int,
                        bx % 8,
                        1,
                        bz,
                    ),
                    Blocks::AIR,
                ));
                assert(spec_destruction(pre_chunks, chunks@, px as int, pz as int, true));
                assert(pre_chunks == old(chunks)@);
            }
            return true;
        }
        proof {
            assert(!spec_probe_solid(pre_chunks, px as int, pz as int, hit_z_corner as int));
            if hit_z_corner == 2 {
                assert(spec_probe_hit_from(pre_chunks, px as int, pz as int, 3) is None);
            }
        }
        hit_z_corner = hit_z_corner + 1;
    }
    proof {
        assert(spec_destruction(old(chunks)@, chunks@, px as int, pz as int, false));
    }
    false
}

/// Entities spawned by generation at a bounded placement have bounded,
/// non-negative coordinates.
proof fn lemma_world_enemy_bounds(c: Chunk, es: Seq<Entity>, world_x: int)
    requires
        c.wf(),
        c.spec_width() <= 8,
        c.spec_depth() <= 11,
        0 <= world_x <= WORLD_OFFSET_LIMIT,
        forall|k: int|
            0 <= k < es.len() ==> spec_spawned_enemy(#[trigger] es[k], world_x, c),
    ensures
        forall|k: int|
            0 <= k < es.len() ==> {
                &&& spec_entity_in_world(#[trigger] es[k])
                &&& es[k].pos.x >= 0
                &&& es[k].pos.z >= 0
                &&& es[k].pos.x <= WORLD_COORD_LIMIT - 100_000
                &&& es[k].pos.z <= WORLD_COORD_LIMIT - 100_000
            },
{
    assert forall|k: int| 0 <= k < es.len() implies {
        &&& spec_entity_in_world(#[trigger] es[k])
        &&& es[k].pos.x >= 0
        &&& es[k].pos.z >= 0
        &&& es[k].pos.x <= WORLD_COORD_LIMIT - 100_000
        &&& es[k].pos.z <= WORLD_COORD_LIMIT - 100_000
    } by {
        let (x, y, z): (int, int, int) = choose|x: int, y: int, z: int|
            {
                &&& 0 <= x < c.spec_width()
                &&& 1 <= y < c.spec_height()
                &&& 2 <= z <= c.spec_depth() - 3
                &&& #[trigger] c.spec_get(x, y, z) == Blocks::AIR
                &&& es[k] == crate::chunk::spec_enemy_at(x + world_x, z)
            };
        assert(0 <= (x + world_x) * (FP_ONE as int) <= (8 + WORLD_OFFSET_LIMIT) * 10000)
            by (nonlinear_arith)
            requires
                0 <= x <= 8 && 0 <= world_x <= WORLD_OFFSET_LIMIT;
    }
}

/// The player's spawn footprint rests on open interior cells of the spawn
/// chunk.
proof fn lemma_start_footprint_clear(chunks: Seq<Chunk>)
    requires
        chunks.len() == 2,
        chunks[0].wf(),
        chunks[0].spec_width() == CHUNK_WIDTH,
        chunks[0].spec_height() == CHUNK_HEIGHT,
        chunks[0].spec_depth() == CHUNK_DEPTH,
        forall|x: int, y: int, z: int|
            chunks[0].spec_in_bounds(x, y, z) ==> spec_generated_cell(
                true,
                CHUNK_DEPTH as int,
                y,
                z,
                #[trigger] chunks[0].spec_get(x, y, z),
            ),
    ensures
        spec_block_collision(chunks, PLAYER_START_X_FP as int, PLAYER_START_Z_FP as int) is None,
{
    vstd::arithmetic::div_mod::lemma_fundamental_div_mod_converse(35100, 10000, 3, 5100);
    vstd::arithmetic::div_mod::lemma_fundamental_div_mod_converse(44900, 10000, 4, 4900);
    vstd::arithmetic::div_mod::lemma_fundamental_div_mod_converse(45100, 10000, 4, 5100);
    vstd::arithmetic::div_mod::lemma_fundamental_div_mod_converse(54900, 10000, 5, 4900);
    vstd::arithmetic::div_mod::lemma_basic_div(3, 8);
    vstd::arithmetic::div_mod::lemma_basic_div(4, 8);
    vstd::arithmetic::div_mod::lemma_basic_div(0, 2);
    vstd::arithmetic::div_mod::lemma_small_mod(3, 8);
    vstd::arithmetic::div_mod::lemma_small_mod(4, 8);
    vstd::arithmetic::div_mod::lemma_small_mod(0, 2);
    assert(chunks[0].spec_get(3, 1, 4) == Blocks::AIR);
    assert(chunks[0].spec_get(4, 1, 4) == Blocks::AIR);
    assert(chunks[0].spec_get(3, 1, 5) == Blocks::AIR);
    assert(chunks[0].spec_get(4, 1, 5) == Blocks::AIR);
    let px = PLAYER_START_X_FP as int;
    let pz = PLAYER_START_Z_FP as int;
    assert(!crate::entity::spec_corner_hit(chunks, px, pz, 0));
    assert(!crate::entity::spec_corner_hit(chunks, px, pz, 1));
    assert(!crate::entity::spec_corner_hit(chunks, px, pz, 2));
    assert(!crate::entity::spec_corner_hit(chunks, px, pz, 3));
    assert(crate::entity::spec_first_hit_from(chunks, px, pz, 4) is None);
    assert(crate::entity::spec_first_hit_from(chunks, px, pz, 3) is None);
    assert(crate::entity::spec_first_hit_from(chunks, px, pz, 2) is None);
    assert(crate::entity::spec_first_hit_from(chunks, px, pz, 1) is None);
    assert(crate::entity::spec_first_hit_from(chunks, px, pz, 0) is None);
}

} // verus!
