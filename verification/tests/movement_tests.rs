use lowrez::blocks::Blocks;
use lowrez::chunk::Chunk;
use lowrez::entity::Entity;
use lowrez::fixed::{floor_units, round_to_pixel};
use lowrez::render_order::{create_entity_instances, hash_depth};
use lowrez::world::{InputState, WorldState};
use rand::SeedableRng;

fn open_chunks() -> Vec<Chunk> {
    vec![Chunk::new(8, 2, 11, 2), Chunk::new(8, 2, 11, 2)]
}

#[test]
fn fixed_point_helpers_floor_and_round() {
    assert_eq!(floor_units(0), 0);
    assert_eq!(floor_units(9999), 0);
    assert_eq!(floor_units(10000), 1);
    assert_eq!(floor_units(-1), -1);
    assert_eq!(floor_units(-10000), -1);
    assert_eq!(round_to_pixel(35625), 35000);
    assert_eq!(round_to_pixel(36250), 36250);
    assert_eq!(round_to_pixel(12499), 12500 - 1250);
}

#[test]
fn free_move_applies_the_full_amount() {
    let chunks = open_chunks();
    let mut e = Entity::new(30000, 40000, 0);
    let moved = e.move_x(2000, &chunks);
    assert!(moved);
    assert_eq!(e.pos.x, 32000);
    assert_eq!(e.pos.z, 40000);
    assert_eq!(e.instance.x, round_to_pixel(32000));
    let moved_z = e.move_z(-2000, &chunks);
    assert!(moved_z);
    assert_eq!(e.pos.z, 38000);
    assert_eq!(e.instance.z, 38000);
}

#[test]
fn move_clamps_flush_against_a_solid_cell() {
    let mut chunks = open_chunks();
    chunks[0].set_block(Blocks::GRASS, 4, 1, 4);

    // flush already: the footprint's right corner rests 0.01 short of the
    // solid column, so the clamp reports no motion
    let mut e = Entity::new(30000, 40000, 0);
    let moved = e.move_x(2000, &chunks);
    assert!(!moved);
    assert_eq!(e.pos.x, 30000);

    // overlapping start: the clamp still snaps to the flush position
    let mut e2 = Entity::new(35000, 40000, 0);
    let moved2 = e2.move_x(2000, &chunks);
    assert!(moved2);
    assert_eq!(e2.pos.x, 30000);

    // once the block is destroyed the same move succeeds fully
    chunks[0].set_block(Blocks::AIR, 4, 1, 4);
    let mut e3 = Entity::new(30000, 40000, 0);
    let moved3 = e3.move_x(2000, &chunks);
    assert!(moved3);
    assert_eq!(e3.pos.x, 32000);
}

#[test]
fn move_z_clamps_at_a_wall_row() {
    let mut chunks = open_chunks();
    for x in 0..8 {
        chunks[0].set_block(Blocks::DIRT, x, 1, 6);
    }
    let mut e = Entity::new(30000, 45000, 0);
    // the first push stops just short of the wall row
    let moved = e.move_z(5000, &chunks);
    assert!(moved);
    assert_eq!(e.pos.z, 50000);
    // flush against the boundary, a second push no longer moves
    let moved_again = e.move_z(5000, &chunks);
    assert!(!moved_again);
    assert_eq!(e.pos.z, 50000);
}

#[test]
fn entity_collision_reports_first_hit_and_misses_cleanly() {
    let enemy = Entity::new(40000, 45000, 1);
    let chunk_entities = vec![vec![enemy], Vec::new()];
    let hit = Entity::check_entity_collisions(
        lowrez::horizontal_point::HorizontalPoint::new(35000, 45000),
        &chunk_entities,
    );
    assert_eq!(hit, Some((0, 0)));

    let far = Entity::new(60000, 45000, 1);
    let chunk_entities2 = vec![vec![far], Vec::new()];
    let miss = Entity::check_entity_collisions(
        lowrez::horizontal_point::HorizontalPoint::new(35000, 45000),
        &chunk_entities2,
    );
    assert_eq!(miss, None);
}

#[test]
fn depth_keys_match_the_documented_formula() {
    assert_eq!(hash_depth(45000, 35000), 4501);
    assert_eq!(hash_depth(45000, 0), 4500);
    assert_eq!(hash_depth(-5, 0), -1);
    assert_eq!(hash_depth(0, 25000), 1);
}

#[test]
fn colliding_depth_keys_are_resolved_uniquely_and_sorted() {
    let e = Entity::new(35000, 45000, 0);
    let entities = vec![e, e, e];
    let chunk_entities = vec![Vec::new(), Vec::new()];
    let out = create_entity_instances(&entities, &chunk_entities);
    assert_eq!(out.len(), 3);
    assert_eq!(out[0].key, 4501);
    assert_eq!(out[1].key, 4502);
    assert_eq!(out[2].key, 4503);
    // the perturbation only nudges the render depth, a thousandth per step
    assert_eq!(out[0].instance.z, 45000);
    assert_eq!(out[1].instance.z, 45010);
    assert_eq!(out[2].instance.z, 45020);
    for w in out.windows(2) {
        assert!(w[0].key < w[1].key);
    }
}

#[test]
fn draw_order_is_back_to_front_across_lists() {
    let near = Entity::new(35000, 20000, 0);
    let far = Entity::new(35000, 80000, 1);
    let entities = vec![far];
    let chunk_entities = vec![vec![near], Vec::new()];
    let out = create_entity_instances(&entities, &chunk_entities);
    assert_eq!(out.len(), 2);
    assert!(out[0].key < out[1].key);
    assert_eq!(out[0].instance.z, 20000);
    assert_eq!(out[1].instance.z, 80000);
}

#[test]
fn one_tick_moves_player_spawns_projectile_and_pans() {
    let mut rng = rand::rngs::StdRng::seed_from_u64(11);
    let mut w = WorldState::new(&mut rng);
    let input = InputState {
        left_held: false,
        right_held: true,
        up_held: false,
        down_held: false,
        fire_pressed: true,
    };
    let dirty = w.fixed_update(&mut rng, input);
    // nothing recycled, destroyed or reset this tick, so no rebuild is owed
    assert!(!dirty);
    assert_eq!(w.fixed_update_count, 1);
    assert_eq!(w.entities[0].pos.x, 35625);
    assert_eq!(w.entities[0].instance.x, 35000);
    assert_eq!(w.pan_distance, 625);
    assert_eq!(w.cam_anchor_x, 35625);
    assert_eq!(w.entities.len(), 2);
    // the projectile fired at the player's position and flew one step
    assert_eq!(w.entities[1].pos.x, 35625 + 2000);
    assert_eq!(w.entities[1].pos.z, 45000);
}

#[test]
fn holding_left_at_spawn_moves_within_the_camera_bound() {
    let mut rng = rand::rngs::StdRng::seed_from_u64(11);
    let mut w = WorldState::new(&mut rng);
    let input = InputState {
        left_held: true,
        right_held: false,
        up_held: false,
        down_held: false,
        fire_pressed: false,
    };
    // the camera anchor starts at zero; 3.5 - 0.0625 is still above the
    // anchor minus 3.5, so the move is allowed
    w.fixed_update(&mut rng, input);
    assert_eq!(w.entities[0].pos.x, 35000 - 625);
}

#[test]
fn zero_amount_move_against_an_overlapped_cell_snaps_forward() {
    // the clamp formula treats a zero amount as a forward move: an entity
    // whose footprint already overlaps a solid cell is pushed flush before it
    let mut chunks = open_chunks();
    chunks[0].set_block(Blocks::GRASS, 4, 1, 4);
    let mut e = Entity::new(35000, 40000, 0);
    let moved = e.move_x(0, &chunks);
    assert!(moved);
    assert_eq!(e.pos.x, 30000);
}
