use lowrez::blocks::Blocks;
use lowrez::chunk::Chunk;
use lowrez::world::WorldState;
use rand::SeedableRng;

fn collect_grid(c: &Chunk) -> Vec<Blocks> {
    let mut out = Vec::new();
    for z in 0..c.depth() as i32 {
        for y in 0..c.height() as i32 {
            for x in 0..c.width() as i32 {
                out.push(c.get_block(x, y, z));
            }
        }
    }
    out
}

#[test]
fn set_then_get_returns_written_block() {
    let mut c = Chunk::new(8, 2, 11, 2);
    c.set_block(Blocks::GRASS, 3, 1, 5);
    assert_eq!(c.get_block(3, 1, 5), Blocks::GRASS);
    c.set_block(Blocks::OBSIDIAN, 0, 0, 0);
    assert_eq!(c.get_block(0, 0, 0), Blocks::OBSIDIAN);
    // every other cell is still open
    for z in 0..11 {
        for y in 0..2 {
            for x in 0..8 {
                if (x, y, z) != (3, 1, 5) && (x, y, z) != (0, 0, 0) {
                    assert_eq!(c.get_block(x, y, z), Blocks::AIR);
                }
            }
        }
    }
}

#[test]
fn out_of_range_get_reads_air() {
    let c = Chunk::new(8, 2, 11, 2);
    assert_eq!(c.get_block(-1, 0, 0), Blocks::AIR);
    assert_eq!(c.get_block(8, 0, 0), Blocks::AIR);
    assert_eq!(c.get_block(0, -1, 0), Blocks::AIR);
    assert_eq!(c.get_block(0, 2, 0), Blocks::AIR);
    assert_eq!(c.get_block(0, 0, -7), Blocks::AIR);
    assert_eq!(c.get_block(0, 0, 11), Blocks::AIR);
}

#[test]
fn out_of_range_set_leaves_grid_unchanged() {
    let mut c = Chunk::new(8, 2, 11, 2);
    c.set_block(Blocks::GRASS, 2, 1, 2);
    let before = collect_grid(&c);
    c.set_block(Blocks::DIRT, -1, 0, 0);
    c.set_block(Blocks::DIRT, 8, 0, 0);
    c.set_block(Blocks::DIRT, 0, 2, 0);
    c.set_block(Blocks::DIRT, 0, 0, 11);
    c.set_block(Blocks::DIRT, -100, -100, -100);
    assert_eq!(collect_grid(&c), before);
}

#[test]
fn block_index_round_trips() {
    for i in 0..(8 * 2 * 11) {
        let (x, y, z) = Chunk::get_block_xyz(8, 2, i);
        let j = Chunk::get_block_i(8, 2, x, y, z);
        assert_eq!(i, j);
    }
    assert_eq!(Chunk::get_block_xyz(8, 2, 0), (0, 0, 0));
    assert_eq!(Chunk::get_block_xyz(8, 2, 17), (1, 0, 1));
    assert_eq!(Chunk::get_block_i(8, 2, 1, 1, 1), 25);
}

#[test]
fn generation_is_deterministic_for_a_seed() {
    let mut c1 = Chunk::new(8, 2, 11, 2);
    let mut c2 = Chunk::new(8, 2, 11, 2);
    let mut e1 = Vec::new();
    let mut d1 = Vec::new();
    let mut e2 = Vec::new();
    let mut d2 = Vec::new();
    let mut r1 = rand::rngs::StdRng::seed_from_u64(42);
    let mut r2 = rand::rngs::StdRng::seed_from_u64(42);
    c1.generate(&mut r1, false, 8, &mut e1, &mut d1);
    c2.generate(&mut r2, false, 8, &mut e2, &mut d2);
    assert_eq!(collect_grid(&c1), collect_grid(&c2));
    assert_eq!(e1, e2);
    assert_eq!(d1, d2);
}

#[test]
fn generation_respects_structural_bands() {
    let mut c = Chunk::new(8, 2, 11, 2);
    let mut es = Vec::new();
    let mut ds = Vec::new();
    let mut rng = rand::rngs::StdRng::seed_from_u64(7);
    c.generate(&mut rng, false, 16, &mut es, &mut ds);
    for y in 0..2 {
        for x in 0..8 {
            assert_eq!(c.get_block(x, y, 0), Blocks::OBSIDIAN);
            assert_eq!(c.get_block(x, y, 10), Blocks::OBSIDIAN);
            for wall_z in [1, 9] {
                let b = c.get_block(x, y, wall_z);
                assert!(b == Blocks::GRASS || b == Blocks::DIRT);
            }
        }
    }
    for z in 2..=8 {
        for x in 0..8 {
            let floor = c.get_block(x, 0, z);
            assert!(floor == Blocks::GRASS || floor == Blocks::DIRT);
            let above = c.get_block(x, 1, z);
            assert!(
                above == Blocks::AIR || above == Blocks::GRASS || above == Blocks::DIRT
            );
        }
    }
    assert_eq!(es.len(), ds.len());
    for d in &ds {
        assert_eq!(*d, 1);
    }
    for e in &es {
        // spawned on an open interior cell of the chunk placed at x = 16
        assert_eq!(e.pos.x % 10000, 0);
        assert_eq!(e.pos.z % 10000, 0);
        let cell_x = e.pos.x / 10000 - 16;
        let cell_z = e.pos.z / 10000;
        assert!((0..8).contains(&cell_x));
        assert!((2..=8).contains(&cell_z));
        assert_eq!(e.instance.tex_index, 1);
    }
}

#[test]
fn generation_draws_vary_and_spawn_enemies() {
    let mut seen_grass = false;
    let mut seen_dirt = false;
    let mut seen_air = false;
    let mut total_enemies = 0usize;
    for seed in 0..10u64 {
        let mut c = Chunk::new(8, 2, 11, 2);
        let mut es = Vec::new();
        let mut ds = Vec::new();
        let mut rng = rand::rngs::StdRng::seed_from_u64(seed);
        c.generate(&mut rng, false, 0, &mut es, &mut ds);
        total_enemies += es.len();
        for z in 2..=8 {
            for x in 0..8 {
                match c.get_block(x, 1, z) {
                    Blocks::GRASS => seen_grass = true,
                    Blocks::DIRT => seen_dirt = true,
                    Blocks::AIR => seen_air = true,
                    Blocks::OBSIDIAN => panic!("obsidian cannot appear in the interior"),
                }
            }
        }
    }
    assert!(seen_grass && seen_dirt && seen_air);
    assert!(total_enemies > 0);
}

#[test]
fn spawn_chunk_keeps_its_interior_open() {
    let mut rng = rand::rngs::StdRng::seed_from_u64(3);
    let w = WorldState::new(&mut rng);
    assert_eq!(w.chunk_entities[0].len(), 0);
    assert_eq!(w.chunk_entity_dirs[0].len(), 0);
    for z in 2..=8 {
        for x in 0..8 {
            assert_eq!(w.chunks[0].get_block(x, 1, z), Blocks::AIR);
            let floor = w.chunks[0].get_block(x, 0, z);
            assert!(floor == Blocks::GRASS || floor == Blocks::DIRT);
        }
    }
    assert_eq!(w.entities.len(), 1);
    assert_eq!(w.entities[0].pos.x, 35000);
    assert_eq!(w.entities[0].pos.z, 45000);
    assert_eq!(w.chunk_offsets, vec![0, 8]);
}
