use noise::{Fbm, NoiseFn, OpenSimplex};
use voxel_water::chunks::Chunks;
use voxel_water::faces::Direction;
use voxel_water::voxel_storage::VoxelStorage;
use voxel_water::water_sim::{flow_direction_of, settle_column, simulate_water};

fn noise_world(xs: std::ops::Range<i8>, zs: std::ops::Range<i8>) -> Chunks {
    let n = Fbm::<OpenSimplex>::new(0);
    Chunks::gen(xs, zs, move |x, z| {
        let v = n.get([x as f64 * 0.01, z as f64 * 0.01]);
        ((v + 1.0) / 2.0 * 64.0 + 1.0).ceil().clamp(0.0, 255.0) as u8
    })
}

fn total(world: &Chunks) -> u64 {
    world.water.iter().map(|c| c.count()).sum()
}

fn one_chunk(ground: VoxelStorage, water: VoxelStorage) -> Chunks {
    Chunks {
        xs: 0..1,
        zs: 0..1,
        ground: vec![ground],
        water: vec![water],
    }
}

#[test]
fn water_amount_stays_constant() {
    let mut world = noise_world(-2..2, -2..2);
    let total_water: u64 = total(&world);

    for i in 0..64 {
        simulate_water(&mut world, i);
        let water_after: u64 = total(&world);
        assert_eq!(total_water, water_after);
    }
    assert_eq!(world.water_count(), total_water);
}

#[test]
fn gravity_settling_example() {
    let mut water = VoxelStorage::empty();
    water.set([0, 10, 0]);
    let mut world = one_chunk(VoxelStorage::empty(), water);
    simulate_water(&mut world, 0);
    let w = world.water_at([0, 0]).unwrap();
    assert!(w.get([0, 9, 0]));
    assert!(!w.get([0, 10, 0]));
    assert_eq!(world.water_count(), 1);
}

#[test]
fn flow_direction_rotation() {
    let mut water = VoxelStorage::empty();
    water.set([32, 10, 32]);
    let mut world = one_chunk(VoxelStorage::empty(), water);
    let expected = [[31, 9, 32], [32, 8, 32], [32, 7, 31], [32, 6, 32]];
    for (step, at) in [0u8, 2, 4, 6].into_iter().zip(expected) {
        simulate_water(&mut world, step);
        assert_eq!(world.water_count(), 1);
        assert!(world.water[0].get(at), "step {} should leave the unit at {:?}", step, at);
    }
}

#[test]
fn flow_buckets_partition_counter() {
    let expected = [
        Direction::Left,
        Direction::Left,
        Direction::Right,
        Direction::Right,
        Direction::Front,
        Direction::Front,
        Direction::Back,
        Direction::Back,
    ];
    for c in 0..=255u8 {
        assert_eq!(flow_direction_of(c), expected[(c % 8) as usize]);
    }
}

#[test]
fn settling_one_column() {
    assert_eq!(settle_column(0, 1 << 10), 1 << 9);
    assert_eq!(settle_column(1 << 9, 1 << 10), 1 << 10);
    assert_eq!(settle_column(0, (1 << 10) | (1 << 11)), (1 << 9) | (1 << 10));
    assert_eq!(settle_column(0, (1 << 9) | (1 << 10)), (1 << 8) | (1 << 9));
    assert_eq!(settle_column(0, 1), 1);
    assert_eq!(settle_column(0, 1 << 63), 1 << 62);
    assert_eq!(settle_column(0, 0b11), 0b11);
    assert_eq!(settle_column(0, 0b110), 0b011);
}

#[test]
fn water_blocked_by_ground_stays() {
    let mut ground = VoxelStorage::empty();
    let mut water = VoxelStorage::empty();
    for x in 0..64 {
        for z in 0..64 {
            ground.set_pillar([x, z], (1 << 20) - 1);
            water.set_pillar([x, z], (1 << 20) - 1 + (1 << 20));
        }
    }
    water.subtract(&ground);
    let mut world = one_chunk(ground, water);
    let before: Vec<u64> = world.water[0].raw.clone();
    simulate_water(&mut world, 3);
    assert_eq!(world.water[0].raw, before);
}

#[test]
fn sweep_moves_one_column() {
    let mut ground = VoxelStorage::empty();
    for x in 0..64 {
        for z in 0..64 {
            ground.set_pillar([x, z], (1 << 20) - 1);
        }
    }
    let mut water = VoxelStorage::empty();
    water.set([10, 20, 5]);
    water.set([11, 20, 5]);
    let mut world = one_chunk(ground, water);
    simulate_water(&mut world, 2);
    // Towards +x: the unit at 11 moves to 12, then the unit at 10 follows into 11.
    let w = &world.water[0];
    assert!(w.get([12, 20, 5]));
    assert!(w.get([11, 20, 5]));
    assert!(!w.get([10, 20, 5]));
    assert!(!w.get([13, 20, 5]));
    assert_eq!(w.count(), 2);
}

#[test]
fn water_crosses_chunk_edge() {
    let mut ground = VoxelStorage::empty();
    for x in 0..64 {
        for z in 0..64 {
            ground.set_pillar([x, z], (1 << 20) - 1);
        }
    }
    let mut water = VoxelStorage::empty();
    water.set([0, 20, 5]);
    let mut world = Chunks {
        xs: 0..2,
        zs: 0..1,
        ground: vec![VoxelStorage { raw: ground.raw.clone() }, ground],
        water: vec![VoxelStorage::empty(), water],
    };
    simulate_water(&mut world, 1);
    assert!(world.water_at([0, 0]).unwrap().get([63, 20, 5]));
    assert_eq!(world.water_at([1, 0]).unwrap().count(), 0);
    simulate_water(&mut world, 3);
    assert!(world.water_at([1, 0]).unwrap().get([0, 20, 5]));
    assert_eq!(world.water_at([0, 0]).unwrap().count(), 0);
    assert_eq!(world.water_count(), 1);
}

#[test]
fn world_edge_keeps_water() {
    let mut ground = VoxelStorage::empty();
    for x in 0..64 {
        for z in 0..64 {
            ground.set_pillar([x, z], (1 << 20) - 1);
        }
    }
    let mut water = VoxelStorage::empty();
    water.set([0, 20, 5]);
    let mut world = Chunks {
        xs: 0..2,
        zs: 0..1,
        ground: vec![VoxelStorage { raw: ground.raw.clone() }, ground],
        water: vec![water, VoxelStorage::empty()],
    };
    simulate_water(&mut world, 0);
    assert!(world.water[0].get([0, 20, 5]));
    assert_eq!(world.water_count(), 1);
}
