use voxel_water::chunks::{ground_pillar, Chunks};

#[test]
fn gen_fills_ground_and_water_level() {
    let world = Chunks::gen(0..1, 0..1, |_, _| 10);
    assert_eq!(world.ground.len(), 1);
    assert_eq!(world.water.len(), 1);
    assert!(world.ground[0].raw.iter().all(|&c| c == (1 << 10) - 1));
    assert!(world.water[0].raw.iter().all(|&c| c == 1 << 62));
    assert_eq!(world.water_count(), 4096);
}

#[test]
fn gen_high_ground_leaves_no_water() {
    let world = Chunks::gen(0..1, 0..1, |_, _| 63);
    assert!(world.water[0].raw.iter().all(|&c| c == 0));
    let world = Chunks::gen(0..1, 0..1, |_, _| 200);
    assert!(world.ground[0].raw.iter().all(|&c| c == u64::MAX));
    assert_eq!(world.water_count(), 0);
    let world = Chunks::gen(0..1, 0..1, |_, _| 62);
    assert_eq!(world.water_count(), 4096);
}

#[test]
fn gen_samples_world_coordinates() {
    let world = Chunks::gen(-1..1, 2..3, |x, z| if x == -64 + 5 && z == 2 * 64 + 7 { 30 } else { 1 });
    let c = world.ground_at([-1, 2]).unwrap();
    assert_eq!(c.get_pillar([5, 7]), (1 << 30) - 1);
    assert_eq!(c.get_pillar([5, 8]), 1);
    assert!(world.ground_at([0, 2]).unwrap().raw.iter().all(|&c| c == 1));
}

#[test]
fn ground_pillar_clamps() {
    assert_eq!(ground_pillar(0), 1);
    assert_eq!(ground_pillar(1), 1);
    assert_eq!(ground_pillar(3), 0b111);
    assert_eq!(ground_pillar(64), u64::MAX);
    assert_eq!(ground_pillar(255), u64::MAX);
}

#[test]
fn chunk_indices() {
    let world = Chunks::gen(-2..2, -2..2, |_, _| 1);
    assert_eq!(world.ground.len(), 16);
    assert_eq!(world.index_of([-2, -2]), Some(0));
    assert_eq!(world.index_of([-2, 1]), Some(3));
    assert_eq!(world.index_of([-1, -2]), Some(4));
    assert_eq!(world.index_of([1, 1]), Some(15));
    assert_eq!(world.index_of([2, 0]), None);
    assert_eq!(world.index_of([0, -3]), None);
    assert!(world.water_at([2, 0]).is_none());
    assert!(world.ground_at([1, 1]).is_some());
}

#[test]
fn empty_range_gives_empty_world() {
    let world = Chunks::gen(3..1, 0..2, |_, _| 1);
    assert_eq!(world.ground.len(), 0);
    assert_eq!(world.water_count(), 0);
    assert_eq!(world.index_of([2, 0]), None);
}
