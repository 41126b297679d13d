use voxel_water::position::{delinearize_position, linearize_position};
use voxel_water::voxel_storage::{column_count, VoxelStorage};

#[test]
fn check_position_conversion() {
    for x in 0..64 {
        for y in 0..64 {
            for z in 0..64 {
                let lin = linearize_position([x, y, z]);
                let delin = delinearize_position(lin);
                assert_eq!(delin, [x, y, z]);
            }
        }
    }
}

#[test]
fn get_and_set_in_chunk() {
    for x in 0..64 {
        for y in 0..64 {
            for z in 0..64 {
                let mut world = VoxelStorage::empty();
                assert!(!world.get([x, y, z]));
                world.set([x, y, z]);
                assert!(world.get([x, y, z]));
            }
        }
    }
}

#[test]
fn set_full() {
    let mut world = VoxelStorage::empty();
    for x in 0..64 {
        for y in 0..64 {
            for z in 0..64 {
                assert!(!world.get([x, y, z]));
                world.set([x, y, z]);
            }
        }
    }
    assert_eq!(world.raw, vec![0xffffffffffffffff; 64 * 64]);
}

#[test]
fn key_layout() {
    assert_eq!(linearize_position([1, 2, 3]), 2 * 4096 + 1 + 3 * 64);
    assert_eq!(linearize_position([63, 63, 63]), 64 * 4096 - 1);
    assert_eq!(delinearize_position(8385), [1, 2, 3]);
    assert_eq!(delinearize_position(0), [0, 0, 0]);
}

#[test]
fn set_leaves_other_voxels() {
    let mut world = VoxelStorage::empty();
    world.set([5, 10, 7]);
    assert!(world.get([5, 10, 7]));
    assert!(!world.get([5, 11, 7]));
    assert!(!world.get([5, 9, 7]));
    assert!(!world.get([6, 10, 7]));
    assert!(!world.get([5, 10, 8]));
    assert_eq!(world.raw[5 + 7 * 64], 1 << 10);
    assert_eq!(world.count(), 1);
}

#[test]
fn pillars() {
    let mut world = VoxelStorage::empty();
    world.set_pillar([3, 4], 0b1011);
    assert_eq!(world.get_pillar([3, 4]), 0b1011);
    assert_eq!(world.raw[3 + 4 * 64], 0b1011);
    assert!(world.get([3, 0, 4]));
    assert!(world.get([3, 1, 4]));
    assert!(!world.get([3, 2, 4]));
    assert!(world.get([3, 3, 4]));
    assert_eq!(world.get_pillar([4, 3]), 0);
    assert_eq!(world.count(), 3);
}

#[test]
fn subtract_removes_shared_voxels() {
    let mut a = VoxelStorage::empty();
    let mut b = VoxelStorage::empty();
    a.set([1, 1, 1]);
    a.set([1, 2, 1]);
    a.set([2, 2, 2]);
    b.set([1, 2, 1]);
    b.set([3, 3, 3]);
    a.subtract(&b);
    assert!(a.get([1, 1, 1]));
    assert!(!a.get([1, 2, 1]));
    assert!(a.get([2, 2, 2]));
    assert!(!a.get([3, 3, 3]));
    assert_eq!(a.count(), 2);
    assert!(b.get([1, 2, 1]));
}

#[test]
fn counts_bits() {
    assert_eq!(column_count(0), 0);
    assert_eq!(column_count(u64::MAX), 64);
    assert_eq!(column_count(0b1010_0001), 3);
    assert_eq!(column_count(1 << 63), 1);
}
