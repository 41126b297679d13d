use voxel_water::faces::Direction;
use voxel_water::voxel_storage::VoxelStorage;

#[test]
fn visible_faces_of_full_cube() {
    let mut world = VoxelStorage::empty();
    for x in 0..64 {
        for y in 0..64 {
            for z in 0..64 {
                world.set([x, y, z]);
            }
        }
    }
    let faces = world.visible_faces();
    assert_eq!(faces.top.len(), 64 * 64);
    assert_eq!(faces.bottom.len(), 64 * 64);
    assert_eq!(faces.left.len(), 64 * 64);
    assert_eq!(faces.right.len(), 64 * 64);
    assert_eq!(faces.front.len(), 64 * 64);
    assert_eq!(faces.back.len(), 64 * 64);
    assert_eq!(faces.total(), 6 * 64 * 64);
}

#[test]
fn empty_storage_has_no_faces() {
    let faces = VoxelStorage::empty().visible_faces();
    assert_eq!(faces.total(), 0);
}

#[test]
fn faces_of_one_voxel() {
    let mut world = VoxelStorage::empty();
    world.set([5, 10, 7]);
    let faces = world.visible_faces();
    // Empty 9 below filled 10 gives a top face at 9; filled 10 below empty 11 gives a
    // bottom face at 11.
    assert_eq!(faces.top, vec![[5, 9, 7]]);
    assert_eq!(faces.bottom, vec![[5, 11, 7]]);
    assert_eq!(faces.left, vec![[5, 10, 7]]);
    assert_eq!(faces.right, vec![[5, 10, 7]]);
    assert_eq!(faces.front, vec![[5, 10, 7]]);
    assert_eq!(faces.back, vec![[5, 10, 7]]);
    assert_eq!(faces.total(), 6);
}

#[test]
fn world_floor_and_top() {
    let mut world = VoxelStorage::empty();
    world.set_pillar([10, 10], u64::MAX);
    let faces = world.visible_faces();
    assert_eq!(faces.bottom, vec![[10, 0, 10]]);
    assert_eq!(faces.top, vec![[10, 63, 10]]);
    assert_eq!(faces.left.len(), 64);
    assert_eq!(faces.left[0], [10, 0, 10]);
    assert_eq!(faces.left[63], [10, 63, 10]);
}

#[test]
fn neighbours_hide_side_faces() {
    let mut world = VoxelStorage::empty();
    world.set([5, 3, 5]);
    world.set([6, 3, 5]);
    let faces = world.visible_faces();
    assert_eq!(faces.right, vec![[6, 3, 5]]);
    assert_eq!(faces.left, vec![[5, 3, 5]]);
    assert_eq!(faces.front, vec![[5, 3, 5], [6, 3, 5]]);
    assert_eq!(faces.back, vec![[5, 3, 5], [6, 3, 5]]);
}

#[test]
fn chunk_edge_is_open() {
    let mut world = VoxelStorage::empty();
    world.set([0, 3, 0]);
    world.set([1, 3, 0]);
    world.set([0, 3, 1]);
    let faces = world.visible_faces();
    assert_eq!(faces.left, vec![[0, 3, 0], [0, 3, 1]]);
    assert_eq!(faces.front, vec![[0, 3, 0], [1, 3, 0]]);
}

#[test]
fn faces_in_column_order() {
    let mut world = VoxelStorage::empty();
    world.set([2, 1, 0]);
    world.set([1, 1, 5]);
    world.set([1, 1, 3]);
    let faces = world.visible_faces();
    assert_eq!(faces.back, vec![[1, 1, 3], [1, 1, 5], [2, 1, 0]]);
}

#[test]
fn direction_neighbours() {
    assert_eq!(Direction::Left.neighbor([0, 5]), None);
    assert_eq!(Direction::Left.neighbor([3, 5]), Some([2, 5]));
    assert_eq!(Direction::Right.neighbor([63, 5]), None);
    assert_eq!(Direction::Right.neighbor([3, 5]), Some([4, 5]));
    assert_eq!(Direction::Front.neighbor([3, 0]), None);
    assert_eq!(Direction::Front.neighbor([3, 5]), Some([3, 4]));
    assert_eq!(Direction::Back.neighbor([3, 63]), None);
    assert_eq!(Direction::Back.neighbor([3, 5]), Some([3, 6]));
}
