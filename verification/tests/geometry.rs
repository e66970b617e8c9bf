use valence::aabb::Aabb;
use valence::block::{BlockFace, LookComparisons, PropValue};
use valence::block_pos::BlockPos;
use valence::chunk_pos::ChunkPos;

#[test]
fn aabb_corners_and_sizes() {
    let b = Aabb::new([4, -2, 7], [1, 3, 7]);
    assert_eq!(b.min(), [1, -2, 7]);
    assert_eq!(b.max(), [4, 3, 7]);
    assert_eq!(b.dimensions(), [3, 5, 0]);
    assert_eq!(b.center(), [2, 0, 7]);
    assert_eq!(b.surface_area(), 2 * (3 * 5 + 5 * 0 + 0 * 3));
    let moved = b.translate([1, 1, 1]);
    assert_eq!(moved.min(), [2, -1, 8]);
    assert_eq!(moved.max(), [5, 4, 8]);
    let p = Aabb::point([9, 9, 9]);
    assert_eq!(p.min(), p.max());
    // Rounding of the centre is towards zero.
    assert_eq!(Aabb::new([-3], [0]).center(), [-1]);
}

#[test]
fn aabb_union_and_collision() {
    let a = Aabb::new([0, 0], [2, 2]);
    let b = Aabb::new([3, -1], [4, 1]);
    let u = a.union(b);
    assert_eq!(u.min(), [0, -1]);
    assert_eq!(u.max(), [4, 2]);
    assert!(u.collides_with_aabb(&a));
    assert!(!a.collides_with_aabb(&b));
    // Touching boxes collide.
    assert!(a.collides_with_aabb(&Aabb::new([2, 2], [5, 5])));
}

#[test]
fn block_face_relations() {
    let all = [
        BlockFace::Bottom,
        BlockFace::Top,
        BlockFace::North,
        BlockFace::South,
        BlockFace::West,
        BlockFace::East,
    ];
    for (i, f) in all.iter().enumerate() {
        assert_eq!(f.tag(), i as i8);
        assert_eq!(BlockFace::from_tag(i as i8), Some(*f));
        assert_eq!(f.opposite().opposite(), *f);
        assert_eq!(f.rotate_right().rotate_left(), *f);
        assert_eq!(f.opposite().to_block_axis(), f.to_block_axis());
    }
    assert_eq!(BlockFace::from_tag(6), None);
    assert_eq!(BlockFace::from_tag(-1), None);
    assert_eq!(BlockFace::North.rotate_right(), BlockFace::East);
    assert_eq!(BlockFace::North.rotate_left(), BlockFace::West);
    assert_eq!(BlockFace::Top.rotate_right(), BlockFace::Top);
    assert_eq!(BlockFace::West.to_block_facing(), PropValue::West);
    assert_eq!(BlockFace::Bottom.to_block_face(), PropValue::Ceiling);
    assert_eq!(BlockFace::Top.to_block_face(), PropValue::Floor);
    assert_eq!(BlockFace::East.to_block_face(), PropValue::Wall);
    assert_eq!(BlockFace::South.to_block_axis(), PropValue::Z);
}

fn look(yaw_sin_dominates: bool, pitch_over: bool, negative: bool, positive: bool) -> LookComparisons {
    LookComparisons {
        yaw_sin_positive: positive,
        pitch_sin_negative: negative,
        yaw_cos_positive: positive,
        yaw_sin_dominates,
        pitch_over_yaw_sin: pitch_over,
        pitch_over_yaw_cos: pitch_over,
    }
}

#[test]
fn look_direction_decisions() {
    assert_eq!(BlockFace::player_look_direction_from(look(true, true, true, true)), BlockFace::Top);
    assert_eq!(BlockFace::player_look_direction_from(look(true, true, false, true)), BlockFace::Bottom);
    assert_eq!(BlockFace::player_look_direction_from(look(true, false, false, true)), BlockFace::East);
    assert_eq!(BlockFace::player_look_direction_from(look(true, false, false, false)), BlockFace::West);
    assert_eq!(BlockFace::player_look_direction_from(look(false, true, true, true)), BlockFace::Top);
    assert_eq!(BlockFace::player_look_direction_from(look(false, false, true, true)), BlockFace::South);
    assert_eq!(BlockFace::player_look_direction_from(look(false, false, true, false)), BlockFace::North);
}

#[test]
fn chunk_of_blocks() {
    assert_eq!(ChunkPos::from_block_pos(BlockPos::new(0, 5, 15)), ChunkPos::new(0, 0));
    assert_eq!(ChunkPos::from_block_pos(BlockPos::new(-1, 5, 16)), ChunkPos::new(-1, 1));
    assert_eq!(ChunkPos::from_block_pos(BlockPos::new(-16, 0, -17)), ChunkPos::new(-1, -2));
    assert_eq!(ChunkPos::from(BlockPos::new(i32::MIN, 0, i32::MAX)), ChunkPos::new(-134217728, 134217727));
    assert_eq!(ChunkPos::new(3, -4).to_tuple(), (3, -4));
    assert_eq!(ChunkPos::new(3, -4).to_array(), [3, -4]);
    assert_eq!(ChunkPos::from((1, 2)), ChunkPos::new(1, 2));
    assert_eq!(ChunkPos::from([1, 2]), ChunkPos::new(1, 2));
}
