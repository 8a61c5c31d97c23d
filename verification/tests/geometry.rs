use snake_game::geometry::{
    blend_coordinate, follow_weight, integer_sqrt, Direction, Position, Transform, BLEND_ONE,
    DIRECTION_UNIT,
};

fn at(x: i32, y: i32) -> Position {
    Position { x, y }
}

#[test]
fn integer_sqrt_is_the_floor_of_the_root() {
    assert_eq!(integer_sqrt(0), 0);
    assert_eq!(integer_sqrt(1), 1);
    assert_eq!(integer_sqrt(24), 4);
    assert_eq!(integer_sqrt(25), 5);
    assert_eq!(integer_sqrt(26), 5);
    assert_eq!(integer_sqrt(500_000_000_000), 707_106);
    assert_eq!(integer_sqrt(u128::MAX), u64::MAX);
}

#[test]
fn direction_between_scales_to_unit_length() {
    assert_eq!(
        Direction::between(&at(0, 0), &at(3000, 4000)),
        Direction { x: 600_000, y: 800_000 }
    );
    assert_eq!(
        Direction::between(&at(3000, 4000), &at(0, 0)),
        Direction { x: -600_000, y: -800_000 }
    );
    assert_eq!(
        Direction::between(&at(0, 0), &at(100_000, -50_000)),
        Direction { x: 894_427, y: -447_213 }
    );
    assert_eq!(Direction::between(&at(5, 5), &at(12, -19)), Direction { x: 280_000, y: -960_000 });
}

#[test]
fn direction_of_the_shortest_vectors_has_unit_length_too() {
    assert_eq!(Direction::between(&at(0, 0), &at(1, 1)), Direction { x: 707_106, y: 707_106 });
    assert_eq!(Direction::between(&at(0, 0), &at(-1, 0)), Direction { x: -1_000_000, y: 0 });
    assert_eq!(Direction::between(&at(9, 9), &at(9, 11)), Direction { x: 0, y: 1_000_000 });
}

#[test]
fn direction_between_equal_points_is_zero() {
    assert_eq!(Direction::between(&at(7, -9), &at(7, -9)), Direction { x: 0, y: 0 });
    assert_eq!(Direction::zero(), Direction { x: 0, y: 0 });
}

#[test]
fn direction_between_the_corners_of_the_world_stays_within_the_unit() {
    let d = Direction::between(&at(i32::MIN, i32::MIN), &at(i32::MAX, i32::MAX));
    assert_eq!(d, Direction { x: 707_106, y: 707_106 });
    assert!(d.x <= DIRECTION_UNIT);
}

#[test]
fn rotation_of_a_heading_is_the_heading_and_identity_for_none() {
    assert_eq!(Direction { x: 600_000, y: 800_000 }.to_rotation(), Direction { x: 600_000, y: 800_000 });
    assert_eq!(Direction::zero().to_rotation(), Direction { x: DIRECTION_UNIT, y: 0 });
    assert_eq!(Direction::east(), Direction { x: 1_000_000, y: 0 });
}

#[test]
fn closer_than_is_strict() {
    let head = at(0, 0);
    assert!(head.is_closer_than(&at(15_000, 0), 20_000));
    assert!(!head.is_closer_than(&at(25_000, 0), 20_000));
    assert!(!head.is_closer_than(&at(20_000, 0), 20_000));
    assert!(head.is_closer_than(&at(19_999, 0), 20_000));
    assert!(head.is_closer_than(&at(12_000, -15_999), 20_000));
    assert!(!head.is_closer_than(&at(12_000, -16_000), 20_000));
    assert!(!head.is_closer_than(&at(0, 0), 0));
    assert!(!head.is_closer_than(&at(0, 0), -5));
}

#[test]
fn closer_than_holds_across_the_whole_world() {
    assert!(!at(i32::MIN, i32::MIN).is_closer_than(&at(i32::MAX, i32::MAX), i32::MAX));
    assert!(at(i32::MAX, 0).is_closer_than(&at(i32::MAX - 1, 0), 2));
}

#[test]
fn farther_than_is_strict() {
    let head = at(0, 0);
    assert!(head.is_farther_than(&at(1001, 0), 1000));
    assert!(!head.is_farther_than(&at(1000, 0), 1000));
    assert!(!head.is_farther_than(&at(600, 800), 1000));
    assert!(head.is_farther_than(&at(0, 0), -1));
    assert!(!head.is_farther_than(&at(0, 0), 0));
}

#[test]
fn advance_moves_by_direction_speed_and_time() {
    let east = Direction { x: 1_000_000, y: 0 };
    assert_eq!(at(0, 0).advance(&east, 200, 1_000_000_000), at(200_000, 0));
    assert_eq!(at(0, 0).advance(&east, 200, 16_666_667), at(3_333, 0));
    let west = Direction { x: -1_000_000, y: 0 };
    assert_eq!(at(0, 0).advance(&west, 200, 16_666_667), at(-3_333, 0));
    let slanted = Direction { x: 600_000, y: 800_000 };
    assert_eq!(at(100, -100).advance(&slanted, 210, 16_666_667), at(2_200, 2_700));
}

#[test]
fn advance_without_time_or_direction_stays() {
    let east = Direction { x: 1_000_000, y: 0 };
    assert_eq!(at(5, 6).advance(&east, 200, 0), at(5, 6));
    assert_eq!(at(5, 6).advance(&Direction::zero(), 200, 1_000_000_000), at(5, 6));
    assert_eq!(at(5, 6).advance(&east, 0, 1_000_000_000), at(5, 6));
}

#[test]
fn advance_stops_at_the_edge_of_the_world() {
    let east = Direction { x: 1_000_000, y: 0 };
    assert_eq!(at(i32::MAX - 10, 0).advance(&east, 200, 1_000_000_000), at(i32::MAX, 0));
    let south_west = Direction { x: -1_000_000, y: -1_000_000 };
    assert_eq!(
        at(0, 0).advance(&south_west, u32::MAX, u64::MAX),
        at(i32::MIN, i32::MIN)
    );
}

#[test]
fn follow_weight_adds_time_and_speed_and_is_capped() {
    assert_eq!(follow_weight(16_666_667, 200), 22_666_667);
    assert_eq!(follow_weight(0, 200), 6_000_000);
    assert_eq!(follow_weight(0, 0), 0);
    assert_eq!(follow_weight(1_000_000_000, 200), BLEND_ONE);
    assert_eq!(follow_weight(94_000_000, 200), BLEND_ONE);
    assert_eq!(follow_weight(93_999_999, 200), 99_999_999);
    assert_eq!(follow_weight(u64::MAX, u32::MAX), BLEND_ONE);
}

#[test]
fn blend_coordinate_moves_a_share_of_the_way() {
    assert_eq!(blend_coordinate(0, 1000, 50_000_000), 500);
    assert_eq!(blend_coordinate(0, 1000, 22_666_667), 226);
    assert_eq!(blend_coordinate(0, -1000, 22_666_667), -226);
    assert_eq!(blend_coordinate(-1000, 1000, 25_000_000), -500);
}

#[test]
fn blend_coordinate_ends_at_the_ends() {
    assert_eq!(blend_coordinate(17, 1000, 0), 17);
    assert_eq!(blend_coordinate(17, 1000, BLEND_ONE), 1000);
    assert_eq!(blend_coordinate(17, 1000, u32::MAX), 1000);
    assert_eq!(blend_coordinate(i32::MIN, i32::MAX, BLEND_ONE), i32::MAX);
    assert_eq!(blend_coordinate(i32::MAX, i32::MIN, BLEND_ONE), i32::MIN);
    assert_eq!(blend_coordinate(i32::MAX, i32::MIN, 0), i32::MAX);
}

#[test]
fn position_blend_works_on_both_axes() {
    assert_eq!(at(0, 2000).blend_toward(&at(10_000, 0), 23_266_667), at(2_326, 1_535));
}

#[test]
fn rotation_blend_turns_by_a_share_of_the_angle() {
    let east = Direction { x: 1_000_000, y: 0 };
    let north = Direction { x: 0, y: 1_000_000 };
    // A quarter of the way from 0 to 90 degrees is 22.5 degrees, and so on.
    assert_eq!(east.blend_toward(&north, 25_000_000), Direction { x: 923_879, y: 382_683 });
    assert_eq!(east.blend_toward(&north, 50_000_000), Direction { x: 707_106, y: 707_106 });
    assert_eq!(east.blend_toward(&north, 75_000_000), Direction { x: 382_683, y: 923_879 });
    // 27 degrees and 30 degrees.
    assert_eq!(east.blend_toward(&north, 30_000_000), Direction { x: 891_006, y: 453_990 });
    assert_eq!(east.blend_toward(&north, 33_333_333), Direction { x: 866_025, y: 499_999 });
    // 10 per cent of the quarter turn from 53.13 degrees on.
    assert_eq!(
        Direction { x: 600_000, y: 800_000 }
            .blend_toward(&Direction { x: -800_000, y: 600_000 }, 10_000_000),
        Direction { x: 467_465, y: 884_011 }
    );
}

#[test]
fn rotation_blend_ends_at_the_ends() {
    let east = Direction { x: 1_000_000, y: 0 };
    let north = Direction { x: 0, y: 1_000_000 };
    assert_eq!(east.blend_toward(&north, 0), east);
    assert_eq!(east.blend_toward(&north, BLEND_ONE), north);
    assert_eq!(east.blend_toward(&north, u32::MAX), north);
    let odd = Direction { x: i32::MIN, y: i32::MAX };
    assert_eq!(odd.blend_toward(&north, 0), odd);
    assert_eq!(north.blend_toward(&odd, BLEND_ONE), odd);
}

#[test]
fn rotation_blend_takes_the_shorter_arc() {
    let east = Direction { x: 1_000_000, y: 0 };
    let north = Direction { x: 0, y: 1_000_000 };
    let south = Direction { x: 0, y: -1_000_000 };
    assert_eq!(east.blend_toward(&south, 50_000_000), Direction { x: 707_106, y: -707_106 });
    assert_eq!(north.blend_toward(&east, 25_000_000), Direction { x: 382_683, y: 923_879 });
    assert_eq!(
        Direction { x: -707_106, y: 707_106 }
            .blend_toward(&Direction { x: -707_106, y: -707_106 }, 50_000_000),
        Direction { x: -1_000_000, y: 0 }
    );
}

#[test]
fn rotation_blend_between_opposite_rotations_turns_counterclockwise() {
    let east = Direction { x: 1_000_000, y: 0 };
    let west = Direction { x: -1_000_000, y: 0 };
    assert_eq!(east.blend_toward(&west, 50_000_000), Direction { x: 0, y: 1_000_000 });
    assert_eq!(east.blend_toward(&west, 25_000_000), Direction { x: 707_106, y: 707_106 });
    assert_eq!(west.blend_toward(&east, 50_000_000), Direction { x: 0, y: -1_000_000 });
}

#[test]
fn rotation_blend_between_equal_rotations_does_not_turn() {
    let heading = Direction { x: 923_879, y: 382_683 };
    assert_eq!(heading.blend_toward(&heading, 33_333_333), heading);
    assert_eq!(Direction::zero().blend_toward(&Direction::zero(), 50_000_000), Direction::zero());
}

#[test]
fn rotation_blend_works_on_any_pair_of_vectors() {
    let north = Direction { x: 0, y: 1_000_000 };
    assert_eq!(Direction::zero().blend_toward(&north, 50_000_000), north);
    assert_eq!(
        Direction { x: i32::MIN, y: i32::MIN }
            .blend_toward(&Direction { x: i32::MIN, y: i32::MIN + 1 }, 50_000_000),
        Direction { x: -707_106, y: -707_106 }
    );
    assert_eq!(
        Direction { x: i32::MAX, y: 5 }.blend_toward(&Direction { x: i32::MIN, y: 7 }, 50_000_000),
        north
    );
}

#[test]
fn transform_blend_blends_position_and_rotation() {
    let from = Transform { translation: at(0, 0), rotation: Direction { x: 1_000_000, y: 0 } };
    let to = Transform { translation: at(1000, -1000), rotation: Direction { x: 0, y: 1_000_000 } };
    let blended = from.blend_toward(&to, 50_000_000);
    assert_eq!(blended.translation, at(500, -500));
    assert_eq!(blended.rotation, Direction { x: 707_106, y: 707_106 });
    assert_eq!(Transform::identity().translation, at(0, 0));
    assert_eq!(Transform::identity().rotation, Direction { x: 1_000_000, y: 0 });
}
