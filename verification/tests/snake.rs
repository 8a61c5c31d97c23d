use snake_game::entity::{EntityKind, SnakeSegment};
use snake_game::event::SnakeCollideEvent;
use snake_game::game_state::GameState;
use snake_game::geometry::{Direction, Position, Transform};
use snake_game::session::GameSession;
use snake_game::snake::to_game_coordinates;
use snake_game::coin::WindowSize;
use snake_game::timer::Countdown;

fn at(x: i32, y: i32) -> Position {
    Position { x, y }
}

fn place(x: i32, y: i32) -> Transform {
    Transform { translation: at(x, y), rotation: Direction { x: 1_000_000, y: 0 } }
}

fn head_position(session: &GameSession) -> Position {
    session.store.head().unwrap().transform.translation
}

const FRAME: u64 = 16_666_667;

#[test]
fn a_new_session_has_the_head_alone() {
    let session = GameSession::new();
    assert_eq!(session.state, GameState::InGame);
    assert_eq!(session.snake_segments.0, vec![0]);
    assert_eq!(session.score.0, 0);
    assert_eq!(session.snake_speed.0, 200);
    assert_eq!(session.store.len(), 1);
    assert_eq!(session.mouse_position.0, at(0, 0));
    assert_eq!(session.last_direction.0, Direction { x: 0, y: 0 });
    assert_eq!(session.coin_timer.0, Countdown { duration_ns: 1_000_000_000, elapsed_ns: 0 });
    assert!(!session.game_over_audio_played.0);
    assert!(!session.reset_button_visible);
    let head = session.store.head().unwrap();
    assert_eq!(head.entity, 0);
    assert_eq!(head.kind, EntityKind::SnakeHead);
    assert_eq!(head.transform, place(0, 0));
    assert_eq!(head.segment, SnakeSegment::disabled());
}

#[test]
fn one_collide_event_grows_the_snake_by_one() {
    let mut session = GameSession::new();
    session.events.snake_collide.push(SnakeCollideEvent);
    session.add_snake_segment();
    assert_eq!(session.snake_segments.0.len(), 2);
    assert_eq!(session.snake_segments.0, vec![0, 1]);
    assert_eq!(session.snake_speed.0, 210);
    assert_eq!(session.score.0, 1);
    let segment = session.store.get(1).unwrap();
    assert_eq!(segment.kind, EntityKind::SnakeBody);
    assert!(segment.segment.ignore_collision);
    assert_eq!(segment.segment.collision_timer, Countdown { duration_ns: 2_000_000_000, elapsed_ns: 0 });
}

#[test]
fn a_new_segment_appears_where_the_tail_is() {
    let mut session = GameSession::new();
    let tail = Transform { translation: at(4000, -7000), rotation: Direction { x: 600_000, y: 800_000 } };
    session.store.set_transform(0, tail);
    assert!(session.grow());
    assert_eq!(session.store.transform(1), Some(tail));
    session.store.set_transform(1, place(-1000, 2000));
    assert!(session.grow());
    assert_eq!(session.store.transform(2), Some(place(-1000, 2000)));
    assert_eq!(session.snake_segments.0, vec![0, 1, 2]);
    assert_eq!(session.snake_speed.0, 220);
    assert_eq!(session.score.0, 2);
}

#[test]
fn several_collide_events_grow_the_snake_once_each() {
    let mut session = GameSession::new();
    session.events.snake_collide.push(SnakeCollideEvent);
    session.events.snake_collide.push(SnakeCollideEvent);
    session.events.snake_collide.push(SnakeCollideEvent);
    session.add_snake_segment();
    assert_eq!(session.snake_segments.0, vec![0, 1, 2, 3]);
    assert_eq!(session.snake_speed.0, 230);
    assert_eq!(session.score.0, 3);
    assert_eq!(session.store.len(), 4);
}

#[test]
fn growth_with_an_empty_chain_does_nothing() {
    let mut session = GameSession::new();
    session.snake_segments.0.clear();
    session.events.snake_collide.push(SnakeCollideEvent);
    let before = session.clone();
    session.add_snake_segment();
    assert_eq!(session, before);
    assert!(!session.grow());
    assert_eq!(session, before);
}

#[test]
fn growth_behind_a_tail_that_is_gone_does_nothing() {
    let mut session = GameSession::new();
    session.grow();
    session.store.despawn(1);
    session.events.snake_collide.push(SnakeCollideEvent);
    let before = session.clone();
    session.add_snake_segment();
    assert_eq!(session, before);
}

#[test]
fn growth_behind_a_coin_does_nothing() {
    let mut session = GameSession::new();
    let coin = session.place_coin(at(50_000, 0)).unwrap();
    session.snake_segments.0.push(coin);
    let before = session.clone();
    assert!(!session.grow());
    assert_eq!(session, before);
}

#[test]
fn growth_stops_where_the_score_or_the_speed_has_no_room() {
    let mut session = GameSession::new();
    session.score.0 = u32::MAX;
    let before = session.clone();
    assert!(!session.grow());
    assert_eq!(session, before);
    session.score.0 = 0;
    session.snake_speed.0 = u32::MAX - 9;
    let before = session.clone();
    assert!(!session.grow());
    assert_eq!(session, before);
    session.snake_speed.0 = u32::MAX - 10;
    assert!(session.grow());
    assert_eq!(session.snake_speed.0, u32::MAX);
}

#[test]
fn growth_waits_while_the_game_is_not_played() {
    let mut session = GameSession::new();
    session.events.snake_collide.push(SnakeCollideEvent);
    session.state = GameState::Paused;
    let before = session.clone();
    session.add_snake_segment();
    assert_eq!(session, before);
    session.state = GameState::GameOver;
    let before = session.clone();
    session.add_snake_segment();
    assert_eq!(session, before);
}

#[test]
fn the_head_moves_toward_the_pointer() {
    let mut session = GameSession::new();
    session.mouse_position.0 = at(100_000, 0);
    session.snake_head_movement(1_000_000_000);
    assert_eq!(head_position(&session), at(200_000, 0));
    assert_eq!(session.last_direction.0, Direction { x: 1_000_000, y: 0 });
}

#[test]
fn the_head_advances_by_direction_times_speed_times_time() {
    let mut session = GameSession::new();
    session.store.set_transform(0, place(1000, 1000));
    session.mouse_position.0 = at(4000, 5000);
    session.snake_speed.0 = 210;
    session.snake_head_movement(FRAME);
    assert_eq!(session.last_direction.0, Direction { x: 600_000, y: 800_000 });
    assert_eq!(head_position(&session), at(1000 + 2100, 1000 + 2800));
    assert_eq!(
        session.store.head().unwrap().transform.rotation,
        Direction { x: 600_000, y: 800_000 }
    );
}

#[test]
fn the_head_keeps_its_heading_while_the_pointer_rests_on_it() {
    let mut session = GameSession::new();
    session.last_direction.0 = Direction { x: 0, y: -1_000_000 };
    session.mouse_position.0 = at(600, 800);
    session.snake_head_movement(FRAME);
    assert_eq!(session.last_direction.0, Direction { x: 0, y: -1_000_000 });
    assert_eq!(head_position(&session), at(0, -3333));
    session.mouse_position.0 = at(601, -3333 + 800);
    session.snake_head_movement(0);
    assert_ne!(session.last_direction.0, Direction { x: 0, y: -1_000_000 });
}

#[test]
fn the_head_without_a_heading_stays_and_faces_along_the_axis() {
    let mut session = GameSession::new();
    session.snake_head_movement(1_000_000_000);
    assert_eq!(head_position(&session), at(0, 0));
    assert_eq!(session.last_direction.0, Direction { x: 0, y: 0 });
    assert_eq!(session.store.head().unwrap().transform.rotation, Direction { x: 1_000_000, y: 0 });
}

#[test]
fn the_head_rests_while_the_game_is_not_played() {
    let mut session = GameSession::new();
    session.mouse_position.0 = at(100_000, 0);
    session.state = GameState::Paused;
    let before = session.clone();
    session.snake_head_movement(1_000_000_000);
    assert_eq!(session, before);
    session.state = GameState::GameOver;
    let before = session.clone();
    session.snake_head_movement(1_000_000_000);
    assert_eq!(session, before);
}

#[test]
fn head_movement_without_a_head_is_skipped() {
    let mut session = GameSession::new();
    session.store.despawn(0);
    session.mouse_position.0 = at(100_000, 0);
    let before = session.clone();
    session.snake_head_movement(1_000_000_000);
    assert_eq!(session, before);
}

#[test]
fn segments_follow_the_pose_that_the_one_ahead_had() {
    let mut session = GameSession::new();
    session.grow();
    session.grow();
    assert_eq!(session.snake_speed.0, 220);
    session.store.set_transform(0, place(10_000, 0));
    session.store.set_transform(1, place(0, 0));
    session.store.set_transform(2, place(-5000, 2000));
    session.move_snake_segments(FRAME);
    assert_eq!(session.store.transform(0), Some(place(10_000, 0)));
    assert_eq!(session.store.transform(1).unwrap().translation, at(2326, 0));
    assert_eq!(session.store.transform(2).unwrap().translation, at(-3837, 1535));
}

#[test]
fn segments_turn_by_the_same_share_as_they_move() {
    let east = Direction { x: 1_000_000, y: 0 };
    let north = Direction { x: 0, y: 1_000_000 };
    let west = Direction { x: -1_000_000, y: 0 };
    let mut session = GameSession::new();
    session.grow();
    session.grow();
    session.snake_speed.0 = 200;
    session.store.set_transform(0, Transform { translation: at(10_000, 0), rotation: north });
    session.store.set_transform(1, Transform { translation: at(0, 0), rotation: east });
    session.store.set_transform(2, Transform { translation: at(-4000, 0), rotation: west });
    // 19 ms at speed 200 make a weight of a quarter.
    session.move_snake_segments(19_000_000);
    assert_eq!(
        session.store.transform(1),
        Some(Transform { translation: at(2500, 0), rotation: Direction { x: 923_879, y: 382_683 } })
    );
    // The second follows the pose that the first had before the pass.
    assert_eq!(
        session.store.transform(2),
        Some(Transform { translation: at(-3000, 0), rotation: Direction { x: -707_106, y: -707_106 } })
    );
    assert_eq!(session.store.transform(0).unwrap().rotation, north);
}

#[test]
fn segments_reach_their_target_at_full_weight() {
    let mut session = GameSession::new();
    session.grow();
    session.grow();
    session.store.set_transform(0, place(10_000, 0));
    session.store.set_transform(1, place(0, 0));
    session.store.set_transform(2, place(-5000, 2000));
    session.move_snake_segments(1_000_000_000);
    assert_eq!(session.store.transform(1), Some(place(10_000, 0)));
    assert_eq!(session.store.transform(2), Some(place(0, 0)));
}

#[test]
fn follow_passes_over_entries_that_name_no_entity() {
    let mut session = GameSession::new();
    session.grow();
    session.grow();
    session.store.set_transform(0, place(10_000, 0));
    session.store.set_transform(2, place(-5000, 2000));
    session.store.despawn(1);
    session.move_snake_segments(1_000_000_000);
    assert_eq!(session.store.transform(2), Some(place(10_000, 0)));
}

#[test]
fn follow_without_a_lead_chases_the_origin() {
    let mut session = GameSession::new();
    session.grow();
    session.store.set_transform(1, place(8000, 8000));
    session.store.despawn(0);
    session.move_snake_segments(1_000_000_000);
    assert_eq!(session.store.transform(1), Some(place(0, 0)));
}

#[test]
fn follow_with_an_empty_chain_is_skipped() {
    let mut session = GameSession::new();
    session.grow();
    session.snake_segments.0.clear();
    let before = session.clone();
    session.move_snake_segments(FRAME);
    assert_eq!(session, before);
}

#[test]
fn segments_rest_while_the_game_is_not_played() {
    let mut session = GameSession::new();
    session.grow();
    session.store.set_transform(0, place(10_000, 0));
    session.state = GameState::Paused;
    let before = session.clone();
    session.move_snake_segments(FRAME);
    assert_eq!(session, before);
}

fn session_with_segment_at(x: i32, y: i32, immune: bool) -> GameSession {
    let mut session = GameSession::new();
    session.grow();
    if !immune {
        session.update_segment_collision_flag(2_000_000_000);
    }
    session.store.set_transform(1, place(x, y));
    session
}

#[test]
fn a_segment_closer_than_three_units_ends_the_game() {
    let mut session = session_with_segment_at(2900, 0, false);
    session.check_snake_self_collision();
    assert_eq!(session.events.game_over.len(), 1);
}

#[test]
fn a_segment_at_three_units_does_not_end_the_game() {
    let mut session = session_with_segment_at(3000, 0, false);
    session.check_snake_self_collision();
    assert_eq!(session.events.game_over.len(), 0);
    let mut session = session_with_segment_at(0, -2999, false);
    session.check_snake_self_collision();
    assert_eq!(session.events.game_over.len(), 1);
}

#[test]
fn an_immune_segment_does_not_end_the_game() {
    let mut session = session_with_segment_at(1000, 0, true);
    let before = session.clone();
    session.check_snake_self_collision();
    assert_eq!(session, before);
}

#[test]
fn every_segment_that_is_hit_sends_a_message() {
    let mut session = GameSession::new();
    session.grow();
    session.grow();
    session.grow();
    session.update_segment_collision_flag(2_000_000_000);
    session.store.set_transform(1, place(1000, 0));
    session.store.set_transform(2, place(50_000, 0));
    session.store.set_transform(3, place(0, 2000));
    session.check_snake_self_collision();
    assert_eq!(session.events.game_over.len(), 2);
}

#[test]
fn self_collision_without_a_head_is_skipped() {
    let mut session = session_with_segment_at(0, 0, false);
    session.store.despawn(0);
    let before = session.clone();
    session.check_snake_self_collision();
    assert_eq!(session, before);
}

#[test]
fn coins_never_end_the_game() {
    let mut session = GameSession::new();
    session.place_coin(at(0, 0));
    session.check_snake_self_collision();
    assert_eq!(session.events.game_over.len(), 0);
}

#[test]
fn immunity_lasts_until_two_seconds_have_passed() {
    let mut session = GameSession::new();
    session.grow();
    session.update_segment_collision_flag(1_000_000_000);
    assert!(session.store.get(1).unwrap().segment.ignore_collision);
    session.update_segment_collision_flag(999_999_999);
    assert!(session.store.get(1).unwrap().segment.ignore_collision);
    assert_eq!(session.store.get(1).unwrap().segment.collision_timer.elapsed_ns, 1_999_999_999);
    session.update_segment_collision_flag(1);
    assert!(!session.store.get(1).unwrap().segment.ignore_collision);
}

#[test]
fn immunity_that_ended_stays_ended() {
    let mut session = GameSession::new();
    session.grow();
    session.update_segment_collision_flag(2_500_000_000);
    let ended = session.store.get(1).unwrap().segment;
    assert!(!ended.ignore_collision);
    assert_eq!(ended.collision_timer.elapsed_ns, 500_000_000);
    session.update_segment_collision_flag(2_000_000_000);
    session.update_segment_collision_flag(1_500_000_000);
    assert_eq!(session.store.get(1).unwrap().segment, ended);
}

#[test]
fn immunity_counts_on_while_the_game_is_paused() {
    let mut session = GameSession::new();
    session.grow();
    session.state = GameState::Paused;
    session.update_segment_collision_flag(2_000_000_000);
    assert!(!session.store.get(1).unwrap().segment.ignore_collision);
}

#[test]
fn immunity_countdown_leaves_the_head_and_the_coins_alone() {
    let mut session = GameSession::new();
    session.place_coin(at(90_000, 0));
    let before = session.clone();
    session.update_segment_collision_flag(5_000_000_000);
    assert_eq!(session, before);
}

#[test]
fn each_segment_has_its_own_immunity_window() {
    let mut session = GameSession::new();
    session.grow();
    session.update_segment_collision_flag(1_500_000_000);
    session.grow();
    session.update_segment_collision_flag(500_000_000);
    assert!(!session.store.get(1).unwrap().segment.ignore_collision);
    assert!(session.store.get(2).unwrap().segment.ignore_collision);
    session.update_segment_collision_flag(1_500_000_000);
    assert!(!session.store.get(2).unwrap().segment.ignore_collision);
}

#[test]
fn pointer_positions_are_measured_from_the_centre_with_y_up() {
    let window = WindowSize { width: 800_000, height: 600_000 };
    assert_eq!(to_game_coordinates(&at(500_000, 100_000), &window), at(100_000, 200_000));
    assert_eq!(to_game_coordinates(&at(0, 0), &window), at(-400_000, 300_000));
    assert_eq!(to_game_coordinates(&at(400_000, 300_000), &window), at(0, 0));
    let odd = WindowSize { width: 801, height: 601 };
    assert_eq!(to_game_coordinates(&at(400, 300), &odd), at(0, 0));
}

#[test]
fn pointer_positions_stay_in_the_world() {
    let window = WindowSize { width: u32::MAX, height: u32::MAX };
    assert_eq!(to_game_coordinates(&at(i32::MIN, i32::MIN), &window), at(i32::MIN, i32::MAX));
    assert_eq!(
        to_game_coordinates(&at(i32::MAX, i32::MAX), &window),
        at(0, 0)
    );
}

#[test]
fn the_last_pointer_movement_of_a_tick_counts() {
    let mut session = GameSession::new();
    let window = Some(WindowSize { width: 800_000, height: 600_000 });
    session.track_mouse_movements(&vec![at(0, 0), at(500_000, 100_000)], window);
    assert_eq!(session.mouse_position.0, at(100_000, 200_000));
    session.track_mouse_movements(&vec![], window);
    assert_eq!(session.mouse_position.0, at(100_000, 200_000));
}

#[test]
fn pointer_tracking_without_a_window_is_skipped() {
    let mut session = GameSession::new();
    let before = session.clone();
    session.track_mouse_movements(&vec![at(500_000, 100_000)], None);
    assert_eq!(session, before);
}

#[test]
fn spawning_the_snake_again_appends_another_head_to_the_chain() {
    let mut session = GameSession::new();
    session.spawn_snake();
    assert_eq!(session.snake_segments.0, vec![0, 1]);
    assert_eq!(session.store.head().unwrap().entity, 0);
    assert_eq!(session.store.get(1).unwrap().kind, EntityKind::SnakeHead);
}
