use typey_birb::aabb::Vec3;
use typey_birb::game::{Action, AppState, Game, GameEvent, Speed, DEFAULT_SPACING, GAP_SCORE};
use typey_birb::obstacle::{
    build_obstacle_group, ObstacleGroup, GAP_SIZE, GAP_START_MAX_Y, GAP_START_MIN_Y,
    OBSTACLE_SPAWN_X, TOTAL_SPAN,
};
use typey_birb::player::{Birb, BIRB_MAX_Y, BIRB_MIN_Y, BIRB_START_Y};
use typey_birb::luck::NextGapBag;
use rand::rngs::StdRng;
use rand::SeedableRng;

fn seeded_rng(seed: u64) -> StdRng {
    StdRng::seed_from_u64(seed)
}

const FRAME: u64 = 16_667;

fn playing_game(seed: u64) -> Game {
    let mut g = Game::new(seed, seed + 1);
    assert!(g.finish_loading().is_some());
    assert_eq!(g.state, AppState::StartScreen);
    g.handle_action(Action::Start);
    assert_eq!(g.state, AppState::Playing);
    g
}

fn check_group(o: &ObstacleGroup) {
    assert_eq!(
        o.bottom_pipe.cylinder.height + GAP_SIZE + o.top_pipe.cylinder.height,
        TOTAL_SPAN
    );
    assert_eq!(o.score_zone.min.y, o.gap_start);
    assert_eq!(o.score_zone.max.y, o.gap_start + GAP_SIZE);
    assert!(GAP_START_MIN_Y <= o.gap_start && o.gap_start <= GAP_START_MAX_Y);
}

#[test]
fn gap_walk_stays_in_range() {
    let mut bag = NextGapBag::new(GAP_START_MIN_Y..GAP_START_MAX_Y, BIRB_START_Y, seeded_rng(3));
    for _ in 0..2_000 {
        let v = bag.next();
        assert!(GAP_START_MIN_Y <= v && v <= GAP_START_MAX_Y);
    }
}

#[test]
fn gap_walk_is_reproducible() {
    let mut a = NextGapBag::new(0..10_000, 5_000, seeded_rng(42));
    let mut b = NextGapBag::new(0..10_000, 5_000, seeded_rng(42));
    for _ in 0..50 {
        assert_eq!(a.next(), b.next());
    }
}

#[test]
fn first_two_steps_are_small() {
    // a large step spans at least 0.4 of the range; the first two never do
    let span = GAP_START_MAX_Y - GAP_START_MIN_Y;
    let large = 400 * span / 1000;
    for seed in 0..200 {
        let mut bag =
            NextGapBag::new(GAP_START_MIN_Y..GAP_START_MAX_Y, BIRB_START_Y, seeded_rng(seed));
        let first = bag.next();
        let second = bag.next();
        assert!((first - BIRB_START_Y).abs() < large);
        assert!((second - first).abs() < large);
    }
}

#[test]
fn speed_increase_stops_at_max() {
    let mut s = Speed::default();
    assert_eq!((s.current, s.max), (2_000, 4_400));
    s.increase(100);
    assert_eq!(s.current, 2_100);
    s.increase(5_000);
    assert_eq!(s.current, 4_400);
}

#[test]
fn first_frame_spawns_a_group() {
    let mut g = playing_game(1);
    let report = g.frame(FRAME, &vec![], 0, 0);
    let spawned = report.spawned_obstacle.expect("a group on the first frame");
    check_group(&spawned);
    assert_eq!(g.obstacles.len(), 1);
    // it has already scrolled by one frame: 16667 us at 2.1 units/s
    assert_eq!(g.obstacles[0].x, OBSTACLE_SPAWN_X - 35);
    assert_eq!(g.speed.current, 2_100);
    assert_eq!(g.distance.0, DEFAULT_SPACING - 35);
}

#[test]
fn end_to_end_hundred_frames() {
    let mut g = playing_game(5);
    let mut spawned = 0;
    let mut scrolled: i64 = 0;
    for _ in 0..100 {
        let before = g.distance.0;
        let report = g.frame(FRAME, &vec![], 0, 0);
        if let Some(o) = report.spawned_obstacle {
            check_group(&o);
            spawned += 1;
        }
        scrolled += if report.spawned_obstacle.is_some() {
            DEFAULT_SPACING - g.distance.0
        } else {
            before - g.distance.0
        };
        for o in g.obstacles.iter() {
            check_group(o);
        }
    }
    assert!(spawned >= 1);
    assert!(scrolled > 0);
    assert!(g.grounds.len() >= 2 || g.state != AppState::Playing);
}

#[test]
fn long_run_spawns_every_spacing() {
    let mut g = playing_game(9);
    g.birb = None;
    let mut spawned = 0;
    for _ in 0..1_000 {
        let report = g.frame(100_000, &vec![], 0, 0);
        if let Some(o) = report.spawned_obstacle {
            check_group(&o);
            spawned += 1;
        }
    }
    assert_eq!(g.state, AppState::Playing);
    assert!(spawned > 10);
    assert!(g.obstacles.iter().all(|o| o.x >= -30_000 && o.x <= 38_000));
    assert_eq!(g.grounds.len(), 2);
    assert_eq!(g.grounds[1].x, g.grounds[0].x + 60_000);
}

#[test]
fn obstacle_removed_on_thirty_fifth_tick() {
    let mut g = playing_game(2);
    g.distance.0 = 1_000_000_000;
    g.speed = Speed { current: 2_000, max: 4_400 };
    g.obstacles.push(build_obstacle_group(99, 38_000, 3_000));
    for tick in 1..=34 {
        g.obstacle_movement(1_000_000);
        assert_eq!(g.obstacles.len(), 1, "still there on tick {}", tick);
        assert_eq!(g.obstacles[0].x, 38_000 - 2_000 * tick);
    }
    assert_eq!(g.obstacles[0].x, -30_000);
    g.obstacle_movement(1_000_000);
    assert!(g.obstacles.is_empty());
}

#[test]
fn score_zone_scores_once() {
    let mut g = playing_game(4);
    g.distance.0 = 1_000_000_000;
    let group = build_obstacle_group(7, 0, 2_000);
    g.obstacles.push(group);
    let pos = Vec3::new(0, 3_000, 0);
    let b = g.birb.unwrap();
    g.birb = Some(Birb { translation: pos, target: pos, ..b });
    let score0 = g.score.0;
    let first = g.collision();
    assert_eq!(first, vec![GameEvent::ScoreIncrement(GAP_SCORE)]);
    assert_eq!(g.score.0, score0 + GAP_SCORE);
    for _ in 0..10 {
        assert!(g.collision().is_empty());
    }
    assert_eq!(g.score.0, score0 + GAP_SCORE);
    assert!(g.obstacles[0].score_used);
    assert_eq!(g.state, AppState::Playing);
}

#[test]
fn hitting_a_pipe_ends_the_run_once() {
    let mut g = playing_game(6);
    // the birb at height 3 sits in the flange under a gap that starts at 3.5
    g.obstacles.push(build_obstacle_group(1, 0, 3_500));
    g.obstacles.push(build_obstacle_group(2, 0, 3_500));
    let events = g.collision();
    assert_eq!(events, vec![GameEvent::CrashDetected]);
    assert_eq!(g.state, AppState::EndScreen);
}

#[test]
fn target_moves_and_bumps_at_bounds() {
    let mut g = playing_game(8);
    assert_eq!(g.handle_action(Action::BirbUp), Some(GameEvent::Flap));
    assert_eq!(g.birb.unwrap().target.y, BIRB_START_Y + 250);
    for _ in 0..40 {
        g.handle_action(Action::BirbUp);
    }
    assert_eq!(g.birb.unwrap().target.y, BIRB_MAX_Y);
    assert_eq!(g.handle_action(Action::BirbUp), Some(GameEvent::BumpAtBoundary));
    for _ in 0..40 {
        g.handle_action(Action::BirbDown);
    }
    assert_eq!(g.birb.unwrap().target.y, BIRB_MIN_Y);
    assert_eq!(g.handle_action(Action::BirbDown), Some(GameEvent::BumpAtBoundary));
}

#[test]
fn birb_moves_toward_target() {
    let mut g = playing_game(10);
    g.handle_action(Action::BirbUp);
    g.movement(100_000);
    let b = g.birb.unwrap();
    assert_eq!(b.translation.y, BIRB_START_Y + 200);
    assert_eq!(b.tilt, 200);
    g.movement(100_000);
    let b = g.birb.unwrap();
    assert_eq!(b.translation.y, BIRB_START_Y + 250);
    assert_eq!(b.tilt, 400);
    g.movement(100_000);
    let b = g.birb.unwrap();
    assert_eq!(b.tilt, 300);
}

#[test]
fn state_machine_follows_commands() {
    let mut g = Game::new(1, 2);
    assert_eq!(g.state, AppState::Loading);
    g.handle_action(Action::Start);
    assert_eq!(g.state, AppState::Loading);
    assert_eq!(g.handle_action(Action::BadFlap), None);
    g.finish_loading();
    assert_eq!(g.state, AppState::StartScreen);
    assert!(g.birb.is_some());
    g.handle_action(Action::Retry);
    assert_eq!(g.state, AppState::StartScreen);
    assert_eq!(g.handle_action(Action::BadFlap), Some(GameEvent::BadInput));
    g.handle_action(Action::Start);
    assert_eq!(g.state, AppState::Playing);
    assert!(g.rival.is_some());
    g.handle_action(Action::IncScore(1));
    assert_eq!(g.score.0, 1);
    g.state = AppState::EndScreen;
    g.handle_action(Action::Start);
    assert_eq!(g.state, AppState::EndScreen);
    g.handle_action(Action::Retry);
    assert_eq!(g.state, AppState::StartScreen);
    assert_eq!(g.score.0, 0);
    assert!(g.obstacles.is_empty());
    assert!(g.rival.is_none());
    assert_eq!(g.birb.unwrap().translation, Vec3::new(0, BIRB_START_Y, 0));
}

#[test]
fn retry_keeps_the_gap_walk() {
    let mut g = playing_game(12);
    g.frame(FRAME, &vec![], 0, 0);
    let previous_gap = g.obstacles[0].gap_start;
    g.state = AppState::EndScreen;
    g.handle_action(Action::Retry);
    g.handle_action(Action::Start);
    let report = g.frame(FRAME, &vec![], 0, 0);
    let next = report.spawned_obstacle.unwrap();
    // the walk continues from the last gap rather than from the start height
    assert!((next.gap_start - previous_gap).abs() <= GAP_START_MAX_Y - GAP_START_MIN_Y);
    assert_eq!(g.speed.current, 2_100);
}

#[test]
fn rival_flies_in_and_floats() {
    let mut g = playing_game(13);
    g.rival_movement(1_000_000, 500);
    let r = g.rival.unwrap();
    assert_eq!(r.translation, Vec3::new(-5_000, 4_500, 2_500));
    for _ in 0..10 {
        g.rival_movement(1_000_000, -200);
    }
    assert_eq!(g.rival.unwrap().translation, Vec3::new(5_000, 3_800, 2_500));
}

#[test]
fn start_screen_bob_moves_target_too() {
    let mut g = Game::new(1, 2);
    g.finish_loading();
    g.start_screen_movement(150);
    let b = g.birb.unwrap();
    assert_eq!(b.translation.y, 3_150);
    assert_eq!(b.target, b.translation);
}

#[test]
fn terrain_keeps_two_chunks() {
    let mut g = playing_game(14);
    assert_eq!(g.grounds.len(), 1);
    let chunk = g.spawn_ground().unwrap();
    assert_eq!(chunk.ground.x, 60_000);
    assert_eq!(g.grounds.len(), 2);
    assert!(g.spawn_ground().is_none());
    g.ground_movement(1_000_000);
    assert_eq!(g.grounds[0].x, -2_000);
}

#[test]
fn out_of_state_commands_change_nothing() {
    let mut g = playing_game(15);
    let score = g.score.0;
    assert_eq!(g.handle_action(Action::Start), None);
    assert_eq!(g.handle_action(Action::Retry), None);
    assert_eq!(g.state, AppState::Playing);
    assert_eq!(g.score.0, score);
    g.state = AppState::EndScreen;
    let target = g.birb.unwrap().target;
    assert_eq!(g.handle_action(Action::BirbUp), None);
    assert_eq!(g.handle_action(Action::IncScore(5)), None);
    assert_eq!(g.birb.unwrap().target, target);
    assert_eq!(g.score.0, score);
}

#[test]
fn start_command_then_frames_spawn_at_chunk_height() {
    let mut g = Game::new(3, 4);
    let first = g.finish_loading().unwrap();
    assert_eq!((first.ground.x, first.ground.y), (0, typey_birb::ground::GROUND_Y));
    let report = g.frame(FRAME, &vec![Action::Start], 0, 0);
    assert_eq!(g.state, AppState::Playing);
    assert!(report.spawned_obstacle.is_some());
    let chunk = report.spawned_ground.unwrap();
    assert_eq!(chunk.ground.y, typey_birb::ground::GROUND_Y);
    assert_eq!(g.grounds.len(), 2);
}
