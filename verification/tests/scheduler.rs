use tile_platformer::character::{CharacterState, ControlState};
use tile_platformer::game::{Game, GameState};
use tile_platformer::geometry::Vec2;
use tile_platformer::input::{InputEvent, Key};
use tile_platformer::layout::parse_room;
use tile_platformer::scheduler::{FixedStep, MAX_BACKLOG};
use tile_platformer::tilemap::{Room, RoomColor};
use tile_platformer::transition::TransitionState;
use tile_platformer::units::{LONG_AGO, TICK, UNIT};

fn floor_room() -> Room {
    let mut text = String::new();
    for _ in 0..14 {
        text.push_str("               \n");
    }
    text.push_str("###############\n");
    parse_room(&text).unwrap()
}

fn game() -> Game {
    let mut rooms = Vec::new();
    for _ in 0..11 {
        rooms.push(floor_room());
    }
    let mut player = CharacterState::new(Vec2 { x: 7 * UNIT, y: UNIT + 30_000 });
    player.since_on_ground = 0;
    Game::restore(
        rooms,
        GameState {
            current_room: RoomColor::Blue,
            transition: TransitionState::Idle,
            controls: ControlState { left: false, right: false, since_jump: LONG_AGO },
            player,
            run_loop: false,
            muted: false,
            mouse_pos: Vec2 { x: 0, y: 0 },
        },
    )
    .unwrap()
}

#[test]
fn a_tick_is_a_sixtieth_of_a_second() {
    assert_eq!(TICK * 60, UNIT);
    assert_eq!(MAX_BACKLOG, 5 * TICK);
}

#[test]
fn a_frame_runs_the_ticks_that_its_time_pays_for() {
    let mut g = game();
    let mut step = FixedStep::new();
    assert_eq!(step.time_left(), 0);
    // Two and a half ticks: two run, half a tick is kept.
    let reports = step.advance(&mut g, 2_500, &Vec::new());
    assert_eq!(reports.len(), 2);
    assert_eq!(step.time_left(), 500);
    // Another six tenths: together more than one tick, so one runs.
    let reports = step.advance(&mut g, 600, &Vec::new());
    assert_eq!(reports.len(), 1);
    assert_eq!(step.time_left(), 100);
    let reports = step.advance(&mut g, 0, &Vec::new());
    assert_eq!(reports.len(), 0);
    assert_eq!(step.time_left(), 100);
}

#[test]
fn exactly_one_tick_of_time_runs_none() {
    let mut g = game();
    let mut step = FixedStep::new();
    let reports = step.advance(&mut g, TICK, &Vec::new());
    assert_eq!(reports.len(), 0);
    assert_eq!(step.time_left(), TICK);
    let reports = step.advance(&mut g, 1, &Vec::new());
    assert_eq!(reports.len(), 1);
    assert_eq!(step.time_left(), 1);
    // Exactly two ticks: one runs, one whole tick stays behind.
    let mut step = FixedStep::new();
    let reports = step.advance(&mut g, 2 * TICK, &Vec::new());
    assert_eq!(reports.len(), 1);
    assert_eq!(step.time_left(), TICK);
}

#[test]
fn time_beyond_five_ticks_is_dropped() {
    let mut g = game();
    let mut step = FixedStep::new();
    let reports = step.advance(&mut g, 100 * TICK, &Vec::new());
    assert_eq!(reports.len(), 4);
    assert_eq!(step.time_left(), TICK);
    let reports = step.advance(&mut g, i64::MAX, &Vec::new());
    assert_eq!(reports.len(), 4);
    assert_eq!(step.time_left(), TICK);
}

#[test]
fn a_negative_frame_time_counts_as_none() {
    let mut g = game();
    let mut step = FixedStep::new();
    step.advance(&mut g, 700, &Vec::new());
    let reports = step.advance(&mut g, -5_000, &Vec::new());
    assert_eq!(reports.len(), 0);
    assert_eq!(step.time_left(), 700);
    let reports = step.advance(&mut g, i64::MIN, &Vec::new());
    assert_eq!(reports.len(), 0);
    assert_eq!(step.time_left(), 700);
}

#[test]
fn the_first_tick_of_a_frame_consumes_all_pending_inputs() {
    let mut g = game();
    let mut step = FixedStep::new();
    // No tick yet: the key press waits.
    let reports = step.advance(&mut g, 400, &vec![InputEvent::KeyDown(Key::D)]);
    assert!(reports.is_empty());
    assert_eq!(step.events_left(), 1);
    assert!(!g.state().controls.right);
    let reports = step.advance(&mut g, 400, &vec![InputEvent::KeyDown(Key::A)]);
    assert!(reports.is_empty());
    assert_eq!(step.events_left(), 2);
    // Three ticks: the first hears both keys and the release of one.
    let reports = step.advance(&mut g, 2_500, &vec![InputEvent::KeyUp(Key::A)]);
    assert_eq!(reports.len(), 3);
    assert_eq!(step.events_left(), 0);
    assert_eq!(step.time_left(), 300);
    assert!(g.state().controls.right);
    assert!(!g.state().controls.left);
    // Three ticks of acceleration to the right, from rest.
    assert_eq!(g.state().player.velocity, Vec2 { x: 300_000, y: 0 });
    assert_eq!(g.state().player.position.x, 7 * UNIT + 1_666 + 3_333 + 5_000);
}
