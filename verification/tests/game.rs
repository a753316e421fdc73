use tile_platformer::character::{CharacterState, ControlState};
use tile_platformer::controller::{FALL_SPEED, RUN_SPEED};
use tile_platformer::game::{
    apply_input, hear, AudioCommand, Game, GameState, Sound, FULL_VOLUME, HALT_VOLUME,
    MUSIC_VOLUME,
};
use tile_platformer::geometry::{GridCoord, Vec2};
use tile_platformer::input::{InputEvent, Key, MouseButton};
use tile_platformer::layout::parse_room;
use tile_platformer::solver::SolverError;
use tile_platformer::tilemap::{Room, RoomColor, RoomEntrance};
use tile_platformer::transition::{detect_entry, TransitionState, ENTER_ROOM_TIME};
use tile_platformer::units::{LONG_AGO, TICK, UNIT};

fn at(x: i64, y: i64) -> Vec2 {
    Vec2 { x, y }
}

fn room_of(lines: &[&str]) -> Room {
    let mut text = String::new();
    for line in lines {
        text.push_str(line);
        text.push('\n');
    }
    parse_room(&text).unwrap()
}

/// The blue room: a floor, and on it a portal to the red room at (8, 1)
/// and one to the green room at (3, 1).
fn blue_room() -> Room {
    let mut lines = vec!["#             #"; 13];
    lines.push("#  G    R     #");
    lines.push("###############");
    room_of(&lines)
}

/// The red room: open on the left above the floor, and at the top.
fn red_room() -> Room {
    let mut lines = vec!["####### #######"];
    lines.extend(vec!["              #"; 13]);
    lines.push("###############");
    room_of(&lines)
}

/// The green room: closed on all sides.
fn green_room() -> Room {
    let mut lines = vec!["###############"];
    lines.extend(vec!["#             #"; 13]);
    lines.push("###############");
    room_of(&lines)
}

fn rooms() -> Vec<Room> {
    let mut rooms = Vec::new();
    for i in 0..11 {
        rooms.push(match i {
            0 => red_room(),
            3 => green_room(),
            7 => blue_room(),
            _ => green_room(),
        });
    }
    rooms
}

fn standing(x: i64) -> GameState {
    let mut player = CharacterState::new(at(x, UNIT + 30_000));
    player.since_on_ground = 0;
    GameState {
        current_room: RoomColor::Blue,
        transition: TransitionState::Idle,
        controls: ControlState { left: false, right: false, since_jump: LONG_AGO },
        player,
        run_loop: false,
        muted: false,
        mouse_pos: at(0, 0),
    }
}

fn play(sound: Sound, volume: i64, looping: bool) -> AudioCommand {
    AudioCommand::Play { sound, volume, looping }
}

#[test]
fn a_new_game_starts_in_the_blue_room() {
    let start = Game::new(rooms()).unwrap();
    // The music is to play from the start, in a loop.
    assert_eq!(start.commands, vec![play(Sound::Music, MUSIC_VOLUME, true)]);
    let s = start.game.state();
    assert_eq!(s.current_room, RoomColor::Blue);
    assert_eq!(s.transition, TransitionState::Idle);
    assert_eq!(s.player.position, at(2 * UNIT, 2 * UNIT));
    assert_eq!(s.player.velocity, at(0, 0));
    assert_eq!(s.player.since_on_ground, LONG_AGO);
    assert_eq!(s.controls, ControlState { left: false, right: false, since_jump: 0 });
    assert!(!s.run_loop);
    assert!(!s.muted);
}

#[test]
fn the_first_tick_of_a_new_game_counts_on_its_timers() {
    // Eleven empty rooms: the character falls free.
    let mut empty = Vec::new();
    for _ in 0..11 {
        empty.push(parse_room("").unwrap());
    }
    let mut game = Game::new(empty).unwrap().game;
    let r = game.update(&Vec::new());
    assert_eq!(r.fault, None);
    assert!(r.commands.is_empty());
    let s = game.state();
    assert_eq!(s.player.since_on_ground, LONG_AGO + TICK);
    assert_eq!(s.controls.since_jump, TICK);
    assert_eq!(s.player.velocity, at(0, -30_000));
    assert_eq!(s.player.position, at(2 * UNIT, 2 * UNIT - 500));
    // Once more: still free, one tick on.
    game.update(&Vec::new());
    assert_eq!(game.state().player.since_on_ground, LONG_AGO + 2 * TICK);
    assert_eq!(game.state().player.position, at(2 * UNIT, 2 * UNIT - 500 - 1_000));
}

#[test]
fn a_game_needs_a_room_of_every_colour() {
    assert!(Game::new(Vec::new()).is_none());
    let mut ten = rooms();
    ten.pop();
    assert!(Game::new(ten).is_none());
    let mut twelve = rooms();
    twelve.push(green_room());
    assert!(Game::new(twelve).is_none());
    assert!(Game::restore(Vec::new(), standing(5 * UNIT)).is_none());
}

#[test]
fn a_state_that_does_not_fit_is_not_restored() {
    assert!(Game::restore(rooms(), standing(5 * UNIT)).is_some());
    let mut s = standing(5 * UNIT);
    s.player.velocity.x = RUN_SPEED + 1;
    assert!(Game::restore(rooms(), s).is_none());
    let mut s = standing(5 * UNIT);
    s.player.velocity.y = FALL_SPEED + 1;
    assert!(Game::restore(rooms(), s).is_none());
    let mut s = standing(5 * UNIT);
    s.player.position.x = i64::MAX;
    assert!(Game::restore(rooms(), s).is_none());
    // The timers may stand anywhere.
    let mut s = standing(5 * UNIT);
    s.player.since_on_ground = i64::MAX;
    s.controls.since_jump = i64::MAX;
    assert!(Game::restore(rooms(), s).is_some());
    // A transition into a room that has no entrance on that side.
    let mut s = standing(5 * UNIT);
    s.transition = TransitionState::Entering {
        target_room: RoomColor::Green,
        entrance_side: RoomEntrance::Left,
        source_cell: GridCoord { x: 3, y: 1 },
        elapsed: 0,
    };
    assert!(Game::restore(rooms(), s).is_none());
    s.transition = TransitionState::Entering {
        target_room: RoomColor::Red,
        entrance_side: RoomEntrance::Left,
        source_cell: GridCoord { x: 8, y: 1 },
        elapsed: ENTER_ROOM_TIME,
    };
    assert!(Game::restore(rooms(), s).is_none());
    s.transition = TransitionState::Entering {
        target_room: RoomColor::Red,
        entrance_side: RoomEntrance::Left,
        source_cell: GridCoord { x: 8, y: 1 },
        elapsed: ENTER_ROOM_TIME - 1,
    };
    assert!(Game::restore(rooms(), s).is_some());
}

#[test]
fn keys_set_the_controls() {
    let s = standing(5 * UNIT);
    let (s1, c) = apply_input(s, InputEvent::KeyDown(Key::A));
    assert!(s1.controls.left && !s1.controls.right);
    assert_eq!(c, None);
    let (s2, _) = apply_input(s1, InputEvent::KeyDown(Key::D));
    assert!(s2.controls.left && s2.controls.right);
    let (s3, _) = apply_input(s2, InputEvent::KeyUp(Key::A));
    assert!(!s3.controls.left && s3.controls.right);
    let (s4, _) = apply_input(s3, InputEvent::KeyUp(Key::D));
    assert!(!s4.controls.left && !s4.controls.right);
    assert_eq!(s4.controls.since_jump, LONG_AGO);
    let (s5, _) = apply_input(s4, InputEvent::KeyDown(Key::W));
    assert_eq!(s5.controls.since_jump, 0);
    let (s6, _) = apply_input(s4, InputEvent::KeyDown(Key::Space));
    assert_eq!(s6.controls.since_jump, 0);
    // Releasing the jump key, and other keys, change nothing.
    assert_eq!(apply_input(s4, InputEvent::KeyUp(Key::W)).0, s4);
    assert_eq!(apply_input(s4, InputEvent::KeyDown(Key::Q)).0, s4);
    assert_eq!(apply_input(s4, InputEvent::MouseWheel(at(1, 1))).0, s4);
    assert_eq!(apply_input(s4, InputEvent::MouseUp(MouseButton::Left)).0, s4);
}

#[test]
fn a_click_on_the_icon_mutes_the_music_and_brings_it_back() {
    let s = standing(5 * UNIT);
    // The mouse comes in from the top of the screen; the icon sits 8
    // pixels from the left and from the bottom of its 675.
    let (s1, c) = apply_input(s, InputEvent::MouseMove(at(10 * UNIT, 20 * UNIT)));
    assert_eq!(s1.mouse_pos, at(10 * UNIT, 655 * UNIT));
    assert_eq!(c, None);
    let (s2, c) = apply_input(s1, InputEvent::MouseDown(MouseButton::Left));
    assert!(s2.muted);
    assert_eq!(c, Some(AudioCommand::SetVolume { sound: Sound::Music, volume: 0 }));
    let (s3, c) = apply_input(s2, InputEvent::MouseDown(MouseButton::Left));
    assert!(!s3.muted);
    assert_eq!(c, Some(AudioCommand::SetVolume { sound: Sound::Music, volume: MUSIC_VOLUME }));
    // Other buttons, and clicks beside the icon, do nothing.
    let (s4, c) = apply_input(s1, InputEvent::MouseDown(MouseButton::Right));
    assert!(!s4.muted);
    assert_eq!(c, None);
    let (s5, _) = apply_input(s, InputEvent::MouseMove(at(26 * UNIT, 20 * UNIT)));
    let (s6, c) = apply_input(s5, InputEvent::MouseDown(MouseButton::Left));
    assert!(!s6.muted);
    assert_eq!(c, None);
    // The left and lower edge belong to the icon, the right and upper do not.
    let (s7, _) = apply_input(s, InputEvent::MouseMove(at(8 * UNIT, 675 * UNIT - 645 * UNIT)));
    assert!(apply_input(s7, InputEvent::MouseDown(MouseButton::Left)).0.muted);
    let (s8, _) = apply_input(s, InputEvent::MouseMove(at(8 * UNIT, 675 * UNIT - 667 * UNIT)));
    assert!(!apply_input(s8, InputEvent::MouseDown(MouseButton::Left)).0.muted);
}

#[test]
fn a_batch_of_inputs_is_applied_in_order() {
    let s = standing(5 * UNIT);
    let inputs = vec![
        InputEvent::MouseMove(at(10 * UNIT, 20 * UNIT)),
        InputEvent::MouseDown(MouseButton::Left),
        InputEvent::KeyDown(Key::D),
        InputEvent::MouseDown(MouseButton::Left),
        InputEvent::MouseDown(MouseButton::Left),
        InputEvent::KeyUp(Key::D),
        InputEvent::KeyDown(Key::A),
    ];
    let (after, commands) = hear(s, &inputs);
    assert!(after.muted);
    assert!(after.controls.left && !after.controls.right);
    assert_eq!(
        commands,
        vec![
            AudioCommand::SetVolume { sound: Sound::Music, volume: 0 },
            AudioCommand::SetVolume { sound: Sound::Music, volume: MUSIC_VOLUME },
            AudioCommand::SetVolume { sound: Sound::Music, volume: 0 },
        ]
    );
}

#[test]
fn running_starts_and_ends_the_footsteps() {
    let mut game = Game::restore(rooms(), standing(5 * UNIT)).unwrap();
    // First tick: the key goes down, the character is still at rest.
    let r = game.update(&vec![InputEvent::KeyDown(Key::D)]);
    assert_eq!(r.fault, None);
    assert!(r.commands.is_empty());
    assert_eq!(game.state().player.velocity, at(100_000, 0));
    assert_eq!(game.state().player.position, at(5 * UNIT + 1_666, UNIT + 30_000));
    assert!(!game.state().run_loop);
    // Second tick: it moves on the ground, the footsteps start.
    let r = game.update(&Vec::new());
    assert_eq!(r.commands, vec![play(Sound::Run, FULL_VOLUME, true)]);
    assert!(game.state().run_loop);
    assert_eq!(game.state().player.velocity, at(200_000, 0));
    // Third tick: nothing new.
    let r = game.update(&Vec::new());
    assert!(r.commands.is_empty());
    assert!(game.state().run_loop);
    // The key goes up: the character halts, the loop is taken from the footsteps.
    let r = game.update(&vec![InputEvent::KeyUp(Key::D)]);
    assert_eq!(
        r.commands,
        vec![
            play(Sound::Stop, HALT_VOLUME, false),
            AudioCommand::SetLooping { sound: Sound::Run, looping: false },
        ]
    );
    assert!(!game.state().run_loop);
    assert_eq!(game.state().player.velocity, at(225_000, 0));
}

#[test]
fn a_jump_from_the_ground_sounds_and_ends_the_footsteps_silently() {
    let mut s = standing(5 * UNIT);
    s.controls.right = true;
    s.player.velocity = at(200_000, 0);
    s.run_loop = true;
    let mut game = Game::restore(rooms(), s).unwrap();
    let r = game.update(&vec![InputEvent::KeyDown(Key::Space)]);
    assert_eq!(r.commands, vec![play(Sound::Jump, FULL_VOLUME, false)]);
    assert!(game.state().run_loop);
    assert_eq!(game.state().player.velocity, at(300_000, 660_000));
    // In the air the footsteps end, without the sound of a halt.
    let r = game.update(&Vec::new());
    assert_eq!(r.commands, vec![AudioCommand::SetLooping { sound: Sound::Run, looping: false }]);
    assert!(!game.state().run_loop);
}

#[test]
fn landing_sounds_once() {
    let mut s = standing(5 * UNIT);
    s.player.position = at(5 * UNIT, UNIT + 30_000 + 400);
    s.player.since_on_ground = 20_000;
    let mut game = Game::restore(rooms(), s).unwrap();
    let r = game.update(&Vec::new());
    assert_eq!(r.commands, vec![play(Sound::Land, FULL_VOLUME, false)]);
    assert_eq!(game.state().player.position, at(5 * UNIT, UNIT + 30_000));
    assert_eq!(game.state().player.since_on_ground, 0);
    let r = game.update(&Vec::new());
    assert!(r.commands.is_empty());
    assert_eq!(game.state().player.since_on_ground, 0);
}

#[test]
fn a_character_stuck_in_a_wall_is_reported_and_left_alone() {
    let mut s = standing(5 * UNIT);
    s.player.position = at(5 * UNIT, 20_000);
    let mut game = Game::restore(rooms(), s).unwrap();
    let r = game.update(&vec![InputEvent::KeyDown(Key::A)]);
    assert_eq!(r.fault, Some(SolverError::IterationCap));
    assert!(r.commands.is_empty());
    // The input was heard; the character is as it was.
    let mut expected = s;
    expected.controls.left = true;
    assert_eq!(game.state(), expected);
}

#[test]
fn touching_a_portal_from_the_left_starts_a_transition() {
    // The character stands left of the red portal at (8, 1), its body against it.
    let s = standing(8 * UNIT - 12_000);
    let all = rooms();
    let entering = detect_entry(&all, &all[7], &s.player);
    assert_eq!(
        entering,
        Some(TransitionState::Entering {
            target_room: RoomColor::Red,
            entrance_side: RoomEntrance::Left,
            source_cell: GridCoord { x: 8, y: 1 },
            elapsed: 0,
        })
    );
    // Two pixels further left the interaction rectangle no longer reaches it.
    assert_eq!(detect_entry(&all, &all[7], &standing(8 * UNIT - 14_001).player), None);
    assert!(detect_entry(&all, &all[7], &standing(8 * UNIT - 14_000).player).is_some());
    // From the right the red room cannot be entered: it has no entrance there.
    assert_eq!(detect_entry(&all, &all[7], &standing(9 * UNIT + 12_000).player), None);
    // The green room has no entrance at all.
    assert_eq!(detect_entry(&all, &all[7], &standing(3 * UNIT - 12_000).player), None);
    assert_eq!(detect_entry(&all, &all[7], &standing(4 * UNIT + 12_000).player), None);
}

#[test]
fn standing_on_a_portal_enters_through_the_top() {
    let all = rooms();
    // On top of the red portal: the red room has an entrance at the top.
    let mut s = standing(8 * UNIT + 30_000);
    s.player.position.y = 2 * UNIT + 30_000;
    assert_eq!(
        detect_entry(&all, &all[7], &s.player),
        Some(TransitionState::Entering {
            target_room: RoomColor::Red,
            entrance_side: RoomEntrance::Top,
            source_cell: GridCoord { x: 8, y: 1 },
            elapsed: 0,
        })
    );
    // On top of the green portal nothing happens.
    s.player.position.x = 3 * UNIT + 30_000;
    assert_eq!(detect_entry(&all, &all[7], &s.player), None);
}

#[test]
fn a_transition_hands_the_character_over_after_thirty_ticks() {
    let mut s = standing(7 * UNIT);
    s.controls.right = true;
    let mut game = Game::restore(rooms(), s).unwrap();
    // Run to the right until the portal is touched.
    let mut ticks = 0;
    let mut entered = Vec::new();
    while game.state().transition == TransitionState::Idle {
        let r = game.update(&Vec::new());
        assert_eq!(r.fault, None);
        entered = r.commands;
        ticks += 1;
        assert!(ticks < 100);
    }
    assert_eq!(
        game.state().transition,
        TransitionState::Entering {
            target_room: RoomColor::Red,
            entrance_side: RoomEntrance::Left,
            source_cell: GridCoord { x: 8, y: 1 },
            elapsed: 0,
        }
    );
    // The sound of entering plays, and the footsteps lose their loop.
    assert_eq!(
        entered,
        vec![
            play(Sound::Enter, FULL_VOLUME, false),
            AudioCommand::SetLooping { sound: Sound::Run, looping: false },
        ]
    );
    assert!(!game.state().run_loop);
    assert_eq!(game.state().player.position, at(8 * UNIT - 12_000, UNIT + 30_000));
    assert_eq!(game.state().current_room, RoomColor::Blue);
    let frozen = game.state().player;
    // For twenty-nine ticks the transition only advances; inputs are
    // heard, the character does not move.
    for tick in 1..30 {
        let r = game.update(&vec![InputEvent::KeyDown(Key::Space)]);
        assert_eq!(r.fault, None);
        assert!(r.commands.is_empty());
        let now = game.state();
        assert_eq!(
            now.transition,
            TransitionState::Entering {
                target_room: RoomColor::Red,
                entrance_side: RoomEntrance::Left,
                source_cell: GridCoord { x: 8, y: 1 },
                elapsed: tick * TICK,
            }
        );
        assert_eq!(now.player, frozen);
        assert_eq!(now.current_room, RoomColor::Blue);
        assert_eq!(now.controls.since_jump, 0);
    }
    // The thirtieth tick, half a second after the entry, hands over.
    let r = game.update(&Vec::new());
    assert_eq!(r.fault, None);
    assert!(r.commands.is_empty());
    let now = game.state();
    assert_eq!(now.transition, TransitionState::Idle);
    assert_eq!(now.current_room, RoomColor::Red);
    // The left entrance of the red room is the cell (0, 1): half a tile
    // in, standing on the cell's lower side.
    assert_eq!(now.player.position, at(30_000, UNIT + 30_000));
    assert_eq!(now.player.position.y + now.player.collision_rect.min.y, UNIT);
    assert_eq!(now.player.velocity, at(0, 0));
    // From the next tick on the character moves again, in the red room.
    let r = game.update(&vec![InputEvent::KeyUp(Key::D)]);
    assert_eq!(r.fault, None);
    assert_eq!(game.state().current_room, RoomColor::Red);
    assert_eq!(game.state().transition, TransitionState::Idle);
}

#[test]
fn the_rooms_of_a_game_can_be_read() {
    let game = Game::new(rooms()).unwrap().game;
    assert_eq!(
        game.room(RoomColor::Red).entrance(RoomEntrance::Left),
        Some(GridCoord { x: 0, y: 1 })
    );
    assert_eq!(
        game.room(RoomColor::Red).entrance(RoomEntrance::Top),
        Some(GridCoord { x: 7, y: 14 })
    );
    assert_eq!(game.room(RoomColor::Red).entrance(RoomEntrance::Right), None);
    assert_eq!(game.room(RoomColor::Green).entrance(RoomEntrance::Left), None);
}
