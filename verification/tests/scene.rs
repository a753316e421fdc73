use tile_platformer::character::{CharacterState, ControlState};
use tile_platformer::game::{Game, GameState};
use tile_platformer::geometry::{GridCoord, Vec2};
use tile_platformer::layout::parse_room;
use tile_platformer::scene::{compose, lerp, Incoming, Scene};
use tile_platformer::tilemap::{Room, RoomColor, RoomEntrance};
use tile_platformer::transition::TransitionState;
use tile_platformer::units::{LONG_AGO, PIXEL, UNIT};

fn at(x: i64, y: i64) -> Vec2 {
    Vec2 { x, y }
}

fn room_of(lines: &[&str]) -> Room {
    let mut text = String::new();
    for line in lines {
        text.push_str(line);
        text.push('\n');
    }
    parse_room(&text).unwrap()
}

/// Every room has a floor, a portal to the red room at (8, 1), and is
/// open on the left, on the right and at the top.
fn rooms() -> Vec<Room> {
    let mut rooms = Vec::new();
    for _ in 0..11 {
        let mut lines = vec!["####### #######"];
        lines.extend(vec!["               "; 12]);
        lines.push("        R      ");
        lines.push("###############");
        rooms.push(room_of(&lines));
    }
    rooms
}

fn entering(side: RoomEntrance, elapsed: i64) -> GameState {
    let mut player = CharacterState::new(at(8 * UNIT - 12_000, UNIT + 30_000));
    player.since_on_ground = 0;
    player.flip = true;
    GameState {
        current_room: RoomColor::Blue,
        transition: TransitionState::Entering {
            target_room: RoomColor::Red,
            entrance_side: side,
            source_cell: GridCoord { x: 8, y: 1 },
            elapsed,
        },
        controls: ControlState { left: false, right: false, since_jump: LONG_AGO },
        player,
        run_loop: false,
        muted: true,
        mouse_pos: at(0, 0),
    }
}

#[test]
fn lerp_blends_and_rounds_toward_the_start() {
    assert_eq!(lerp(0, 10, 20), 10);
    assert_eq!(lerp(UNIT, 10, 20), 20);
    assert_eq!(lerp(UNIT / 2, 10, 20), 15);
    assert_eq!(lerp(UNIT / 2, 20, 10), 15);
    assert_eq!(lerp(UNIT / 3, 0, 10), 3);
    assert_eq!(lerp(UNIT / 3, 0, -10), -3);
    assert_eq!(lerp(UNIT / 3, 10, 0), 7);
    assert_eq!(lerp(1, 0, UNIT - 1), 0);
    assert_eq!(lerp(UNIT - 1, 0, 1), 0);
}

#[test]
fn an_idle_game_shows_the_whole_room() {
    let game = Game::new(rooms()).unwrap().game;
    assert_eq!(
        game.draw(),
        Scene {
            room: RoomColor::Blue,
            player_frame: 0,
            player_flip: false,
            player_position: at(2 * UNIT, 2 * UNIT),
            player_scale: UNIT,
            camera_min: at(0, 0),
            camera_max: at(15 * UNIT, 15 * UNIT),
            incoming: None,
            muted: false,
        }
    );
}

#[test]
fn a_transition_starts_from_what_the_idle_game_shows() {
    let all = rooms();
    let scene = compose(&all, &entering(RoomEntrance::Left, 0));
    assert_eq!(
        scene,
        Scene {
            room: RoomColor::Blue,
            player_frame: 0,
            player_flip: true,
            player_position: at(8 * UNIT - 12_000, UNIT + 30_000),
            player_scale: UNIT,
            camera_min: at(0, 0),
            camera_max: at(15 * UNIT, 15 * UNIT),
            incoming: Some(Incoming {
                room: RoomColor::Red,
                cell: GridCoord { x: 8, y: 1 },
                alpha: 0
            }),
            muted: true,
        }
    );
    // The character holds still for the first quarter.
    let scene = compose(&all, &entering(RoomEntrance::Left, 7_500));
    assert_eq!(scene.player_position, at(8 * UNIT - 12_000, UNIT + 30_000));
    assert_eq!(scene.player_scale, UNIT);
    assert_eq!(scene.camera_min, at(2 * UNIT, UNIT / 4));
}

#[test]
fn halfway_the_character_has_half_shrunk_and_the_camera_is_halfway() {
    let all = rooms();
    let scene = compose(&all, &entering(RoomEntrance::Left, 15_000));
    // The left entrance of the red room is (0, 1). Inside the portal
    // cell (8, 1) a tile is a pixel: the character will stand half a
    // pixel in and a pixel and a half up; it waits two pixels left of that.
    let inside = at(8 * UNIT + PIXEL / 2, UNIT + PIXEL + PIXEL / 2);
    let outside = at(inside.x - 2 * PIXEL, inside.y);
    assert_eq!(inside, at(482_000, 66_000));
    assert_eq!(scene.player_position, at((468_000 + outside.x) / 2, (90_000 + outside.y) / 2));
    assert_eq!(scene.player_position, at(471_000, 78_000));
    assert_eq!(scene.player_scale, (UNIT + PIXEL) / 2);
    assert_eq!(scene.camera_min, at(4 * UNIT, UNIT / 2));
    assert_eq!(scene.camera_max, at(12 * UNIT, 8 * UNIT + UNIT / 2));
    // The room behind the portal starts to show only now.
    assert_eq!(scene.incoming.unwrap().alpha, 0);
    let scene = compose(&all, &entering(RoomEntrance::Left, 15_500));
    assert_eq!(scene.incoming.unwrap().alpha, 2_000);
}

#[test]
fn in_the_last_quarter_the_character_moves_on_into_the_portal() {
    let all = rooms();
    let scene = compose(&all, &entering(RoomEntrance::Left, 22_500));
    assert_eq!(scene.player_position, at(474_000, 66_000));
    assert_eq!(scene.player_scale, PIXEL);
    assert_eq!(scene.incoming.unwrap().alpha, UNIT / 2);
    assert_eq!(scene.camera_min, at(6 * UNIT, 45_000));
    let scene = compose(&all, &entering(RoomEntrance::Left, 29_000));
    // 6.5 of 7.5 thousandths of the way over eight thousand units.
    assert_eq!(scene.player_position, at(474_000 + 6_933, 66_000));
    assert_eq!(scene.player_scale, PIXEL);
    assert_eq!(scene.incoming.unwrap().alpha, 56_000);
    assert_eq!(scene.camera_min, at(464_000, 58_000));
    assert_eq!(scene.camera_max, at(552_000, 146_000));
}

#[test]
fn the_character_waits_on_the_side_of_the_entrance() {
    let all = rooms();
    // The top entrance of the red room is (7, 14), its right one (14, 1).
    let scene = compose(&all, &entering(RoomEntrance::Top, 22_500));
    let inside = at(8 * UNIT + 7 * PIXEL + PIXEL / 2, UNIT + 14 * PIXEL + PIXEL / 2);
    assert_eq!(scene.player_position, at(inside.x, inside.y + 2 * PIXEL));
    let scene = compose(&all, &entering(RoomEntrance::Right, 22_500));
    let inside = at(8 * UNIT + 14 * PIXEL + PIXEL / 2, UNIT + PIXEL + PIXEL / 2);
    assert_eq!(scene.player_position, at(inside.x + 2 * PIXEL, inside.y));
}
