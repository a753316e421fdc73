//! The game: the rooms, the character, and what one tick makes of them.

use vstd::prelude::*;
use crate::character::{CharacterState, ControlState};
use crate::controller::{
    integrate, integrated, per_tick, FALL_SPEED, GRAVITY, RUN_SPEED,
};
use crate::geometry::{Rect, Vec2};
use crate::input::{InputEvent, Key, MouseButton};
use crate::scene::{compose, scene_of, Scene};
use crate::solver::{resolution, resolve, SolverError};
use crate::tilemap::{Room, RoomColor, RoomEntrance, ROOM_COUNT};
use crate::transition::{
    arrival, arrive, detect_entry, entry, TransitionState, CELL_LIMIT, ENTER_ROOM_TIME,
};
use crate::units::{clamp_to, clamped, COORD_LIMIT, TICK, UNIT};

verus! {

/// Width and height of the screen, in pixels.
pub const SCREEN_SIZE: (u32, u32) = (675, 675);

/// Edge of a tile, in pixels of the artwork.
pub const TILE_SIZE: i64 = 15;

/// Screen pixels per pixel of the artwork.
pub const ZOOM_LEVEL: i64 = 3;

/// Volume at which the music plays while it is not muted.
pub const MUSIC_VOLUME: i64 = 30_000;

/// Volume of a sound played as it was recorded.
pub const FULL_VOLUME: i64 = UNIT;

/// Volume of the sound of a character that comes to a halt.
pub const HALT_VOLUME: i64 = 30_000;

/// The sounds of the game.
#[derive(Clone, Copy, Debug, PartialEq, Eq, Structural)]
pub enum Sound {
    Run,
    Jump,
    Land,
    Stop,
    Enter,
    Music,
}

/// What the game asks of the audio mixer. A looping sound is ended by
/// taking its loop away, so that it plays out, never by stopping it.
#[derive(Clone, Copy, Debug, PartialEq, Eq, Structural)]
pub enum AudioCommand {
    Play { sound: Sound, volume: i64, looping: bool },
    SetLooping { sound: Sound, looping: bool },
    SetVolume { sound: Sound, volume: i64 },
}

/// Everything of the game that changes from tick to tick.
#[derive(Clone, Copy, Debug, PartialEq, Eq, Structural)]
pub struct GameState {
    pub current_room: RoomColor,
    pub transition: TransitionState,
    pub controls: ControlState,
    pub player: CharacterState,
    /// Whether the looping sound of footsteps plays.
    pub run_loop: bool,
    pub muted: bool,
    /// Where the mouse is, in raw units of a pixel, from the lower left
    /// corner of the screen.
    pub mouse_pos: Vec2,
}

/// What a tick hands to its caller.
#[derive(Debug)]
pub struct TickReport {
    /// What the audio mixer is to do, in order.
    pub commands: Vec<AudioCommand>,
    /// Set if the collision solver gave up; the character then stays where
    /// it stood before the tick.
    pub fault: Option<SolverError>,
}

/// What a tick makes of a state.
pub struct Outcome {
    pub state: GameState,
    pub commands: Seq<AudioCommand>,
    pub fault: Option<SolverError>,
}

/// The game.
#[derive(Debug)]
pub struct Game {
    rooms: Vec<Room>,
    state: GameState,
}

/// A game that has just started, and what the audio mixer is to do at
/// its start.
#[derive(Debug)]
pub struct Start {
    pub game: Game,
    pub commands: Vec<AudioCommand>,
}

/// The rectangle of the screen on which a click mutes the music or brings it back.
pub open spec fn mute_icon_rect() -> Rect {
    Rect {
        min: Vec2 { x: (8 * UNIT) as i64, y: (645 * UNIT) as i64 },
        max: Vec2 { x: (26 * UNIT) as i64, y: (667 * UNIT) as i64 },
    }
}

/// The state in which a game starts: in the blue room, the character at
/// rest two tiles from the lower left corner and long off the ground, no
/// key down, the music not muted.
pub open spec fn starting_state() -> GameState {
    GameState {
        current_room: RoomColor::Blue,
        transition: TransitionState::Idle,
        controls: ControlState { left: false, right: false, since_jump: 0 },
        player: CharacterState {
            position: Vec2 { x: (2 * UNIT) as i64, y: (2 * UNIT) as i64 },
            velocity: Vec2 { x: 0, y: 0 },
            since_on_ground: crate::units::LONG_AGO,
            flip: false,
            animation_timer: crate::character::ANIMATION_IDLE,
            collision_rect: crate::character::standard_collision_rect(),
            interact_rect: crate::character::standard_interact_rect(),
        },
        run_loop: false,
        muted: false,
        mouse_pos: Vec2 { x: 0, y: 0 },
    }
}

/// What the mixer is to do when a game starts: play the music, in a loop.
pub open spec fn starting_commands() -> Seq<AudioCommand> {
    seq![AudioCommand::Play { sound: Sound::Music, volume: MUSIC_VOLUME, looping: true }]
}

/// `commands`, with `command` added if `wanted`.
pub open spec fn with(commands: Seq<AudioCommand>, wanted: bool, command: AudioCommand) -> Seq<
    AudioCommand,
> {
    if wanted {
        commands.push(command)
    } else {
        commands
    }
}

/// Whether a state can be the state of a game.
pub open spec fn state_ok(rooms: Seq<Room>, s: GameState) -> bool {
    &&& s.player.wf()
    &&& -RUN_SPEED <= s.player.velocity.x <= RUN_SPEED
    &&& -FALL_SPEED + per_tick(GRAVITY as int) <= s.player.velocity.y <= FALL_SPEED
    &&& s.mouse_pos.bounded(2 * COORD_LIMIT)
    &&& match s.transition {
        TransitionState::Idle => true,
        TransitionState::Entering { target_room, entrance_side, source_cell, elapsed } => {
            &&& 0 <= elapsed < ENTER_ROOM_TIME
            &&& -CELL_LIMIT <= source_cell.x <= CELL_LIMIT
            &&& -CELL_LIMIT <= source_cell.y <= CELL_LIMIT
            &&& rooms[target_room.ordinal()].entrance_on(entrance_side) is Some
        },
    }
}

/// The state after one input event.
pub open spec fn after_input(s: GameState, e: InputEvent) -> GameState {
    match e {
        InputEvent::KeyDown(Key::W) | InputEvent::KeyDown(Key::Space) => GameState {
            controls: ControlState { since_jump: 0, ..s.controls },
            ..s
        },
        InputEvent::KeyDown(Key::A) => GameState {
            controls: ControlState { left: true, ..s.controls },
            ..s
        },
        InputEvent::KeyUp(Key::A) => GameState {
            controls: ControlState { left: false, ..s.controls },
            ..s
        },
        InputEvent::KeyDown(Key::D) => GameState {
            controls: ControlState { right: true, ..s.controls },
            ..s
        },
        InputEvent::KeyUp(Key::D) => GameState {
            controls: ControlState { right: false, ..s.controls },
            ..s
        },
        InputEvent::MouseMove(p) => GameState {
            mouse_pos: Vec2 {
                x: clamped(p.x as int, -COORD_LIMIT as int, COORD_LIMIT as int) as i64,
                y: (SCREEN_SIZE.1 * UNIT - clamped(
                    p.y as int,
                    -COORD_LIMIT as int,
                    COORD_LIMIT as int,
                )) as i64,
            },
            ..s
        },
        InputEvent::MouseDown(MouseButton::Left) => GameState {
            muted: if mute_icon_rect().holds(s.mouse_pos) {
                !s.muted
            } else {
                s.muted
            },
            ..s
        },
        _ => s,
    }
}

/// Whether an input event is a click on the mute icon.
pub open spec fn toggles_mute(s: GameState, e: InputEvent) -> bool {
    e == InputEvent::MouseDown(MouseButton::Left) && mute_icon_rect().holds(s.mouse_pos)
}

/// The volume of the music in a state.
pub open spec fn music_volume(s: GameState) -> i64 {
    if s.muted {
        0
    } else {
        MUSIC_VOLUME
    }
}

/// The state after a batch of input events.
pub open spec fn after_inputs(s: GameState, inputs: Seq<InputEvent>) -> GameState
    decreases inputs.len(),
{
    if inputs.len() == 0 {
        s
    } else {
        after_input(after_inputs(s, inputs.drop_last()), inputs.last())
    }
}

/// What a batch of input events asks of the mixer: the new volume of the
/// music after every click on the mute icon.
pub open spec fn input_commands(s: GameState, inputs: Seq<InputEvent>) -> Seq<AudioCommand>
    decreases inputs.len(),
{
    if inputs.len() == 0 {
        Seq::empty()
    } else {
        let before = after_inputs(s, inputs.drop_last());
        with(
            input_commands(s, inputs.drop_last()),
            toggles_mute(before, inputs.last()),
            AudioCommand::SetVolume {
                sound: Sound::Music,
                volume: music_volume(after_input(before, inputs.last())),
            },
        )
    }
}

/// The state after the hand-over that ends a transition: the character
/// stands at rest at the entrance of the target room, which is now the
/// current room.
pub open spec fn handed_over(
    rooms: Seq<Room>,
    s: GameState,
    target_room: RoomColor,
    entrance_side: RoomEntrance,
) -> GameState {
    GameState {
        current_room: target_room,
        transition: TransitionState::Idle,
        player: CharacterState {
            position: arrival(
                rooms[target_room.ordinal()].entrance_on(entrance_side)->0,
                s.player.collision_rect,
            ),
            velocity: Vec2 { x: 0, y: 0 },
            ..s.player
        },
        ..s
    }
}

/// Whether the footsteps are to sound: the player steers, and the
/// character moves on the ground.
pub open spec fn running(s: GameState) -> bool {
    s.controls.direction() != 0 && s.player.velocity.x != 0 && s.player.on_ground()
}

/// What a tick of an idle sequencer makes of a state: controller, solver,
/// then the search for a portal.
pub open spec fn simulated(rooms: Seq<Room>, s: GameState) -> Outcome {
    let room = rooms[s.current_room.ordinal()];
    let grounded = s.player.on_ground();
    let step = integrated(s.controls, s.player);
    match resolution(
        room,
        step.character.collision_rect,
        step.tentative,
        step.character.velocity,
        step.character.since_on_ground,
    ) {
        None => Outcome { state: s, commands: Seq::empty(), fault: Some(SolverError::IterationCap) },
        Some(contact) => {
            let player = CharacterState {
                position: contact.position,
                velocity: contact.velocity,
                since_on_ground: contact.since_on_ground,
                ..step.character
            };
            let entering = entry(rooms, room, player);
            let c0 = Seq::<AudioCommand>::empty();
            let c1 = with(
                c0,
                running(s) && !s.run_loop,
                AudioCommand::Play { sound: Sound::Run, volume: FULL_VOLUME, looping: true },
            );
            let c2 = with(
                c1,
                !running(s) && s.run_loop && grounded,
                AudioCommand::Play { sound: Sound::Stop, volume: HALT_VOLUME, looping: false },
            );
            let c3 = with(
                c2,
                !running(s) && s.run_loop,
                AudioCommand::SetLooping { sound: Sound::Run, looping: false },
            );
            let c4 = with(
                c3,
                step.jumped,
                AudioCommand::Play { sound: Sound::Jump, volume: FULL_VOLUME, looping: false },
            );
            let c5 = with(
                c4,
                !grounded && contact.since_on_ground == 0,
                AudioCommand::Play { sound: Sound::Land, volume: FULL_VOLUME, looping: false },
            );
            let c6 = with(
                c5,
                entering is Some,
                AudioCommand::Play { sound: Sound::Enter, volume: FULL_VOLUME, looping: false },
            );
            let c7 = with(
                c6,
                entering is Some && running(s),
                AudioCommand::SetLooping { sound: Sound::Run, looping: false },
            );
            Outcome {
                state: GameState {
                    controls: step.controls,
                    player,
                    transition: match entering {
                        Some(t) => t,
                        None => TransitionState::Idle,
                    },
                    run_loop: running(s) && entering is None,
                    ..s
                },
                commands: c7,
                fault: None,
            }
        },
    }
}

/// What a tick makes of a state that has heard its inputs: a running
/// transition only advances, and hands the character over once its time
/// is up; else the character is simulated.
pub open spec fn progressed(rooms: Seq<Room>, s: GameState) -> Outcome {
    match s.transition {
        TransitionState::Entering { target_room, entrance_side, source_cell, elapsed } => {
            if elapsed + TICK >= ENTER_ROOM_TIME {
                Outcome {
                    state: handed_over(rooms, s, target_room, entrance_side),
                    commands: Seq::empty(),
                    fault: None,
                }
            } else {
                Outcome {
                    state: GameState {
                        transition: TransitionState::Entering {
                            target_room,
                            entrance_side,
                            source_cell,
                            elapsed: (elapsed + TICK) as i64,
                        },
                        ..s
                    },
                    commands: Seq::empty(),
                    fault: None,
                }
            }
        },
        TransitionState::Idle => simulated(rooms, s),
    }
}

/// What one tick makes of a state and a batch of input events.
#[verifier::opaque]
pub open spec fn updated(rooms: Seq<Room>, s: GameState, inputs: Seq<InputEvent>) -> Outcome {
    let heard = after_inputs(s, inputs);
    let then = progressed(rooms, heard);
    Outcome {
        state: then.state,
        commands: input_commands(s, inputs) + then.commands,
        fault: then.fault,
    }
}


/// Input events reach the controls, the mouse and the mute switch only:
/// they move neither the character nor the sequencer.
pub proof fn inputs_keep_the_character(s: GameState, inputs: Seq<InputEvent>)
    ensures
        after_inputs(s, inputs).player == s.player,
        after_inputs(s, inputs).transition == s.transition,
        after_inputs(s, inputs).current_room == s.current_room,
        after_inputs(s, inputs).run_loop == s.run_loop,
    decreases inputs.len(),
{
    if inputs.len() > 0 {
        inputs_keep_the_character(s, inputs.drop_last());
    }
}

/// While a transition has time left, a tick only advances it by one tick:
/// the character and the room stay as they are, whatever the inputs, and
/// nothing is asked of the mixer but what the inputs ask.
pub proof fn transition_advances(rooms: Seq<Room>, s: GameState, inputs: Seq<InputEvent>)
    requires
        s.transition is Entering,
        s.transition->elapsed + TICK < ENTER_ROOM_TIME,
    ensures
        updated(rooms, s, inputs).state.transition == (TransitionState::Entering {
            target_room: s.transition->target_room,
            entrance_side: s.transition->entrance_side,
            source_cell: s.transition->source_cell,
            elapsed: (s.transition->elapsed + TICK) as i64,
        }),
        updated(rooms, s, inputs).state.player == s.player,
        updated(rooms, s, inputs).state.current_room == s.current_room,
        updated(rooms, s, inputs).commands == input_commands(s, inputs),
        updated(rooms, s, inputs).fault is None,
{
    reveal(updated);
    inputs_keep_the_character(s, inputs);
    assert(input_commands(s, inputs) + Seq::<AudioCommand>::empty() =~= input_commands(s, inputs));
}

/// The tick on which a transition reaches its duration hands the
/// character over: the sequencer is idle, the target room is the current
/// room, and the character stands at rest at the entrance of that room,
/// whatever the inputs.
pub proof fn transition_completes(rooms: Seq<Room>, s: GameState, inputs: Seq<InputEvent>)
    requires
        s.transition is Entering,
        s.transition->elapsed + TICK >= ENTER_ROOM_TIME,
    ensures
        updated(rooms, s, inputs).state.transition == TransitionState::Idle,
        updated(rooms, s, inputs).state.current_room == s.transition->target_room,
        updated(rooms, s, inputs).state.player.position == arrival(
            rooms[s.transition->target_room.ordinal()].entrance_on(
                s.transition->entrance_side,
            )->0,
            s.player.collision_rect,
        ),
        updated(rooms, s, inputs).state.player.velocity == (Vec2 { x: 0, y: 0 }),
        updated(rooms, s, inputs).fault is None,
{
    reveal(updated);
    inputs_keep_the_character(s, inputs);
}

/// A tick that leaves the character free leaves it to the controller: if
/// the body overlaps nothing at the tentative position, the solver
/// applies no correction. The character is at the tentative position
/// with the velocity that the controller gave it, and its ground timer
/// is not reset but one tick on, from where it stood, or from the coyote
/// time if a jump was honoured.
pub proof fn free_tick_is_the_controllers(rooms: Seq<Room>, s: GameState)
    requires
        !crate::solver::overlapping(
            rooms[s.current_room.ordinal()],
            s.player.collision_rect,
            integrated(s.controls, s.player).tentative,
        ),
        s.player.since_on_ground + TICK <= crate::units::TIMER_CEILING,
    ensures
        simulated(rooms, s).fault is None,
        simulated(rooms, s).state.player.position == integrated(s.controls, s.player).tentative,
        simulated(rooms, s).state.player.velocity == integrated(
            s.controls,
            s.player,
        ).character.velocity,
        simulated(rooms, s).state.player.since_on_ground == if integrated(
            s.controls,
            s.player,
        ).jumped {
            crate::controller::COYOTE_TIME + TICK
        } else {
            s.player.since_on_ground + TICK
        },
{
    let step = integrated(s.controls, s.player);
    crate::solver::resolve_keeps_a_free_body(
        rooms[s.current_room.ordinal()],
        step.character.collision_rect,
        step.tentative,
        step.character.velocity,
        step.character.since_on_ground,
    );
}

/// A tick that brings the character down on a floor sets it exactly on
/// the floor with one correction, and there is no push sideways: the
/// character keeps the place along x and the horizontal speed that the
/// controller gave it, loses its vertical speed, and counts as on the
/// ground.
///
/// The floor may be one cell or many. Where the body stands over two or
/// more cells, this holds however deep it lies in them, short of a tile
/// and of the depth from which the way down is shorter.
pub proof fn landing_tick_settles_the_character(rooms: Seq<Room>, s: GameState)
    requires
        crate::solver::body_ok(s.player.collision_rect),
        integrated(s.controls, s.player).tentative.bounded(crate::solver::REACH_LIMIT as int),
        crate::landing::on_a_floor(
            rooms[s.current_room.ordinal()],
            s.player.collision_rect,
            integrated(s.controls, s.player).tentative,
        ),
        crate::landing::depth(s.player.collision_rect, integrated(s.controls, s.player).tentative)
            < UNIT,
        crate::solver::probe(
            s.player.collision_rect,
            integrated(s.controls, s.player).tentative,
        ).first_column() < crate::solver::probe(
            s.player.collision_rect,
            integrated(s.controls, s.player).tentative,
        ).last_column() || crate::landing::depth(
            s.player.collision_rect,
            integrated(s.controls, s.player).tentative,
        ) < s.player.collision_rect.max.x - s.player.collision_rect.min.x - crate::solver::SKIN,
        2 * crate::landing::depth(
            s.player.collision_rect,
            integrated(s.controls, s.player).tentative,
        ) <= s.player.collision_rect.max.y - s.player.collision_rect.min.y + UNIT,
    ensures
        simulated(rooms, s).fault is None,
        simulated(rooms, s).state.player.position.x == integrated(
            s.controls,
            s.player,
        ).tentative.x,
        simulated(rooms, s).state.player.position.y + s.player.collision_rect.min.y == (
        crate::solver::probe(
            s.player.collision_rect,
            integrated(s.controls, s.player).tentative,
        ).first_row() + 1) * UNIT,
        simulated(rooms, s).state.player.velocity.x == integrated(
            s.controls,
            s.player,
        ).character.velocity.x,
        simulated(rooms, s).state.player.velocity.y == 0,
        simulated(rooms, s).state.player.since_on_ground == 0,
{
    let step = integrated(s.controls, s.player);
    crate::landing::landing_settles_on_the_floor(
        rooms[s.current_room.ordinal()],
        step.character.collision_rect,
        step.tentative,
        step.character.velocity,
        step.character.since_on_ground,
    );
}

/// After a tick in which the character was simulated, its velocity lies
/// within the running speed along x and, along y, between the falling
/// speed and one tick of gravity beyond it, and the falling speed.
pub proof fn velocity_stays_bounded(rooms: Seq<Room>, s: GameState)
    requires
        s.player.wf(),
        simulated(rooms, s).fault is None,
    ensures
        -RUN_SPEED <= simulated(rooms, s).state.player.velocity.x <= RUN_SPEED,
        -FALL_SPEED + per_tick(GRAVITY as int) <= simulated(rooms, s).state.player.velocity.y
            <= FALL_SPEED,
{
    let step = integrated(s.controls, s.player);
    let room = rooms[s.current_room.ordinal()];
    crate::controller::lemma_integrated_velocity(s.controls, s.player);
    crate::solver::lemma_resolved_velocity(
        room,
        step.character.collision_rect,
        crate::solver::Contact {
            position: step.tentative,
            velocity: step.character.velocity,
            since_on_ground: step.character.since_on_ground,
            corrections: 0,
        },
        crate::solver::MAX_PASSES as nat,
    );
}

/// Applies one input event to a state.
pub fn apply_input(s: GameState, e: InputEvent) -> (r: (GameState, Option<AudioCommand>))
    ensures
        r.0 == after_input(s, e),
        r.1 == if toggles_mute(s, e) {
            Some(AudioCommand::SetVolume { sound: Sound::Music, volume: music_volume(r.0) })
        } else {
            None
        },
        r.0.player == s.player,
        r.0.transition == s.transition,
        r.0.current_room == s.current_room,
        r.0.run_loop == s.run_loop,
        r.0.mouse_pos == s.mouse_pos || r.0.mouse_pos.bounded(2 * COORD_LIMIT),
{
    let mut next = s;
    let mut command: Option<AudioCommand> = None;
    match e {
        InputEvent::KeyDown(Key::W) | InputEvent::KeyDown(Key::Space) => {
            next.controls.since_jump = 0;
        },
        InputEvent::KeyDown(Key::A) => {
            next.controls.left = true;
        },
        InputEvent::KeyUp(Key::A) => {
            next.controls.left = false;
        },
        InputEvent::KeyDown(Key::D) => {
            next.controls.right = true;
        },
        InputEvent::KeyUp(Key::D) => {
            next.controls.right = false;
        },
        InputEvent::MouseMove(p) => {
            let x = clamp_to(p.x, -COORD_LIMIT, COORD_LIMIT);
            let y = clamp_to(p.y, -COORD_LIMIT, COORD_LIMIT);
            next.mouse_pos = Vec2 { x, y: 675 * UNIT - y };
        },
        InputEvent::MouseDown(MouseButton::Left) => {
            let icon = Rect {
                min: Vec2 { x: 8 * UNIT, y: 645 * UNIT },
                max: Vec2 { x: 26 * UNIT, y: 667 * UNIT },
            };
            if icon.contains(s.mouse_pos) {
                next.muted = !s.muted;
                let volume = if next.muted {
                    0
                } else {
                    MUSIC_VOLUME
                };
                command = Some(AudioCommand::SetVolume { sound: Sound::Music, volume });
            }
        },
        _ => {},
    }
    (next, command)
}

/// Applies a batch of input events to a state, in order.
pub fn hear(s: GameState, inputs: &[InputEvent]) -> (r: (GameState, Vec<AudioCommand>))
    ensures
        r.0 == after_inputs(s, inputs@),
        r.1@ == input_commands(s, inputs@),
        r.0.player == s.player,
        r.0.transition == s.transition,
        r.0.current_room == s.current_room,
        r.0.run_loop == s.run_loop,
        s.mouse_pos.bounded(2 * COORD_LIMIT) ==> r.0.mouse_pos.bounded(2 * COORD_LIMIT),
{
    let mut state = s;
    let mut commands: Vec<AudioCommand> = Vec::new();
    let mut k: usize = 0;
    while k < inputs.len()
        invariant
            k <= inputs@.len(),
            state == after_inputs(s, inputs@.take(k as int)),
            commands@ == input_commands(s, inputs@.take(k as int)),
            state.player == s.player,
            state.transition == s.transition,
            state.current_room == s.current_room,
            state.run_loop == s.run_loop,
            s.mouse_pos.bounded(2 * COORD_LIMIT) ==> state.mouse_pos.bounded(2 * COORD_LIMIT),
        decreases inputs@.len() - k,
    {
        proof {
            assert(inputs@.take(k + 1).drop_last() =~= inputs@.take(k as int));
            assert(inputs@.take(k + 1).last() == inputs@[k as int]);
        }
        let (next, command) = apply_input(state, inputs[k]);
        match command {
            Some(c) => {
                commands.push(c);
            },
            None => {},
        }
        state = next;
        k = k + 1;
    }
    assert(inputs@.take(k as int) =~= inputs@);
    (state, commands)
}

/// One tick of an idle sequencer: controller, solver, then the search for a portal.
pub fn simulate(rooms: &Vec<Room>, s: GameState) -> (r: (GameState, Vec<AudioCommand>, Option<
    SolverError,
>))
    requires
        rooms@.len() == ROOM_COUNT,
        state_ok(rooms@, s),
    ensures
        r.0 == simulated(rooms@, s).state,
        r.1@ == simulated(rooms@, s).commands,
        r.2 == simulated(rooms@, s).fault,
        state_ok(rooms@, r.0),
{
    let room = &rooms[s.current_room.index()];
    let grounded = s.player.since_on_ground == 0;
    let runs = s.controls.x_dir() != 0 && s.player.velocity.x != 0 && grounded;
    let step = integrate(s.controls, s.player);
    let mut commands: Vec<AudioCommand> = Vec::new();
    match resolve(
        room,
        step.character.collision_rect,
        step.tentative,
        step.character.velocity,
        step.character.since_on_ground,
    ) {
        Err(e) => (s, commands, Some(e)),
        Ok(contact) => {
            let player = CharacterState {
                position: contact.position,
                velocity: contact.velocity,
                since_on_ground: contact.since_on_ground,
                flip: step.character.flip,
                animation_timer: step.character.animation_timer,
                collision_rect: step.character.collision_rect,
                interact_rect: step.character.interact_rect,
            };
            let entering = detect_entry(rooms, room, &player);
            if runs && !s.run_loop {
                commands.push(
                    AudioCommand::Play { sound: Sound::Run, volume: FULL_VOLUME, looping: true },
                );
            }
            if !runs && s.run_loop && grounded {
                commands.push(
                    AudioCommand::Play { sound: Sound::Stop, volume: HALT_VOLUME, looping: false },
                );
            }
            if !runs && s.run_loop {
                commands.push(AudioCommand::SetLooping { sound: Sound::Run, looping: false });
            }
            if step.jumped {
                commands.push(
                    AudioCommand::Play { sound: Sound::Jump, volume: FULL_VOLUME, looping: false },
                );
            }
            if !grounded && contact.since_on_ground == 0 {
                commands.push(
                    AudioCommand::Play { sound: Sound::Land, volume: FULL_VOLUME, looping: false },
                );
            }
            if entering.is_some() {
                commands.push(
                    AudioCommand::Play { sound: Sound::Enter, volume: FULL_VOLUME, looping: false },
                );
            }
            if entering.is_some() && runs {
                commands.push(AudioCommand::SetLooping { sound: Sound::Run, looping: false });
            }
            let transition = match entering {
                Some(t) => t,
                None => TransitionState::Idle,
            };
            let next = GameState {
                current_room: s.current_room,
                transition,
                controls: step.controls,
                player,
                run_loop: runs && entering.is_none(),
                muted: s.muted,
                mouse_pos: s.mouse_pos,
            };
            (next, commands, None)
        },
    }
}

/// One tick of a state that has heard its inputs.
pub fn progress(rooms: &Vec<Room>, s: GameState) -> (r: (GameState, Vec<AudioCommand>, Option<
    SolverError,
>))
    requires
        rooms@.len() == ROOM_COUNT,
        state_ok(rooms@, s),
    ensures
        r.0 == progressed(rooms@, s).state,
        r.1@ == progressed(rooms@, s).commands,
        r.2 == progressed(rooms@, s).fault,
        state_ok(rooms@, r.0),
{
    match s.transition {
        TransitionState::Entering { target_room, entrance_side, source_cell, elapsed } => {
            let mut next = s;
            if elapsed + TICK >= ENTER_ROOM_TIME {
                let target = &rooms[target_room.index()];
                proof {
                    use_type_invariant(target);
                    assert(target.entrance_fits(entrance_side));
                }
                match target.entrance(entrance_side) {
                    Some(at) => {
                        next.current_room = target_room;
                        next.transition = TransitionState::Idle;
                        next.player.position = arrive(at, s.player.collision_rect);
                        next.player.velocity = Vec2 { x: 0, y: 0 };
                    },
                    None => {},
                }
            } else {
                next.transition =
                TransitionState::Entering {
                    target_room,
                    entrance_side,
                    source_cell,
                    elapsed: elapsed + TICK,
                };
            }
            (next, Vec::new(), None)
        },
        TransitionState::Idle => simulate(rooms, s),
    }
}

impl Game {
    /// The rooms of the game, by the ordinal of their colour.
    pub closed spec fn rooms(&self) -> Seq<Room> {
        self.rooms@
    }

    /// The state of the game.
    pub closed spec fn view(&self) -> GameState {
        self.state
    }

    /// There is one room of every colour, and the state fits them. This
    /// holds of every game that the program holds.
    #[verifier::type_invariant]
    pub open spec fn wf(&self) -> bool {
        &&& self.rooms().len() == ROOM_COUNT
        &&& state_ok(self.rooms(), self@)
    }

    /// Starts a game: in the blue room, the character at rest two tiles
    /// from its lower left corner, and the music to be played in a loop.
    /// `rooms` holds the room of every colour, by the ordinal of the
    /// colour; with any other number of rooms there is no game.
    pub fn new(rooms: Vec<Room>) -> (start: Option<Start>)
        ensures
            start is Some <==> rooms@.len() == ROOM_COUNT,
            start is Some ==> {
                &&& start->0.game.rooms() == rooms@
                &&& start->0.game@ == starting_state()
                &&& start->0.commands@ == starting_commands()
            },
    {
        if rooms.len() != ROOM_COUNT {
            return None;
        }
        let state = GameState {
            current_room: RoomColor::Blue,
            transition: TransitionState::Idle,
            controls: ControlState { left: false, right: false, since_jump: 0 },
            player: CharacterState::new(Vec2 { x: 2 * UNIT, y: 2 * UNIT }),
            run_loop: false,
            muted: false,
            mouse_pos: Vec2 { x: 0, y: 0 },
        };
        let mut commands: Vec<AudioCommand> = Vec::new();
        commands.push(
            AudioCommand::Play { sound: Sound::Music, volume: MUSIC_VOLUME, looping: true },
        );
        assert(commands@ =~= starting_commands());
        Some(Start { game: Game { rooms, state }, commands })
    }

    /// A game in a given state, if the rooms are one of every colour and
    /// the state fits them.
    pub fn restore(rooms: Vec<Room>, state: GameState) -> (g: Option<Game>)
        ensures
            g is Some <==> rooms@.len() == ROOM_COUNT && state_ok(rooms@, state),
            g is Some ==> g->0.rooms() == rooms@ && g->0@ == state,
    {
        if rooms.len() != ROOM_COUNT {
            return None;
        }
        let fall = -FALL_SPEED - 30_000;
        assert(fall == -FALL_SPEED + per_tick(GRAVITY as int));
        let moves = -RUN_SPEED <= state.player.velocity.x && state.player.velocity.x <= RUN_SPEED
            && fall <= state.player.velocity.y && state.player.velocity.y <= FALL_SPEED;
        let sequencer = match state.transition {
            TransitionState::Idle => true,
            TransitionState::Entering { target_room, entrance_side, source_cell, elapsed } => {
                0 <= elapsed && elapsed < ENTER_ROOM_TIME && -CELL_LIMIT <= source_cell.x
                    && source_cell.x <= CELL_LIMIT && -CELL_LIMIT <= source_cell.y && source_cell.y
                    <= CELL_LIMIT && rooms[target_room.index()].entrance(entrance_side).is_some()
            },
        };
        if state.player.is_valid() && moves
            && state.mouse_pos.within(2 * COORD_LIMIT) && sequencer {
            Some(Game { rooms, state })
        } else {
            None
        }
    }

    /// The state of the game.
    pub fn state(&self) -> (s: GameState)
        ensures
            s == self@,
    {
        self.state
    }

    /// The room of a colour.
    pub fn room(&self, color: RoomColor) -> (r: &Room)
        ensures
            *r == self.rooms()[color.ordinal()],
    {
        proof {
            use_type_invariant(self);
        }
        &self.rooms[color.index()]
    }

    /// What the next frame shows of the game.
    pub fn draw(&self) -> (scene: Scene)
        ensures
            scene == scene_of(self.rooms(), self@),
    {
        proof {
            use_type_invariant(self);
        }
        compose(&self.rooms, &self.state)
    }

    /// One tick of the game.
    ///
    /// The input events are applied first. While a transition runs, the
    /// tick only advances it, and hands the character over to the target
    /// room when its time is up. Else the controller moves the character,
    /// the solver frees it from the walls, and a portal that it then
    /// touches from an open side starts a transition. If the solver gives
    /// up, the report says so and the character stays as it was.
    pub fn update(&mut self, inputs: &[InputEvent]) -> (report: TickReport)
        ensures
            final(self).rooms() == old(self).rooms(),
            final(self)@ == updated(old(self).rooms(), old(self)@, inputs@).state,
            report.commands@ == updated(old(self).rooms(), old(self)@, inputs@).commands,
            report.fault == updated(old(self).rooms(), old(self)@, inputs@).fault,
            -RUN_SPEED <= final(self)@.player.velocity.x <= RUN_SPEED,
            -FALL_SPEED + per_tick(GRAVITY as int) <= final(self)@.player.velocity.y
                <= FALL_SPEED,
    {
        proof {
            use_type_invariant(&*self);
            reveal(updated);
        }
        let (heard, mut commands) = hear(self.state, inputs);
        let (next, mut more, fault) = progress(&self.rooms, heard);
        commands.append(&mut more);
        self.state = next;
        TickReport { commands, fault }
    }
}

} // verus!
