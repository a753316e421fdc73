//! The fixed-step scheduler: turns the uneven time between frames into
//! whole simulation ticks.

use vstd::prelude::*;
use crate::game::{
    transition_advances, transition_completes, updated, Game, GameState, TickReport,
};
use crate::geometry::Vec2;
use crate::input::InputEvent;
use crate::tilemap::Room;
use crate::transition::{arrival, TransitionState};
use crate::units::TICK;

verus! {

/// The most time that the scheduler keeps for later: five ticks. What a
/// frame brings beyond that is dropped.
pub const MAX_BACKLOG: i64 = 5 * TICK;

/// The time that is not yet simulated, and the input events that no tick
/// has consumed yet.
#[derive(Debug)]
pub struct FixedStep {
    accumulator: i64,
    pending: Vec<InputEvent>,
}

/// The backlog after a frame of `dt` was added: their sum, held to
/// `MAX_BACKLOG`. A negative `dt` counts as zero.
pub open spec fn filled(backlog: int, dt: int) -> int {
    let sum = backlog + if dt > 0 {
        dt
    } else {
        0
    };
    if sum > MAX_BACKLOG {
        MAX_BACKLOG as int
    } else {
        sum
    }
}

/// The number of ticks that a backlog pays for: one for every full tick
/// in it, as long as more than one tick is left.
pub open spec fn ticks_due(backlog: int) -> int {
    if backlog > TICK {
        (backlog - 1) / (TICK as int)
    } else {
        0
    }
}

/// The input events that tick `k` of a frame consumes: the first tick all
/// that are pending, every later tick none.
pub open spec fn inputs_of_tick(first: Seq<InputEvent>, k: int) -> Seq<InputEvent> {
    if k == 0 {
        first
    } else {
        Seq::empty()
    }
}

/// The state of the game after `n` ticks of a frame.
pub open spec fn state_after(rooms: Seq<Room>, s: GameState, first: Seq<InputEvent>, n: nat) -> GameState
    decreases n,
{
    if n == 0 {
        s
    } else {
        updated(
            rooms,
            state_after(rooms, s, first, (n - 1) as nat),
            inputs_of_tick(first, n - 1),
        ).state
    }
}

/// A transition takes thirty ticks, half a second: for twenty-nine ticks
/// after the tick that started it the character and the room stay as they
/// are while the time of the transition runs; the thirtieth tick hands
/// the character over, at rest, to the entrance of the target room.
/// The inputs that the ticks consume make no difference to this.
pub proof fn transition_takes_thirty_ticks(
    rooms: Seq<Room>,
    s: GameState,
    first: Seq<InputEvent>,
    n: nat,
)
    requires
        s.transition is Entering,
        s.transition->elapsed == 0,
        n <= 30,
    ensures
        n < 30 ==> {
            &&& state_after(rooms, s, first, n).transition == (TransitionState::Entering {
                target_room: s.transition->target_room,
                entrance_side: s.transition->entrance_side,
                source_cell: s.transition->source_cell,
                elapsed: (n * TICK) as i64,
            })
            &&& state_after(rooms, s, first, n).player == s.player
            &&& state_after(rooms, s, first, n).current_room == s.current_room
        },
        n == 30 ==> {
            &&& state_after(rooms, s, first, n).transition == TransitionState::Idle
            &&& state_after(rooms, s, first, n).current_room == s.transition->target_room
            &&& state_after(rooms, s, first, n).player.position == arrival(
                rooms[s.transition->target_room.ordinal()].entrance_on(
                    s.transition->entrance_side,
                )->0,
                s.player.collision_rect,
            )
            &&& state_after(rooms, s, first, n).player.velocity == (Vec2 { x: 0, y: 0 })
        },
    decreases n,
{
    if n > 0 {
        let before = state_after(rooms, s, first, (n - 1) as nat);
        transition_takes_thirty_ticks(rooms, s, first, (n - 1) as nat);
        if n < 30 {
            transition_advances(rooms, before, inputs_of_tick(first, n - 1));
        } else {
            transition_completes(rooms, before, inputs_of_tick(first, n - 1));
        }
    }
}

/// The two lists of input events, one after the other.
fn join(a: &Vec<InputEvent>, b: &[InputEvent]) -> (all: Vec<InputEvent>)
    ensures
        all@ == a@ + b@,
{
    let mut all: Vec<InputEvent> = Vec::new();
    let mut i: usize = 0;
    while i < a.len()
        invariant
            i <= a@.len(),
            all@ == a@.take(i as int),
        decreases a@.len() - i,
    {
        all.push(a[i]);
        proof {
            assert(all@ =~= a@.take(i + 1));
        }
        i = i + 1;
    }
    assert(all@ =~= a@);
    let mut j: usize = 0;
    while j < b.len()
        invariant
            j <= b@.len(),
            all@ == a@ + b@.take(j as int),
        decreases b@.len() - j,
    {
        all.push(b[j]);
        proof {
            assert(all@ =~= a@ + b@.take(j + 1));
        }
        j = j + 1;
    }
    assert(all@ =~= a@ + b@);
    all
}

/// Paying whole ticks out of a backlog until no more than one tick is
/// left pays exactly the ticks that were due.
proof fn lemma_ticks_due(total: int, left: int, n: int)
    requires
        0 <= left <= total <= MAX_BACKLOG,
        n >= 0,
        left == total - n * TICK,
        left <= TICK,
        n > 0 ==> left > 0,
    ensures
        n == ticks_due(total),
        n <= 4,
{
    assert(n * 1000 == total - left);
    if total > TICK {
        assert(n >= 1);
        vstd::arithmetic::div_mod::lemma_fundamental_div_mod_converse(
            total - 1,
            1000,
            n,
            left - 1,
        );
    }
}

impl FixedStep {
    /// The time that is not yet simulated.
    pub closed spec fn backlog(&self) -> int {
        self.accumulator as int
    }

    /// The input events that no tick has consumed yet.
    pub closed spec fn pending(&self) -> Seq<InputEvent> {
        self.pending@
    }

    /// The backlog never exceeds its limit and is never negative.
    #[verifier::type_invariant]
    pub open spec fn wf(&self) -> bool {
        0 <= self.backlog() <= MAX_BACKLOG
    }

    /// A scheduler with nothing left to simulate.
    pub fn new() -> (f: FixedStep)
        ensures
            f.backlog() == 0,
            f.pending() == Seq::<InputEvent>::empty(),
    {
        FixedStep { accumulator: 0, pending: Vec::new() }
    }

    /// The time that is not yet simulated.
    pub fn time_left(&self) -> (t: i64)
        ensures
            t == self.backlog(),
    {
        self.accumulator
    }

    /// The number of input events that no tick has consumed yet.
    pub fn events_left(&self) -> (n: usize)
        ensures
            n == self.pending().len(),
    {
        self.pending.len()
    }

    /// Takes in one frame: `dt` of time and the input events that came
    /// with it, and runs the ticks that are due.
    ///
    /// The first tick consumes every pending input event, the later ticks
    /// none. A frame without a tick keeps its events for the next. One
    /// report comes back for every tick, in order.
    pub fn advance(&mut self, game: &mut Game, dt: i64, inputs: &[InputEvent]) -> (reports: Vec<
        TickReport,
    >)
        ensures
            reports@.len() == ticks_due(filled(old(self).backlog(), dt as int)),
            reports@.len() <= 4,
            final(self).backlog() == filled(old(self).backlog(), dt as int) - reports@.len()
                * TICK,
            final(self).pending() == if reports@.len() == 0 {
                old(self).pending() + inputs@
            } else {
                Seq::empty()
            },
            final(game).rooms() == old(game).rooms(),
            final(game)@ == state_after(
                old(game).rooms(),
                old(game)@,
                old(self).pending() + inputs@,
                reports@.len() as nat,
            ),
            forall|k: int|
                0 <= k < reports@.len() ==> {
                    let before = state_after(
                        old(game).rooms(),
                        old(game)@,
                        old(self).pending() + inputs@,
                        k as nat,
                    );
                    let tick = updated(
                        old(game).rooms(),
                        before,
                        inputs_of_tick(old(self).pending() + inputs@, k),
                    );
                    &&& (#[trigger] reports@[k]).commands@ == tick.commands
                    &&& reports@[k].fault == tick.fault
                },
    {
        proof {
            use_type_invariant(&*self);
        }
        let ghost rooms = game.rooms();
        let ghost start = game@;
        let ghost first = self.pending@ + inputs@;
        let mut pending = join(&self.pending, inputs);
        let gain: i64 = if dt > 0 {
            dt
        } else {
            0
        };
        let mut left: i64 = if gain > MAX_BACKLOG - self.accumulator {
            MAX_BACKLOG
        } else {
            self.accumulator + gain
        };
        let ghost total = left;
        let ghost mut paid: int = 0;
        let mut reports: Vec<TickReport> = Vec::new();
        while left > TICK
            invariant
                0 <= left <= total <= MAX_BACKLOG,
                left == total - paid,
                paid == reports@.len() * TICK,
                reports@.len() > 0 ==> left > 0,
                game.rooms() == rooms,
                game@ == state_after(rooms, start, first, reports@.len() as nat),
                pending@ == inputs_of_tick(first, reports@.len() as int),
                forall|k: int|
                    0 <= k < reports@.len() ==> {
                        let before = state_after(rooms, start, first, k as nat);
                        let tick = updated(rooms, before, inputs_of_tick(first, k));
                        &&& (#[trigger] reports@[k]).commands@ == tick.commands
                        &&& reports@[k].fault == tick.fault
                    },
            decreases left,
        {
            let report = game.update(pending.as_slice());
            left = left - TICK;
            pending.clear();
            proof {
                assert((reports@.len() + 1) * TICK == reports@.len() * TICK + TICK)
                    by (nonlinear_arith);
                paid = paid + TICK;
            }
            reports.push(report);
        }
        proof {
            lemma_ticks_due(total as int, left as int, reports@.len() as int);
        }
        self.accumulator = left;
        self.pending = pending;
        reports
    }
}

} // verus!
