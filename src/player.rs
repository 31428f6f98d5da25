use vstd::prelude::*;
use crate::input::{has_bits, intent_bit, Intent, InputSet};

verus! {

/// Distance moved along one axis per tick of held direction, in hundredths
/// of a world unit.
pub const MOVE_SPEED: i64 = 13;

/// The largest coordinate magnitude a step is defined on.
pub const POSITION_LIMIT: i64 = 0x4000_0000_0000_0000;

/// The slot of one simulated actor: which entry of the per-tick inputs is its own.
#[derive(Clone, Copy, Debug, PartialEq, Eq, Structural)]
pub struct Player {
    pub handle: usize,
}

/// The rolled-back state of one actor: its position, in hundredths of a world unit.
#[derive(Clone, Copy, Debug, PartialEq, Eq, Structural)]
pub struct ActorState {
    pub x: i64,
    pub y: i64,
}

/// Whether the input holds the given intent.
pub open spec fn holds(input: InputSet, i: Intent) -> bool {
    has_bits(input.0, intent_bit(i))
}

pub open spec fn axis(plus: bool, minus: bool) -> int {
    (if plus { 1int } else { 0int }) - (if minus { 1int } else { 0int })
}

/// Horizontal direction: down-right pushes right, down-left pushes left.
pub open spec fn delta_x(input: InputSet) -> int {
    axis(holds(input, Intent::DownRight), holds(input, Intent::DownLeft))
}

/// Vertical direction: up and down-right each push up, down pushes down.
pub open spec fn delta_y(input: InputSet) -> int {
    axis(holds(input, Intent::Up), holds(input, Intent::Down)) + (if holds(
        input,
        Intent::DownRight,
    ) {
        1int
    } else {
        0int
    })
}

impl ActorState {
    pub open spec fn in_bounds(self) -> bool {
        -POSITION_LIMIT <= self.x <= POSITION_LIMIT && -POSITION_LIMIT <= self.y <= POSITION_LIMIT
    }
}

/// One tick for one actor, on mathematical positions.
pub open spec fn step(x: int, y: int, input: InputSet) -> (int, int) {
    if delta_x(input) == 0 && delta_y(input) == 0 {
        (x, y)
    } else {
        (x + delta_x(input) * MOVE_SPEED, y + delta_y(input) * MOVE_SPEED)
    }
}

/// The position after applying each input of the sequence in turn.
pub open spec fn run(x: int, y: int, inputs: Seq<InputSet>) -> (int, int)
    decreases inputs.len(),
{
    if inputs.len() == 0 {
        (x, y)
    } else {
        let p = run(x, y, inputs.drop_last());
        step(p.0, p.1, inputs.last())
    }
}

/// The per-tick direction that an input asks for: each held direction bit adds
/// its own unit component.
pub fn movement_delta(input: InputSet) -> (r: (i64, i64))
    ensures
        r.0 == delta_x(input),
        r.1 == delta_y(input),
{
    let mut dx: i64 = 0;
    let mut dy: i64 = 0;
    if input.contains(Intent::Up.input_set()) {
        dy = dy + 1;
    }
    if input.contains(Intent::Down.input_set()) {
        dy = dy - 1;
    }
    if input.contains(Intent::DownRight.input_set()) {
        dx = dx + 1;
        dy = dy + 1;
    }
    if input.contains(Intent::DownLeft.input_set()) {
        dx = dx - 1;
    }
    (dx, dy)
}

/// Advances one actor by one tick, from its own entry of the per-player inputs.
/// A zero direction leaves the state as it was.
pub fn advance(prev: ActorState, player: Player, inputs: &Vec<InputSet>) -> (r: ActorState)
    requires
        player.handle < inputs.len(),
        prev.in_bounds(),
    ensures
        (r.x as int, r.y as int) == step(prev.x as int, prev.y as int, inputs@[player.handle as int]),
{
    let input = inputs[player.handle];
    let (dx, dy) = movement_delta(input);
    if dx == 0 && dy == 0 {
        return prev;
    }
    ActorState { x: prev.x + dx * MOVE_SPEED, y: prev.y + dy * MOVE_SPEED }
}

/// One tick for every actor, each from the input of its own slot.
pub open spec fn tick_all(actors: Seq<(Player, ActorState)>, inputs: Seq<InputSet>) -> Seq<(Player, ActorState)> {
    actors.map_values(|a: (Player, ActorState)| {
        let p = step(a.1.x as int, a.1.y as int, inputs[a.0.handle as int]);
        (a.0, ActorState { x: p.0 as i64, y: p.1 as i64 })
    })
}

/// The actors after one `tick_all` per entry of `ticks`, in order.
pub open spec fn run_all(actors: Seq<(Player, ActorState)>, ticks: Seq<Seq<InputSet>>) -> Seq<(Player, ActorState)>
    decreases ticks.len(),
{
    if ticks.len() == 0 {
        actors
    } else {
        tick_all(run_all(actors, ticks.drop_last()), ticks.last())
    }
}

/// Replaying every actor from a saved tick: the ticks up to the save, then the
/// rest, end where running all ticks at once ends.
pub proof fn lemma_replay_all(
    actors: Seq<(Player, ActorState)>,
    before: Seq<Seq<InputSet>>,
    after: Seq<Seq<InputSet>>,
)
    ensures
        run_all(run_all(actors, before), after) == run_all(actors, before + after),
    decreases after.len(),
{
    if after.len() == 0 {
        assert(before + after =~= before);
    } else {
        lemma_replay_all(actors, before, after.drop_last());
        assert((before + after).drop_last() =~= before + after.drop_last());
        assert((before + after).last() == after.last());
    }
}

/// Holding only up for every tick moves straight up, one step per tick.
pub proof fn lemma_hold_up(x: int, y: int, inputs: Seq<InputSet>)
    requires
        forall|k: int| 0 <= k < inputs.len() ==> #[trigger] inputs[k] == InputSet(intent_bit(Intent::Up)),
    ensures
        run(x, y, inputs) == (x, y + inputs.len() * MOVE_SPEED),
    decreases inputs.len(),
{
    if inputs.len() > 0 {
        lemma_hold_up(x, y, inputs.drop_last());
        let b: u8 = 2;
        assert(b & 2 == 2 && b & 16 != 16 && b & 32 != 32 && b & 8 != 8) by (bit_vector)
            requires
                b == 2u8,
        ;
    }
}

/// Advances every actor by one tick, each from the input of its own slot.
pub fn move_player(actors: &mut Vec<(Player, ActorState)>, inputs: &Vec<InputSet>)
    requires
        forall|k: int| 0 <= k < old(actors).len() ==> (#[trigger] old(actors)@[k]).0.handle < inputs.len()
            && old(actors)@[k].1.in_bounds(),
    ensures
        final(actors)@ == tick_all(old(actors)@, inputs@),
        final(actors).len() == old(actors).len(),
        forall|k: int| 0 <= k < final(actors).len() ==> {
            let (p, s) = #[trigger] final(actors)@[k];
            let (p0, s0) = old(actors)@[k];
            p == p0 && (s.x as int, s.y as int) == step(s0.x as int, s0.y as int, inputs@[p0.handle as int])
        },
{
    let ghost start = actors@;
    let mut k: usize = 0;
    while k < actors.len()
        invariant
            k <= actors.len(),
            actors.len() == start.len(),
            forall|j: int| 0 <= j < start.len() ==> (#[trigger] start[j]).0.handle < inputs.len()
                && start[j].1.in_bounds(),
            forall|j: int| k <= j < start.len() ==> #[trigger] actors@[j] == start[j],
            forall|j: int| 0 <= j < k ==> {
                let (p, s) = #[trigger] actors@[j];
                let (p0, s0) = start[j];
                p == p0 && (s.x as int, s.y as int) == step(s0.x as int, s0.y as int, inputs@[p0.handle as int])
            },
        decreases actors.len() - k,
    {
        let (p, s) = actors[k];
        let next = advance(s, p, inputs);
        actors.set(k, (p, next));
        k = k + 1;
    }
    assert(actors@ =~= tick_all(start, inputs@));
}

/// Replaying from a saved state: running the inputs up to the save, then the
/// rest, ends where running the whole sequence at once ends.
pub proof fn lemma_replay(x: int, y: int, before: Seq<InputSet>, after: Seq<InputSet>)
    ensures
        ({
            let saved = run(x, y, before);
            run(saved.0, saved.1, after)
        }) == run(x, y, before + after),
    decreases after.len(),
{
    if after.len() == 0 {
        assert(before + after =~= before);
    } else {
        lemma_replay(x, y, before, after.drop_last());
        assert((before + after).drop_last() =~= before + after.drop_last());
        assert((before + after).last() == after.last());
    }
}

/// An input that holds no movement intent leaves the position unchanged.
pub proof fn lemma_zero_delta(x: int, y: int, input: InputSet)
    requires
        !holds(input, Intent::Up),
        !holds(input, Intent::Down),
        !holds(input, Intent::DownLeft),
        !holds(input, Intent::DownRight),
    ensures
        step(x, y, input) == (x, y),
{
}

/// Running `n` ticks moves each coordinate by at most two steps per tick.
proof fn lemma_run_bounded(x: int, y: int, inputs: Seq<InputSet>)
    ensures
        ({
            let p = run(x, y, inputs);
            x - 2 * inputs.len() * MOVE_SPEED <= p.0 <= x + 2 * inputs.len() * MOVE_SPEED
                && y - 2 * inputs.len() * MOVE_SPEED <= p.1 <= y + 2 * inputs.len() * MOVE_SPEED
        }),
    decreases inputs.len(),
{
    if inputs.len() > 0 {
        lemma_run_bounded(x, y, inputs.drop_last());
    }
}

/// Whether `n` ticks from `start` stay within the bounds a step is defined on.
pub open spec fn fits(start: ActorState, n: int) -> bool {
    -POSITION_LIMIT + 2 * n * MOVE_SPEED <= start.x <= POSITION_LIMIT - 2 * n * MOVE_SPEED
        && -POSITION_LIMIT + 2 * n * MOVE_SPEED <= start.y <= POSITION_LIMIT - 2 * n * MOVE_SPEED
}

/// Advances one actor through a sequence of its own inputs, one tick each.
pub fn simulate(start: ActorState, inputs: &Vec<InputSet>) -> (r: ActorState)
    requires
        fits(start, inputs.len() as int),
    ensures
        (r.x as int, r.y as int) == run(start.x as int, start.y as int, inputs@),
{
    let mut s = start;
    let mut k: usize = 0;
    let own = vec![InputSet::empty()];
    while k < inputs.len()
        invariant
            k <= inputs.len(),
            fits(start, inputs.len() as int),
            own.len() == 1,
            (s.x as int, s.y as int) == run(start.x as int, start.y as int, inputs@.subrange(0, k as int)),
        decreases inputs.len() - k,
    {
        proof {
            lemma_run_bounded(start.x as int, start.y as int, inputs@.subrange(0, k as int));
        }
        let mut one = own.clone();
        one.set(0, inputs[k]);
        s = advance(s, Player { handle: 0 }, &one);
        proof {
            assert(inputs@.subrange(0, k + 1).drop_last() =~= inputs@.subrange(0, k as int));
        }
        k = k + 1;
    }
    assert(inputs@.subrange(0, inputs.len() as int) =~= inputs@);
    s
}

} // verus!
