//! The replay log of the main character's movement: recorded while a game
//! runs, played back frame by frame when the game is replayed.
//!
//! The movement value itself (`M`) is carried, never inspected.

use vstd::prelude::*;
use crate::clock::{Tick, next_tick};

verus! {

/// A movement of the main character, tagged with the tick at which it was
/// decided.
#[derive(Debug)]
pub struct MainCharacterInput<M> {
    pub tick: Tick,
    pub movement: M,
}

/// The recorded game: the tick at which recording stopped, the recorded
/// inputs in order, and how far a replay has read them.
pub struct GameReplay<M> {
    pub tick: Tick,
    pub main_character_inputs: Vec<MainCharacterInput<M>>,
    pub main_character_inputs_index: usize,
}

/// What one frame of a replay asks of the game.
pub struct ReplayFrame<M> {
    /// The replay reached the end of the recording while the physics was
    /// still running: the final simulation state should be compared.
    pub send_compare: bool,
    /// The movement the main character takes from this frame on, if one was
    /// recorded for it.
    pub apply_movement: Option<M>,
}

/// Inputs are recorded at strictly increasing ticks.
pub open spec fn ticks_strictly_increasing<M>(inputs: Seq<MainCharacterInput<M>>) -> bool {
    forall|i: int, j: int| 0 <= i < j < inputs.len() ==> inputs[i].tick.0 < inputs[j].tick.0
}

/// Position `k` separates the inputs recorded before tick `t` (in front of
/// it) from those recorded at `t` or later.
pub open spec fn splits_at<M>(inputs: Seq<MainCharacterInput<M>>, k: int, t: int) -> bool {
    &&& 0 <= k <= inputs.len()
    &&& forall|i: int| 0 <= i < k ==> inputs[i].tick.0 < t
    &&& forall|i: int| k <= i < inputs.len() ==> inputs[i].tick.0 >= t
}

/// The first position at or after `from` whose input is not older than
/// `tick` (or `from` itself once the log is exhausted).
pub open spec fn first_pending<M>(inputs: Seq<MainCharacterInput<M>>, from: int, tick: int) -> int
    decreases inputs.len() - from,
{
    if from >= inputs.len() {
        from
    } else if inputs[from].tick.0 >= tick {
        from
    } else {
        first_pending(inputs, from + 1, tick)
    }
}

/// The input a replay frame at `tick` plays, reading from `index`: the first
/// pending one, if it was recorded at exactly this tick.
pub open spec fn replay_step_applied<M>(
    inputs: Seq<MainCharacterInput<M>>,
    index: int,
    tick: int,
) -> Option<MainCharacterInput<M>> {
    let j: int = first_pending(inputs, index, tick);
    if j < inputs.len() && inputs[j].tick.0 == tick {
        Some(inputs[j])
    } else {
        None
    }
}

/// Where the replay reads next after a frame at `tick`: past every older
/// input, and past the one it played.
pub open spec fn replay_step_index<M>(inputs: Seq<MainCharacterInput<M>>, index: int, tick: int) -> int {
    let j: int = first_pending(inputs, index, tick);
    if j < inputs.len() && inputs[j].tick.0 == tick {
        j + 1
    } else {
        j
    }
}

/// The inputs played by `frames` consecutive replay frames, from tick `tick`
/// on, reading from `index`.
pub open spec fn replay_run<M>(
    inputs: Seq<MainCharacterInput<M>>,
    index: int,
    tick: int,
    frames: nat,
) -> Seq<MainCharacterInput<M>>
    decreases frames,
{
    if frames == 0 {
        Seq::empty()
    } else {
        let played = match replay_step_applied(inputs, index, tick) {
            Some(input) => seq![input],
            None => Seq::empty(),
        };
        played + replay_run(inputs, replay_step_index(inputs, index, tick), tick + 1, (frames - 1) as nat)
    }
}

/// The log after recording `changed` at `tick`.
pub open spec fn recorded<M>(inputs: Seq<MainCharacterInput<M>>, tick: Tick, changed: Seq<M>) -> Seq<MainCharacterInput<M>> {
    inputs + changed.map_values(|m: M| MainCharacterInput { tick, movement: m })
}

/// Whether a replay frame at `tick` asks for the final comparison: the
/// recording is over and the physics was still running.
pub open spec fn frame_sends_compare(tick: Tick, end: Tick, physics_pipeline_active: bool) -> bool {
    tick.0 >= end.0 && physics_pipeline_active
}

/// Whether the physics pipeline runs after a replay frame at `tick`: it is
/// stopped once the recording is over.
pub open spec fn frame_keeps_physics(tick: Tick, end: Tick, physics_pipeline_active: bool) -> bool {
    tick.0 < end.0 && physics_pipeline_active
}

impl<M> GameReplay<M> {
    /// An empty recording.
    pub fn new() -> (r: Self)
        ensures
            r.tick.0 == 0,
            r.main_character_inputs@.len() == 0,
            r.main_character_inputs_index == 0,
    {
        GameReplay { tick: Tick(0), main_character_inputs: Vec::new(), main_character_inputs_index: 0 }
    }
}

/// Starting a new game: the previous recording is thrown away.
pub fn game_setup_replay<M>(game_replay: &mut GameReplay<M>)
    ensures
        final(game_replay).main_character_inputs@.len() == 0,
        final(game_replay).tick == old(game_replay).tick,
        final(game_replay).main_character_inputs_index == old(game_replay).main_character_inputs_index,
{
    game_replay.main_character_inputs.clear();
}

/// Starting a replay: the tick counter starts again from zero and the
/// recording is read from its beginning.
pub fn replay_setup<M>(tick: &mut Tick, game_replay: &mut GameReplay<M>)
    ensures
        final(tick).0 == 0,
        final(game_replay).main_character_inputs_index == 0,
        final(game_replay).main_character_inputs@ == old(game_replay).main_character_inputs@,
        final(game_replay).tick == old(game_replay).tick,
{
    tick.0 = 0;
    game_replay.main_character_inputs_index = 0;
}

/// Recording always appends: the old log stays as it was, followed by one
/// input per changed movement, in order, each tagged with the recording
/// tick, however long the log already is.
pub proof fn lemma_record_appends<M>(inputs: Seq<MainCharacterInput<M>>, tick: Tick, changed: Seq<M>)
    ensures
        recorded(inputs, tick, changed).len() == inputs.len() + changed.len(),
        forall|i: int| 0 <= i < inputs.len() ==> #[trigger] recorded(inputs, tick, changed)[i] == inputs[i],
        forall|i: int|
            0 <= i < changed.len() ==> #[trigger] recorded(inputs, tick, changed)[inputs.len() + i]
                == (MainCharacterInput { tick, movement: changed[i] }),
{
    let r = recorded(inputs, tick, changed);
    assert forall|i: int| 0 <= i < changed.len() implies #[trigger] r[inputs.len() + i]
        == (MainCharacterInput { tick, movement: changed[i] }) by {
        assert(r[inputs.len() + i] == changed.map_values(|m: M| MainCharacterInput { tick, movement: m })[i]);
    }
}

/// Recording one frame of a game: the recording now ends at `tick`, and each
/// movement that changed in this frame is appended, in order, tagged with
/// `tick`.
pub fn game_main_character_input_record<M: Copy>(
    tick: Tick,
    game_replay: &mut GameReplay<M>,
    changed_movements: &Vec<M>,
)
    ensures
        final(game_replay).tick == tick,
        final(game_replay).main_character_inputs@ == recorded(
            old(game_replay).main_character_inputs@,
            tick,
            changed_movements@,
        ),
        final(game_replay).main_character_inputs_index == old(game_replay).main_character_inputs_index,
        final(game_replay).main_character_inputs@.len() == old(game_replay).main_character_inputs@.len()
            + changed_movements@.len(),
        forall|i: int|
            0 <= i < old(game_replay).main_character_inputs@.len()
                ==> #[trigger] final(game_replay).main_character_inputs@[i]
                == old(game_replay).main_character_inputs@[i],
        forall|i: int|
            0 <= i < changed_movements@.len()
                ==> #[trigger] final(game_replay).main_character_inputs@[old(game_replay).main_character_inputs@.len() + i]
                == (MainCharacterInput { tick, movement: changed_movements@[i] }),
{
    proof {
        lemma_record_appends(old(game_replay).main_character_inputs@, tick, changed_movements@);
    }
    game_replay.tick = tick;
    let ghost start = old(game_replay).main_character_inputs@;
    let n: usize = changed_movements.len();
    for i in 0..n
        invariant
            n == changed_movements@.len(),
            game_replay.tick == tick,
            game_replay.main_character_inputs_index == old(game_replay).main_character_inputs_index,
            game_replay.main_character_inputs@ == recorded(start, tick, changed_movements@.take(i as int)),
    {
        game_replay.main_character_inputs.push(MainCharacterInput { tick, movement: changed_movements[i] });
        assert(changed_movements@.take(i + 1) == changed_movements@.take(i as int).push(changed_movements@[i as int]));
        assert(recorded(start, tick, changed_movements@.take(i + 1)) =~= recorded(
            start,
            tick,
            changed_movements@.take(i as int),
        ).push(MainCharacterInput { tick, movement: changed_movements@[i as int] }));
    }
    assert(changed_movements@.take(n as int) == changed_movements@);
}

/// One frame of a replay at `tick`.
///
/// Once the recording is over (`tick` has reached the tick at which it
/// stopped) the physics pipeline is stopped, and the final comparison is
/// asked for if it was still running. Before that, the inputs older than
/// `tick` are skipped and the one recorded at `tick`, if any, is played.
pub fn game_main_character_input_replay<M: Copy>(
    tick: Tick,
    game_replay: &mut GameReplay<M>,
    physics_pipeline_active: &mut bool,
) -> (frame: ReplayFrame<M>)
    ensures
        final(game_replay).tick == old(game_replay).tick,
        final(game_replay).main_character_inputs@ == old(game_replay).main_character_inputs@,
        frame.send_compare == frame_sends_compare(tick, old(game_replay).tick, *old(physics_pipeline_active)),
        *final(physics_pipeline_active) == frame_keeps_physics(tick, old(game_replay).tick, *old(physics_pipeline_active)),
        tick.0 >= old(game_replay).tick.0 ==> {
            &&& final(game_replay).main_character_inputs_index == old(game_replay).main_character_inputs_index
            &&& frame.apply_movement is None
        },
        tick.0 < old(game_replay).tick.0 ==> {
            &&& final(game_replay).main_character_inputs_index == replay_step_index(
                old(game_replay).main_character_inputs@,
                old(game_replay).main_character_inputs_index as int,
                tick.0 as int,
            )
            &&& frame.apply_movement == match replay_step_applied(
                old(game_replay).main_character_inputs@,
                old(game_replay).main_character_inputs_index as int,
                tick.0 as int,
            ) {
                Some(input) => Some(input.movement),
                None => None::<M>,
            }
        },
{
    if tick.0 >= game_replay.tick.0 {
        let send_compare = *physics_pipeline_active;
        *physics_pipeline_active = false;
        return ReplayFrame { send_compare, apply_movement: None };
    }
    let ghost inputs = game_replay.main_character_inputs@;
    let ghost start: int = game_replay.main_character_inputs_index as int;
    let len: usize = game_replay.main_character_inputs.len();
    loop
        invariant
            len == inputs.len(),
            game_replay.main_character_inputs@ == inputs,
            game_replay.tick == old(game_replay).tick,
            inputs == old(game_replay).main_character_inputs@,
            start == old(game_replay).main_character_inputs_index as int,
            tick.0 < game_replay.tick.0,
            *physics_pipeline_active == *old(physics_pipeline_active),
            first_pending(inputs, game_replay.main_character_inputs_index as int, tick.0 as int)
                == first_pending(inputs, start, tick.0 as int),
        decreases len - game_replay.main_character_inputs_index,
    {
        let index: usize = game_replay.main_character_inputs_index;
        if index >= len {
            return ReplayFrame { send_compare: false, apply_movement: None };
        }
        let input_tick: u64 = game_replay.main_character_inputs[index].tick.0;
        if input_tick == tick.0 {
            let movement = game_replay.main_character_inputs[index].movement;
            game_replay.main_character_inputs_index = index + 1;
            return ReplayFrame { send_compare: false, apply_movement: Some(movement) };
        } else if input_tick > tick.0 {
            return ReplayFrame { send_compare: false, apply_movement: None };
        }
        game_replay.main_character_inputs_index = index + 1;
    }
}

/// How many times `frames` consecutive frames of a replay (each a replay
/// step followed by the end-of-frame tick update) ask for the final
/// comparison, starting at `tick` with the physics running or not.
pub open spec fn compare_requests(tick: Tick, end: Tick, physics_pipeline_active: bool, frames: nat) -> nat
    decreases frames,
{
    if frames == 0 {
        0
    } else {
        let keeps = frame_keeps_physics(tick, end, physics_pipeline_active);
        (if frame_sends_compare(tick, end, physics_pipeline_active) { 1nat } else { 0nat })
            + compare_requests(next_tick(tick, keeps), end, keeps, (frames - 1) as nat)
    }
}

/// A replay frame at a tick that splits a well-ordered log plays exactly the
/// input recorded at that tick (if there is one), and leaves the replay at
/// the split for the next tick.
pub proof fn lemma_replay_step_plays_recorded_input<M>(inputs: Seq<MainCharacterInput<M>>, k: int, t: int)
    requires
        ticks_strictly_increasing(inputs),
        splits_at(inputs, k, t),
    ensures
        splits_at(inputs, replay_step_index(inputs, k, t), t + 1),
        match replay_step_applied(inputs, k, t) {
            Some(input) => k < inputs.len() && input == inputs[k] && input.tick.0 == t,
            None => forall|i: int| 0 <= i < inputs.len() ==> inputs[i].tick.0 != t,
        },
{
    assert(first_pending(inputs, k, t) == k);
}

/// Splits of a log at one tick are unique.
proof fn lemma_split_unique<M>(inputs: Seq<MainCharacterInput<M>>, k1: int, k2: int, t: int)
    requires
        splits_at(inputs, k1, t),
        splits_at(inputs, k2, t),
    ensures
        k1 == k2,
{
    if k1 < k2 {
        assert(inputs[k1].tick.0 < t);
    } else if k2 < k1 {
        assert(inputs[k2].tick.0 < t);
    }
}

/// Replaying a well-ordered log over the ticks `t .. t + frames` plays, in
/// order, exactly the inputs recorded at those ticks.
pub proof fn lemma_replay_run_plays_recorded_inputs<M>(
    inputs: Seq<MainCharacterInput<M>>,
    k: int,
    t: int,
    frames: nat,
    k2: int,
)
    requires
        ticks_strictly_increasing(inputs),
        splits_at(inputs, k, t),
        splits_at(inputs, k2, t + frames),
    ensures
        replay_run(inputs, k, t, frames) == inputs.subrange(k, k2),
    decreases frames,
{
    if frames == 0 {
        lemma_split_unique(inputs, k, k2, t);
        assert(inputs.subrange(k, k2) =~= Seq::<MainCharacterInput<M>>::empty());
    } else {
        lemma_replay_step_plays_recorded_input(inputs, k, t);
        let next = replay_step_index(inputs, k, t);
        lemma_replay_run_plays_recorded_inputs(inputs, next, t + 1, (frames - 1) as nat, k2);
        match replay_step_applied(inputs, k, t) {
            Some(input) => {
                assert(k < k2) by {
                    if k >= k2 {
                        assert(inputs[k].tick.0 >= t + frames);
                    }
                }
                assert(seq![input] + inputs.subrange(k + 1, k2) =~= inputs.subrange(k, k2));
            },
            None => {
                assert(Seq::<MainCharacterInput<M>>::empty() + inputs.subrange(next, k2) =~= inputs.subrange(k, k2));
            },
        }
    }
}

/// Replaying a recording from its start, frame by frame from tick zero,
/// plays back exactly the inputs recorded before the current tick, in the
/// order they were recorded.
pub proof fn lemma_replay_reproduces_recording<M>(inputs: Seq<MainCharacterInput<M>>, frames: nat, k: int)
    requires
        ticks_strictly_increasing(inputs),
        splits_at(inputs, k, frames as int),
    ensures
        replay_run(inputs, 0, 0, frames) == inputs.take(k),
{
    lemma_replay_run_plays_recorded_inputs(inputs, 0, 0, frames, k);
}

/// Recording at most one movement per frame, at a tick later than every
/// recorded one, keeps the log ordered by strictly increasing ticks, and
/// every recorded input is no later than that tick.
pub proof fn lemma_record_keeps_order<M>(inputs: Seq<MainCharacterInput<M>>, tick: Tick, changed: Seq<M>)
    requires
        ticks_strictly_increasing(inputs),
        forall|i: int| 0 <= i < inputs.len() ==> inputs[i].tick.0 < tick.0,
        changed.len() <= 1,
    ensures
        ticks_strictly_increasing(recorded(inputs, tick, changed)),
        forall|i: int|
            0 <= i < recorded(inputs, tick, changed).len() ==> recorded(inputs, tick, changed)[i].tick.0 <= tick.0,
{
    let r = recorded(inputs, tick, changed);
    assert forall|i: int| 0 <= i < r.len() implies r[i].tick.0 <= tick.0 by {
        if i >= inputs.len() {
            assert(r[i] == MainCharacterInput { tick, movement: changed[i - inputs.len()] });
        }
    }
    assert forall|i: int, j: int| 0 <= i < j < r.len() implies r[i].tick.0 < r[j].tick.0 by {
        if j >= inputs.len() {
            assert(r[j] == MainCharacterInput { tick, movement: changed[j - inputs.len()] });
        }
    }
}

/// The movements recorded in one frame: the changed movement, if any.
pub open spec fn changed_in_frame<M>(change: Option<M>) -> Seq<M> {
    match change {
        Some(m) => seq![m],
        None => Seq::empty(),
    }
}

/// The log a game of `changes.len()` frames records from tick zero on, when
/// frame `t` records `changes[t]` (the main character's movement, if it
/// changed in that frame).
pub open spec fn recording_of<M>(changes: Seq<Option<M>>) -> Seq<MainCharacterInput<M>>
    decreases changes.len(),
{
    if changes.len() == 0 {
        Seq::empty()
    } else {
        recorded(
            recording_of(changes.drop_last()),
            Tick((changes.len() - 1) as u64),
            changed_in_frame(changes.last()),
        )
    }
}

/// A recorded game is ordered by strictly increasing ticks, all earlier
/// than its length in frames.
proof fn lemma_recording_ordered<M>(changes: Seq<Option<M>>)
    requires
        changes.len() <= u64::MAX,
    ensures
        ticks_strictly_increasing(recording_of(changes)),
        forall|i: int|
            0 <= i < recording_of(changes).len() ==> recording_of(changes)[i].tick.0 < changes.len(),
    decreases changes.len(),
{
    if changes.len() > 0 {
        let prev = changes.drop_last();
        lemma_recording_ordered(prev);
        lemma_record_keeps_order(
            recording_of(prev),
            Tick((changes.len() - 1) as u64),
            changed_in_frame(changes.last()),
        );
    }
}

/// Recording a game frame by frame from tick zero, then replaying it frame
/// by frame from tick zero, plays back every movement recorded before the
/// last recorded frame, each at the tick it was recorded at, in order and
/// nothing else. (The replay stops at the tick of the last recorded frame,
/// so what that frame recorded is not played.)
pub proof fn lemma_record_then_replay<M>(changes: Seq<Option<M>>)
    requires
        1 <= changes.len() <= u64::MAX,
    ensures
        replay_run(recording_of(changes), 0, 0, (changes.len() - 1) as nat) == recording_of(changes.drop_last()),
{
    let r = recording_of(changes);
    let prev = recording_of(changes.drop_last());
    let last = changed_in_frame(changes.last());
    lemma_recording_ordered(changes);
    lemma_recording_ordered(changes.drop_last());
    assert(r == prev + last.map_values(|m: M| MainCharacterInput { tick: Tick((changes.len() - 1) as u64), movement: m }));
    assert forall|i: int| prev.len() <= i < r.len() implies r[i].tick.0 >= changes.len() - 1 by {
        assert(r[i] == MainCharacterInput { tick: Tick((changes.len() - 1) as u64), movement: last[i - prev.len()] });
    }
    assert forall|i: int| 0 <= i < prev.len() implies r[i].tick.0 < changes.len() - 1 by {
        assert(r[i] == prev[i]);
    }
    lemma_replay_reproduces_recording(r, (changes.len() - 1) as nat, prev.len() as int);
    assert(r.take(prev.len() as int) =~= prev);
}

/// Once the physics is stopped, no replay frame asks for the comparison.
proof fn lemma_no_compare_when_stopped(tick: Tick, end: Tick, frames: nat)
    ensures
        compare_requests(tick, end, false, frames) == 0,
    decreases frames,
{
    if frames > 0 {
        lemma_no_compare_when_stopped(next_tick(tick, false), end, (frames - 1) as nat);
    }
}

/// However many frames a replay runs, the final comparison is asked for at
/// most once.
pub proof fn lemma_compare_requested_at_most_once(tick: Tick, end: Tick, physics_pipeline_active: bool, frames: nat)
    ensures
        compare_requests(tick, end, physics_pipeline_active, frames) <= 1,
    decreases frames,
{
    if frames > 0 {
        let keeps = frame_keeps_physics(tick, end, physics_pipeline_active);
        if frame_sends_compare(tick, end, physics_pipeline_active) {
            lemma_no_compare_when_stopped(next_tick(tick, keeps), end, (frames - 1) as nat);
        } else if !keeps {
            lemma_no_compare_when_stopped(next_tick(tick, keeps), end, (frames - 1) as nat);
        } else {
            lemma_compare_requested_at_most_once(next_tick(tick, keeps), end, keeps, (frames - 1) as nat);
        }
    }
}

/// A replay started from tick zero with the physics running asks for the
/// final comparison exactly once when it runs past the end of the
/// recording.
pub proof fn lemma_compare_requested_once_at_end(tick: Tick, end: Tick, frames: nat)
    requires
        tick.0 <= end.0,
        tick.0 + frames > end.0,
    ensures
        compare_requests(tick, end, true, frames) == 1,
    decreases frames,
{
    if tick.0 >= end.0 {
        lemma_no_compare_when_stopped(next_tick(tick, false), end, (frames - 1) as nat);
    } else {
        assert(next_tick(tick, true).0 == tick.0 + 1);
        lemma_compare_requested_once_at_end(next_tick(tick, true), end, (frames - 1) as nat);
    }
}

} // verus!
