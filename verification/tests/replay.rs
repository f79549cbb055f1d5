use ball_arena::clock::{game_increment_tick, game_setup, Tick};
use ball_arena::replay::{
    game_main_character_input_record, game_main_character_input_replay, game_setup_replay,
    replay_setup, GameReplay, MainCharacterInput,
};

type Movement = (f32, f32);

fn ticks(replay: &GameReplay<Movement>) -> Vec<u64> {
    replay.main_character_inputs.iter().map(|i| i.tick.0).collect()
}

#[test]
fn new_replay_is_empty() {
    let r: GameReplay<Movement> = GameReplay::new();
    assert_eq!(r.tick, Tick(0));
    assert!(r.main_character_inputs.is_empty());
    assert_eq!(r.main_character_inputs_index, 0);
}

#[test]
fn record_appends_changes_with_tick() {
    let mut r: GameReplay<Movement> = GameReplay::new();
    game_main_character_input_record(Tick(3), &mut r, &vec![(1.0, 0.0)]);
    game_main_character_input_record(Tick(4), &mut r, &vec![]);
    assert_eq!(r.tick, Tick(4));
    game_main_character_input_record(Tick(5), &mut r, &vec![(0.0, -5.0), (2.0, 2.0)]);
    assert_eq!(r.tick, Tick(5));
    assert_eq!(ticks(&r), vec![3, 5, 5]);
    assert_eq!(r.main_character_inputs[0].movement, (1.0, 0.0));
    assert_eq!(r.main_character_inputs[1].movement, (0.0, -5.0));
    assert_eq!(r.main_character_inputs[2].movement, (2.0, 2.0));
}

#[test]
fn game_setup_replay_clears_inputs() {
    let mut r: GameReplay<Movement> = GameReplay::new();
    game_main_character_input_record(Tick(1), &mut r, &vec![(1.0, 1.0)]);
    r.main_character_inputs_index = 1;
    game_setup_replay(&mut r);
    assert!(r.main_character_inputs.is_empty());
    assert_eq!(r.tick, Tick(1));
    assert_eq!(r.main_character_inputs_index, 1);
}

#[test]
fn replay_setup_rewinds() {
    let mut r: GameReplay<Movement> = GameReplay::new();
    game_main_character_input_record(Tick(1), &mut r, &vec![(1.0, 1.0)]);
    r.main_character_inputs_index = 1;
    let mut tick = Tick(30);
    replay_setup(&mut tick, &mut r);
    assert_eq!(tick, Tick(0));
    assert_eq!(r.main_character_inputs_index, 0);
    assert_eq!(r.main_character_inputs.len(), 1);
}

#[test]
fn replay_plays_input_at_its_tick() {
    let mut r: GameReplay<Movement> = GameReplay::new();
    game_main_character_input_record(Tick(2), &mut r, &vec![(1.0, 0.0)]);
    game_main_character_input_record(Tick(4), &mut r, &vec![(0.0, 1.0)]);
    game_main_character_input_record(Tick(9), &mut r, &vec![]);
    let mut active = true;
    let mut played = Vec::new();
    for t in 0..9u64 {
        let frame = game_main_character_input_replay(Tick(t), &mut r, &mut active);
        assert!(!frame.send_compare);
        assert!(active);
        if let Some(m) = frame.apply_movement {
            played.push((t, m));
        }
    }
    assert_eq!(played, vec![(2, (1.0, 0.0)), (4, (0.0, 1.0))]);
    assert_eq!(r.main_character_inputs_index, 2);
}

#[test]
fn replay_skips_older_inputs() {
    let mut r: GameReplay<Movement> = GameReplay::new();
    r.main_character_inputs.push(MainCharacterInput { tick: Tick(1), movement: (1.0, 0.0) });
    r.main_character_inputs.push(MainCharacterInput { tick: Tick(2), movement: (2.0, 0.0) });
    r.main_character_inputs.push(MainCharacterInput { tick: Tick(5), movement: (5.0, 0.0) });
    r.main_character_inputs.push(MainCharacterInput { tick: Tick(7), movement: (7.0, 0.0) });
    r.tick = Tick(10);
    let mut active = true;
    let frame = game_main_character_input_replay(Tick(5), &mut r, &mut active);
    assert_eq!(frame.apply_movement, Some((5.0, 0.0)));
    assert_eq!(r.main_character_inputs_index, 3);
    let frame = game_main_character_input_replay(Tick(6), &mut r, &mut active);
    assert_eq!(frame.apply_movement, None);
    assert_eq!(r.main_character_inputs_index, 3);
}

#[test]
fn replay_past_last_input_changes_nothing() {
    let mut r: GameReplay<Movement> = GameReplay::new();
    r.main_character_inputs.push(MainCharacterInput { tick: Tick(1), movement: (1.0, 0.0) });
    r.tick = Tick(10);
    r.main_character_inputs_index = 4;
    let mut active = true;
    let frame = game_main_character_input_replay(Tick(3), &mut r, &mut active);
    assert_eq!(frame.apply_movement, None);
    assert!(!frame.send_compare);
    assert_eq!(r.main_character_inputs_index, 4);
}

#[test]
fn replay_end_asks_for_compare_once() {
    let mut r: GameReplay<Movement> = GameReplay::new();
    game_main_character_input_record(Tick(0), &mut r, &vec![(1.0, 1.0)]);
    game_main_character_input_record(Tick(2), &mut r, &vec![]);
    let mut tick = Tick(0);
    let mut active = false;
    game_setup(&mut tick, &mut active);
    replay_setup(&mut tick, &mut r);
    let mut compares = 0;
    let mut played = 0;
    for _ in 0..20 {
        let frame = game_main_character_input_replay(tick, &mut r, &mut active);
        if frame.send_compare {
            compares += 1;
        }
        if frame.apply_movement.is_some() {
            played += 1;
        }
        game_increment_tick(active, &mut tick);
    }
    assert_eq!(compares, 1);
    assert_eq!(played, 1);
    assert!(!active);
    assert_eq!(tick, Tick(2));
}

#[test]
fn record_then_replay_reproduces_movements() {
    let changes: Vec<Option<Movement>> =
        vec![Some((0.0, -5.0)), None, None, Some((5.0, 0.0)), Some((0.0, 0.0)), None, Some((-3.5, 3.5))];
    let mut r: GameReplay<Movement> = GameReplay::new();
    let mut tick = Tick(0);
    let mut active = false;
    game_setup(&mut tick, &mut active);
    game_setup_replay(&mut r);
    for change in &changes {
        let changed: Vec<Movement> = change.iter().copied().collect();
        game_main_character_input_record(tick, &mut r, &changed);
        game_increment_tick(active, &mut tick);
    }
    game_setup(&mut tick, &mut active);
    replay_setup(&mut tick, &mut r);
    let mut replayed: Vec<Option<Movement>> = Vec::new();
    for _ in 0..changes.len() {
        let frame = game_main_character_input_replay(tick, &mut r, &mut active);
        replayed.push(frame.apply_movement);
        game_increment_tick(active, &mut tick);
    }
    // The replay stops at the tick of the last recorded frame: what that
    // frame recorded is not played back.
    let expected: Vec<Option<Movement>> =
        vec![Some((0.0, -5.0)), None, None, Some((5.0, 0.0)), Some((0.0, 0.0)), None, None];
    assert_eq!(replayed, expected);
    assert!(!active);
}
