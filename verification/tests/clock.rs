use ball_arena::clock::{game_increment_tick, game_setup, tick_text, Tick};

#[test]
fn tick_text_is_decimal() {
    assert_eq!(tick_text(Tick(0)), "0");
    assert_eq!(tick_text(Tick(7)), "7");
    assert_eq!(tick_text(Tick(42)), "42");
    assert_eq!(tick_text(Tick(1000)), "1000");
    assert_eq!(tick_text(Tick(u64::MAX)), u64::MAX.to_string());
}

#[test]
fn tick_advances_while_physics_runs() {
    let mut tick = Tick(5);
    let text = game_increment_tick(true, &mut tick);
    assert_eq!(tick, Tick(6));
    assert_eq!(text, Some("6".to_string()));
}

#[test]
fn tick_frozen_while_physics_paused() {
    let mut tick = Tick(9);
    let text = game_increment_tick(false, &mut tick);
    assert_eq!(tick, Tick(9));
    assert_eq!(text, None);
}

#[test]
fn game_setup_resets_tick_and_starts_physics() {
    let mut tick = Tick(123);
    let mut active = false;
    game_setup(&mut tick, &mut active);
    assert_eq!(tick, Tick(0));
    assert!(active);
}

#[test]
fn ten_frames_count_ten_ticks() {
    let mut tick = Tick(0);
    let mut active = false;
    game_setup(&mut tick, &mut active);
    let mut last = None;
    for _ in 0..10 {
        last = game_increment_tick(active, &mut tick);
    }
    assert_eq!(tick, Tick(10));
    assert_eq!(last, Some("10".to_string()));
}
