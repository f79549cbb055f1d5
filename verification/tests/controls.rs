use ball_arena::input::{KeyboardState, MovementIntent};
use ball_arena::ui::{game_ui, AppState, ButtonType, Interaction};

fn keys() -> KeyboardState {
    KeyboardState {
        forward: false,
        left: false,
        back: false,
        right: false,
        run: false,
        control: false,
        s_just_pressed: false,
    }
}

#[test]
fn no_keys_no_movement() {
    assert_eq!(keys().movement_intent(), MovementIntent { x: 0, y: 0, running: false });
}

#[test]
fn w_moves_forward() {
    let k = KeyboardState { forward: true, ..keys() };
    assert_eq!(k.movement_intent(), MovementIntent { x: 0, y: -1, running: false });
}

#[test]
fn diagonal_run() {
    let k = KeyboardState { back: true, right: true, run: true, ..keys() };
    assert_eq!(k.movement_intent(), MovementIntent { x: 1, y: 1, running: true });
    let k = KeyboardState { forward: true, left: true, ..keys() };
    assert_eq!(k.movement_intent(), MovementIntent { x: -1, y: -1, running: false });
}

#[test]
fn opposite_keys_cancel() {
    let k = KeyboardState { forward: true, back: true, left: true, right: true, ..keys() };
    assert_eq!(k.movement_intent(), MovementIntent { x: 0, y: 0, running: false });
}

#[test]
fn control_s_saves() {
    assert!(KeyboardState { control: true, s_just_pressed: true, ..keys() }.save_requested());
    assert!(!KeyboardState { control: true, back: true, ..keys() }.save_requested());
    assert!(!KeyboardState { s_just_pressed: true, ..keys() }.save_requested());
}

#[test]
fn restart_and_replay_clicks_start_cleanups() {
    let events = vec![
        (Interaction::Hovered, ButtonType::RestartGame),
        (Interaction::Clicked, ButtonType::Replay),
        (Interaction::Clicked, ButtonType::Play),
        (Interaction::Clicked, ButtonType::Quit),
        (Interaction::Idle, ButtonType::Replay),
        (Interaction::Clicked, ButtonType::RestartGame),
    ];
    assert_eq!(game_ui(&events), vec![AppState::Replay, AppState::InGame]);
}

#[test]
fn no_click_no_cleanup() {
    let events = vec![(Interaction::Hovered, ButtonType::Replay), (Interaction::Idle, ButtonType::RestartGame)];
    assert_eq!(game_ui(&events), Vec::<AppState>::new());
    assert_eq!(game_ui(&Vec::new()), Vec::<AppState>::new());
}
