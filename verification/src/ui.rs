//! The decisions taken on the in-game buttons.

use vstd::prelude::*;

verus! {

/// The states of the application.
#[derive(Clone, Copy, Debug, PartialEq, Eq, Hash, Structural)]
pub enum AppState {
    MainMenu,
    InGame,
    Replay,
    Cleanup,
}

/// What a button does.
#[derive(Clone, Copy, Debug, PartialEq, Eq, Structural)]
pub enum ButtonType {
    Play,
    Quit,
    RestartGame,
    Replay,
}

/// How the pointer interacts with a button in this frame.
#[derive(Clone, Copy, Debug, PartialEq, Eq, Structural)]
pub enum Interaction {
    Clicked,
    Hovered,
    Idle,
}

/// The state to enter after the cleanup that a click on `button` during a
/// game starts, if the button is one of the game's own.
pub open spec fn in_game_target(button: ButtonType) -> Option<AppState> {
    match button {
        ButtonType::RestartGame => Some(AppState::InGame),
        ButtonType::Replay => Some(AppState::Replay),
        _ => None,
    }
}

/// The cleanups that a sequence of button interactions starts, in order,
/// each given by the state to enter after it.
pub open spec fn in_game_targets(events: Seq<(Interaction, ButtonType)>) -> Seq<AppState>
    decreases events.len(),
{
    if events.len() == 0 {
        Seq::empty()
    } else {
        let rest = in_game_targets(events.drop_last());
        let (interaction, button) = events.last();
        match (interaction, in_game_target(button)) {
            (Interaction::Clicked, Some(target)) => rest.push(target),
            _ => rest,
        }
    }
}

/// The button decisions of one frame of a game (or a replay): every click on
/// "Restart Game" or "Replay" asks, in order, for the cleanup state followed
/// by a new game or a replay. Each returned state is the one to enter after
/// that cleanup.
pub fn game_ui(events: &Vec<(Interaction, ButtonType)>) -> (targets: Vec<AppState>)
    ensures
        targets@ == in_game_targets(events@),
{
    let mut targets: Vec<AppState> = Vec::new();
    let n: usize = events.len();
    for i in 0..n
        invariant
            n == events@.len(),
            targets@ == in_game_targets(events@.take(i as int)),
    {
        let (interaction, button) = events[i];
        assert(events@.take(i + 1).drop_last() == events@.take(i as int));
        match interaction {
            Interaction::Clicked => match button {
                ButtonType::RestartGame => targets.push(AppState::InGame),
                ButtonType::Replay => targets.push(AppState::Replay),
                _ => {},
            },
            _ => {},
        }
    }
    assert(events@.take(n as int) == events@);
    targets
}

/// Whether an interaction is a click on one of the game's own buttons.
pub open spec fn starts_cleanup(event: (Interaction, ButtonType)) -> bool {
    event.0 == Interaction::Clicked && (event.1 == ButtonType::RestartGame || event.1 == ButtonType::Replay)
}

/// Every event is decided on its own, wherever it stands in the frame: a
/// lone click on "Restart Game" starts a cleanup followed by a new game, a
/// lone click on "Replay" one followed by a replay, any other single event
/// nothing; and the decisions on two sequences of events, one after the
/// other, are the decisions on each, one after the other.
pub proof fn lemma_game_ui_decides_each_event(events: Seq<(Interaction, ButtonType)>, more: Seq<(Interaction, ButtonType)>)
    ensures
        in_game_targets(seq![(Interaction::Clicked, ButtonType::RestartGame)]) == seq![AppState::InGame],
        in_game_targets(seq![(Interaction::Clicked, ButtonType::Replay)]) == seq![AppState::Replay],
        forall|e: (Interaction, ButtonType)|
            !starts_cleanup(e) ==> #[trigger] in_game_targets(seq![e]) == Seq::<AppState>::empty(),
        in_game_targets(events + more) == in_game_targets(events) + in_game_targets(more),
        in_game_targets(events).len() == events.filter(|e: (Interaction, ButtonType)| starts_cleanup(e)).len(),
    decreases more.len(),
{
    let empty = Seq::<(Interaction, ButtonType)>::empty();
    assert(in_game_targets(empty) == Seq::<AppState>::empty());
    let s1 = seq![(Interaction::Clicked, ButtonType::RestartGame)];
    assert(s1.drop_last() =~= empty);
    assert(s1.last() == (Interaction::Clicked, ButtonType::RestartGame));
    assert(Seq::<AppState>::empty().push(AppState::InGame) =~= seq![AppState::InGame]);
    let s2 = seq![(Interaction::Clicked, ButtonType::Replay)];
    assert(s2.drop_last() =~= empty);
    assert(s2.last() == (Interaction::Clicked, ButtonType::Replay));
    assert(Seq::<AppState>::empty().push(AppState::Replay) =~= seq![AppState::Replay]);
    assert forall|e: (Interaction, ButtonType)| !starts_cleanup(e) implies #[trigger] in_game_targets(seq![e])
        == Seq::<AppState>::empty() by {
        assert(seq![e].drop_last() =~= empty);
        assert(seq![e].last() == e);
    }
    if more.len() == 0 {
        assert(events + more =~= events);
    } else {
        lemma_game_ui_decides_each_event(events, more.drop_last());
        assert((events + more).drop_last() =~= events + more.drop_last());
        assert((events + more).last() == more.last());
    }
    lemma_targets_count(events);
}

proof fn lemma_targets_count(events: Seq<(Interaction, ButtonType)>)
    ensures
        in_game_targets(events).len() == events.filter(|e: (Interaction, ButtonType)| starts_cleanup(e)).len(),
    decreases events.len(),
{
    reveal_with_fuel(Seq::filter, 1);
    if events.len() > 0 {
        lemma_targets_count(events.drop_last());
    }
}

/// Button clicks during a game only ever lead, after the cleanup, to a new
/// game or to a replay, and only clicks start a cleanup: there are never more
/// cleanups than interactions.
pub proof fn lemma_game_ui_targets(events: Seq<(Interaction, ButtonType)>)
    ensures
        forall|i: int|
            0 <= i < in_game_targets(events).len() ==> (in_game_targets(events)[i] == AppState::InGame
                || in_game_targets(events)[i] == AppState::Replay),
        in_game_targets(events).len() <= events.len(),
    decreases events.len(),
{
    if events.len() > 0 {
        lemma_game_ui_targets(events.drop_last());
    }
}

} // verus!
