use std::collections::HashMap;

use streamdeck_interface::deckactor::{ButtonChange, ButtonState, MsgType};
use streamdeck_interface::deckstate::{DeckAction, DeckButton, DeckHandler, DeckState};
use streamdeck_interface::hub::Broadcast;

fn profile(bindings: Vec<(u16, DeckAction)>) -> DeckState {
    let mut state = DeckState::new();
    for (btn, action) in bindings {
        state.btns.insert(btn, DeckButton { action });
    }
    state
}

fn press(btn: usize) -> ButtonChange {
    ButtonChange::new(btn, ButtonState::Pressed)
}

fn release(btn: usize) -> ButtonChange {
    ButtonChange::new(btn, ButtonState::Released)
}

fn copy_of(states: &HashMap<u32, DeckState>) -> HashMap<u32, DeckState> {
    let mut copy = HashMap::new();
    for (id, state) in states.iter() {
        let mut btns = HashMap::new();
        for (btn, button) in state.btns.iter() {
            btns.insert(*btn, button.clone());
        }
        copy.insert(*id, DeckState { btns });
    }
    copy
}

#[test]
fn two_profiles_alternate_on_next_state() {
    let mut states = HashMap::new();
    states.insert(0, profile(vec![(2, DeckAction::NextState)]));
    states.insert(1, profile(vec![(2, DeckAction::NextState)]));
    let mut handler = DeckHandler::new(states);
    assert_eq!(handler.active_state, 0);
    assert_eq!(handler.handle_btn_press(press(2)), None);
    assert_eq!(handler.active_state, 1);
    assert_eq!(handler.handle_btn_press(press(2)), None);
    assert_eq!(handler.active_state, 0);
}

#[test]
fn next_state_from_third_profile_goes_to_first() {
    let mut states = HashMap::new();
    states.insert(0, profile(vec![(1, DeckAction::NextState)]));
    states.insert(1, profile(vec![(1, DeckAction::NextState)]));
    states.insert(2, profile(vec![(1, DeckAction::NextState)]));
    let mut handler = DeckHandler::new(states);
    handler.active_state = 2;
    assert_eq!(handler.handle_btn_press(press(1)), None);
    assert_eq!(handler.active_state, 0);
    assert_eq!(handler.handle_btn_press(press(1)), None);
    assert_eq!(handler.active_state, 1);
    assert_eq!(handler.handle_btn_press(press(1)), None);
    assert_eq!(handler.active_state, 0);
    assert_eq!(handler.deck_states.len(), 3);
}

#[test]
fn next_state_from_the_largest_profile_id_goes_to_first() {
    let mut states = HashMap::new();
    states.insert(u32::MAX, profile(vec![(0, DeckAction::NextState)]));
    let mut handler = DeckHandler::new(states);
    handler.active_state = u32::MAX;
    assert_eq!(handler.handle_btn_press(press(0)), None);
    assert_eq!(handler.active_state, 0);
}

#[test]
fn release_changes_nothing() {
    let mut states = HashMap::new();
    states.insert(
        0,
        profile(vec![
            (2, DeckAction::NextState),
            (3, DeckAction::DeckMsg(MsgType::Reset)),
        ]),
    );
    let mut handler = DeckHandler::new(states);
    assert_eq!(handler.handle_btn_press(release(2)), None);
    assert_eq!(handler.active_state, 0);
    assert_eq!(handler.handle_btn_press(release(3)), None);
    assert_eq!(handler.active_state, 0);
    assert_eq!(handler.deck_states.len(), 1);
    assert_eq!(handler.deck_states[&0].btns.len(), 2);
}

#[test]
fn deck_msg_asks_for_broadcast() {
    let mut states = HashMap::new();
    states.insert(
        0,
        profile(vec![
            (4, DeckAction::DeckMsg(MsgType::BrightnessChange(80))),
            (5, DeckAction::DeckMsg(MsgType::SetImage(1, String::from("cat.png")))),
            (6, DeckAction::DeckMsg(MsgType::Ping(7))),
        ]),
    );
    let mut handler = DeckHandler::new(states);
    assert_eq!(
        handler.handle_btn_press(press(4)),
        Some(Broadcast(MsgType::BrightnessChange(80)))
    );
    assert_eq!(
        handler.handle_btn_press(press(5)),
        Some(Broadcast(MsgType::SetImage(1, String::from("cat.png"))))
    );
    assert_eq!(handler.handle_btn_press(press(6)), Some(Broadcast(MsgType::Ping(7))));
    assert_eq!(handler.active_state, 0);
    assert_eq!(handler.deck_states[&0].btns.len(), 3);
}

#[test]
fn prev_state_changes_nothing() {
    let mut states = HashMap::new();
    states.insert(0, profile(vec![(1, DeckAction::PrevState)]));
    states.insert(1, profile(vec![(1, DeckAction::PrevState)]));
    let mut handler = DeckHandler::new(states);
    handler.active_state = 1;
    assert_eq!(handler.handle_btn_press(press(1)), None);
    assert_eq!(handler.active_state, 1);
}

#[test]
fn press_without_active_profile_does_nothing() {
    let mut states = HashMap::new();
    states.insert(0, profile(vec![(2, DeckAction::NextState)]));
    let mut handler = DeckHandler::new(states);
    handler.active_state = 9;
    assert_eq!(handler.handle_btn_press(press(2)), None);
    assert_eq!(handler.active_state, 9);
}

#[test]
fn press_on_unbound_button_does_nothing() {
    let mut states = HashMap::new();
    states.insert(0, profile(vec![(2, DeckAction::NextState)]));
    let mut handler = DeckHandler::new(states);
    assert_eq!(handler.handle_btn_press(press(3)), None);
    assert_eq!(handler.active_state, 0);
}

#[test]
fn press_beyond_the_button_range_does_nothing() {
    let mut states = HashMap::new();
    states.insert(0, profile(vec![(2, DeckAction::NextState)]));
    let mut handler = DeckHandler::new(states);
    assert_eq!(handler.handle_btn_press(press(65536 + 2)), None);
    assert_eq!(handler.active_state, 0);
    assert_eq!(handler.handle_btn_press(press(usize::MAX)), None);
    assert_eq!(handler.active_state, 0);
}

#[test]
fn press_on_the_last_button_index_is_looked_up() {
    let mut states = HashMap::new();
    states.insert(0, profile(vec![(u16::MAX, DeckAction::NextState)]));
    let mut handler = DeckHandler::new(states);
    assert_eq!(handler.handle_btn_press(press(65535)), None);
    assert_eq!(handler.active_state, 1);
}

#[test]
fn execute_runs_each_action() {
    let mut handler = DeckHandler::default();
    assert_eq!(DeckAction::NextState.execute(&mut handler), None);
    assert_eq!(handler.active_state, 1);
    assert_eq!(DeckAction::NextState.execute(&mut handler), None);
    assert_eq!(handler.active_state, 0);
    assert_eq!(DeckAction::PrevState.execute(&mut handler), None);
    assert_eq!(handler.active_state, 0);
    assert_eq!(
        DeckAction::DeckMsg(MsgType::Reset).execute(&mut handler),
        Some(Broadcast(MsgType::Reset))
    );
    assert_eq!(handler.active_state, 0);
    handler.active_state = 7;
    assert_eq!(DeckAction::NextState.execute(&mut handler), None);
    assert_eq!(handler.active_state, 0);
}

#[test]
fn new_handler_starts_at_profile_zero() {
    let mut states = HashMap::new();
    states.insert(3, profile(vec![(2, DeckAction::NextState)]));
    let handler = DeckHandler::new(states);
    assert_eq!(handler.active_state, 0);
    assert_eq!(handler.deck_states.len(), 1);
    assert_eq!(handler.deck_states[&3].btns[&2], DeckButton { action: DeckAction::NextState });
}

#[test]
fn default_handler_and_profile_are_empty() {
    let handler = DeckHandler::default();
    assert_eq!(handler.active_state, 0);
    assert!(handler.deck_states.is_empty());
    assert!(DeckState::new().btns.is_empty());
    assert!(DeckState::default().btns.is_empty());
}

#[test]
fn load_without_record_gives_empty_set() {
    let handler = DeckHandler::load(None);
    assert_eq!(handler, DeckHandler::default());
    assert_eq!(handler.active_state, 0);
    assert!(handler.deck_states.is_empty());
}

#[test]
fn save_then_load_keeps_profiles_and_resets_active() {
    let mut states = HashMap::new();
    states.insert(
        0,
        profile(vec![
            (2, DeckAction::NextState),
            (3, DeckAction::DeckMsg(MsgType::SetImage(4, String::from("a/b.png")))),
        ]),
    );
    states.insert(1, profile(vec![(2, DeckAction::PrevState)]));
    states.insert(9, profile(vec![]));
    let mut handler = DeckHandler::new(states);
    handler.active_state = 1;
    let stored = copy_of(handler.save());
    let loaded = DeckHandler::load(Some(stored));
    assert_eq!(loaded.active_state, 0);
    assert_eq!(loaded.deck_states, handler.deck_states);
    assert_eq!(loaded.deck_states.len(), 3);
    assert_eq!(
        loaded.deck_states[&0].btns[&3],
        DeckButton { action: DeckAction::DeckMsg(MsgType::SetImage(4, String::from("a/b.png"))) }
    );
}

#[test]
fn clones_equal_their_originals() {
    let msg = MsgType::SetImage(3, String::from("x.png"));
    assert_eq!(msg.clone(), msg);
    let action = DeckAction::DeckMsg(MsgType::Ping(5));
    assert_eq!(action.clone(), action);
    let button = DeckButton { action: DeckAction::NextState };
    assert_eq!(button.clone(), button);
    assert_ne!(DeckAction::NextState, DeckAction::PrevState);
}
