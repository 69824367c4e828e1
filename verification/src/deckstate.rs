//! The profile state machine: which action each button of each profile
//! carries, which profile is active, and what a button press does.

use std::collections::HashMap;
use vstd::prelude::*;
use vstd::std_specs::hash::*;

use crate::deckactor::{ButtonChange, ButtonState, Command, MsgType};
use crate::hub::Broadcast;

verus! {

broadcast use vstd::std_specs::hash::group_hash_axioms;

/// What pressing a button does.
#[derive(Debug, PartialEq, Eq)]
pub enum DeckAction {
    /// Switch to the other one of the two profiles `0` and `1`.
    NextState,
    /// Reserved; changes nothing.
    PrevState,
    /// Send the command to every connected device.
    DeckMsg(MsgType),
}

/// The mathematical value of a [`DeckAction`].
pub ghost enum Action {
    NextState,
    PrevState,
    DeckMsg(Command),
}

impl View for DeckAction {
    type V = Action;

    open spec fn view(&self) -> Action {
        match self {
            DeckAction::NextState => Action::NextState,
            DeckAction::PrevState => Action::PrevState,
            DeckAction::DeckMsg(msg) => Action::DeckMsg(msg@),
        }
    }
}

impl Clone for DeckAction {
    fn clone(&self) -> (copy: Self)
        ensures
            copy@ == self@,
    {
        match self {
            DeckAction::NextState => DeckAction::NextState,
            DeckAction::PrevState => DeckAction::PrevState,
            DeckAction::DeckMsg(msg) => DeckAction::DeckMsg(msg.clone()),
        }
    }
}

/// One button of a profile.
#[derive(Debug, PartialEq, Eq)]
pub struct DeckButton {
    pub action: DeckAction,
}

impl View for DeckButton {
    type V = Action;

    open spec fn view(&self) -> Action {
        self.action@
    }
}

impl Clone for DeckButton {
    fn clone(&self) -> (copy: Self)
        ensures
            copy@ == self@,
    {
        DeckButton { action: self.action.clone() }
    }
}

/// A profile: the buttons that carry an action, by button index.
#[derive(Debug, PartialEq, Eq)]
pub struct DeckState {
    pub btns: HashMap<u16, DeckButton>,
}

/// The mathematical value of a profile: its action for each bound button.
pub type Profile = Map<u16, Action>;

impl View for DeckState {
    type V = Profile;

    open spec fn view(&self) -> Profile {
        self.btns@.map_values(|button: DeckButton| button@)
    }
}

impl DeckState {
    /// A profile without any bound button.
    pub fn new() -> (profile: Self)
        ensures
            profile@ == Map::<u16, Action>::empty(),
    {
        let profile = DeckState { btns: HashMap::new() };
        assert(profile@ =~= Map::<u16, Action>::empty());
        profile
    }
}

impl Default for DeckState {
    fn default() -> (profile: Self)
        ensures
            profile@ == Map::<u16, Action>::empty(),
    {
        Self::new()
    }
}

/// All profiles and the one that is active.
#[derive(Debug, PartialEq, Eq)]
pub struct DeckHandler {
    pub deck_states: HashMap<u32, DeckState>,
    pub active_state: u32,
}

/// The mathematical value of a [`DeckHandler`].
pub ghost struct ProfileSet {
    pub profiles: Map<u32, Profile>,
    pub active: u32,
}

/// The values of a map of profiles.
pub open spec fn profiles_of(deck_states: Map<u32, DeckState>) -> Map<u32, Profile> {
    deck_states.map_values(|state: DeckState| state@)
}

impl View for DeckHandler {
    type V = ProfileSet;

    open spec fn view(&self) -> ProfileSet {
        ProfileSet { profiles: profiles_of(self.deck_states@), active: self.active_state }
    }
}

/// The profile that follows `active`: `1` after `0`, and `0` after every
/// other profile, however many profiles there are.
pub open spec fn next_profile(active: u32) -> u32 {
    if active == 0 {
        1
    } else {
        0
    }
}

/// The action that a button change sets off: the one bound to the button in
/// the active profile, if the change is a press, the active profile exists
/// and it binds the button.
pub open spec fn bound_action(set: ProfileSet, press: ButtonChange) -> Option<Action> {
    if press.state is Pressed && set.profiles.contains_key(set.active) && press.btn <= u16::MAX
        && set.profiles[set.active].contains_key(press.btn as u16) {
        Some(set.profiles[set.active][press.btn as u16])
    } else {
        None
    }
}

/// The profile set after an action has run.
pub open spec fn after_action(set: ProfileSet, action: Action) -> ProfileSet {
    match action {
        Action::NextState => ProfileSet { active: next_profile(set.active), ..set },
        Action::PrevState => set,
        Action::DeckMsg(_) => set,
    }
}

/// The command that an action asks the hub to broadcast, if any.
pub open spec fn broadcast_of(action: Action) -> Option<Command> {
    match action {
        Action::DeckMsg(cmd) => Some(cmd),
        _ => None,
    }
}

/// The profile set after a button change, and the command to broadcast.
pub open spec fn dispatched(set: ProfileSet, press: ButtonChange) -> (ProfileSet, Option<Command>) {
    match bound_action(set, press) {
        Some(action) => (after_action(set, action), broadcast_of(action)),
        None => (set, None),
    }
}

/// The command inside an optional broadcast request.
pub open spec fn requested(request: Option<Broadcast>) -> Option<Command> {
    match request {
        Some(broadcast) => Some(broadcast.0@),
        None => None,
    }
}

/// What is kept of a profile set when it is saved: the profiles, and not
/// which of them is active.
pub open spec fn saved(set: ProfileSet) -> Map<u32, Profile> {
    set.profiles
}

/// The profile set that loading gives: the stored profiles if there are
/// any, else none at all, and in both cases profile `0` active.
pub open spec fn loaded(stored: Option<Map<u32, Profile>>) -> ProfileSet {
    match stored {
        Some(profiles) => ProfileSet { profiles, active: 0 },
        None => ProfileSet { profiles: Map::empty(), active: 0 },
    }
}

impl DeckAction {
    /// Runs the action on the profile set and returns the broadcast that
    /// the hub has to carry out, if the action asks for one.
    pub fn execute(&self, dh: &mut DeckHandler) -> (request: Option<Broadcast>)
        ensures
            final(dh)@ == after_action(old(dh)@, self@),
            requested(request) == broadcast_of(self@),
    {
        match self {
            DeckAction::DeckMsg(msg) => Some(Broadcast(msg.clone())),
            DeckAction::NextState => {
                if dh.active_state == 0 {
                    dh.active_state = 1;
                } else {
                    dh.active_state = 0;
                }
                None
            },
            DeckAction::PrevState => None,
        }
    }
}

impl DeckHandler {
    /// Reacts to a button change.
    ///
    /// A release does nothing. A press runs the action bound to the button
    /// in the active profile; where the active profile is missing or does
    /// not bind the button, the press does nothing either.
    pub fn handle_btn_press(&mut self, press: ButtonChange) -> (request: Option<Broadcast>)
        ensures
            (final(self)@, requested(request)) == dispatched(old(self)@, press),
            press.state is Released ==> final(self)@ == old(self)@ && request is None,
            final(self)@.profiles == old(self)@.profiles,
    {
        if let ButtonState::Released = press.state {
            return None;
        }
        if press.btn > u16::MAX as usize {
            return None;
        }
        let key = press.btn as u16;
        let action = match self.deck_states.get(&self.active_state) {
            None => {
                return None;
            },
            Some(state) => match state.btns.get(&key) {
                None => {
                    return None;
                },
                Some(button) => button.action.clone(),
            },
        };
        action.execute(self)
    }

    /// A profile set over the given profiles, with profile `0` active.
    pub fn new(deck_states: HashMap<u32, DeckState>) -> (handler: Self)
        ensures
            handler.deck_states == deck_states,
            handler@ == loaded(Some(profiles_of(deck_states@))),
    {
        DeckHandler { deck_states, active_state: 0 }
    }

    /// The part of the profile set that is written out when it is saved.
    pub fn save(&self) -> (stored: &HashMap<u32, DeckState>)
        ensures
            *stored == self.deck_states,
            profiles_of(stored@) == saved(self@),
    {
        &self.deck_states
    }

    /// The profile set for what was read back: the stored profiles where
    /// there was a readable record, and the empty profile set where there
    /// was none.
    pub fn load(stored: Option<HashMap<u32, DeckState>>) -> (handler: Self)
        ensures
            handler@ == loaded(
                match stored {
                    Some(deck_states) => Some(profiles_of(deck_states@)),
                    None => None,
                },
            ),
    {
        match stored {
            Some(deck_states) => Self::new(deck_states),
            None => Self::default(),
        }
    }
}

impl Default for DeckHandler {
    fn default() -> (handler: Self)
        ensures
            handler@ == loaded(None),
    {
        let handler = Self::new(HashMap::new());
        assert(handler@.profiles =~= Map::<u32, Profile>::empty());
        handler
    }
}

/// Saving a profile set and loading what was saved gives back every profile
/// with every button and action it had, and makes profile `0` the active
/// one, whichever was active before.
pub proof fn lemma_save_load(set: ProfileSet)
    ensures
        loaded(Some(saved(set))).profiles == set.profiles,
        loaded(Some(saved(set))).active == 0,
{
}

/// A release never changes the profile set and never asks for a broadcast.
pub proof fn lemma_release_is_ignored(set: ProfileSet, btn: usize)
    ensures
        dispatched(set, ButtonChange { btn, state: ButtonState::Released }) == (
            set,
            None::<Command>,
        ),
{
}

/// Pressing a button bound to [`Action::NextState`] leaves the profiles as
/// they are and makes profile `1` active if profile `0` was, and profile `0`
/// in every other case; so it never leads to a profile beyond `1`, and two
/// presses in a row starting from profile `0` or `1` lead back, provided the
/// profile in between binds the button in the same way.
pub proof fn lemma_next_state_alternates(set: ProfileSet, btn: usize)
    requires
        bound_action(set, ButtonChange { btn, state: ButtonState::Pressed }) == Some(
            Action::NextState,
        ),
    ensures
        ({
            let press = ButtonChange { btn, state: ButtonState::Pressed };
            let (once, request) = dispatched(set, press);
            &&& request is None
            &&& once.profiles == set.profiles
            &&& once.active == next_profile(set.active)
            &&& once.active <= 1
            &&& set.active == 0 ==> once.active == 1
            &&& set.active != 0 ==> once.active == 0
            &&& bound_action(once, press) == Some(Action::NextState) && set.active <= 1
                ==> dispatched(once, press).0 == set
        }),
{
}

} // verus!
