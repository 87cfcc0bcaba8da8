//! Which of its two screens an application shows, and where it sends the
//! messages that reach it.
//!
//! The character creator has messages of its own. They pass through here
//! unread, so their type is a parameter.

use vstd::prelude::*;
use vstd::std_specs::convert::FromSpecImpl;
use crate::screen;

verus! {

/// The screen that the application shows.
#[derive(Debug, Copy, Clone, Eq, PartialEq, Structural)]
pub enum ApplicationState {
    CharacterCreator,
    Game,
}

/// A message to the application: a change of screen, or a message for one
/// of the two screens.
#[derive(Debug, Clone)]
pub enum Message<C> {
    TransitionCharacterCreator,
    TransitionGame,
    CharactorCreator(C),
    Game(screen::Message),
}

/// What is left to do with a message once the application has seen it.
#[derive(Debug, Clone)]
pub enum Forward<C> {
    /// Nothing: the message was for the application itself.
    Nothing,
    /// The character creator is to handle the message that this holds.
    CharactorCreator(C),
    /// The game screen is to handle the message that this holds.
    Game(screen::Message),
}

impl<C> From<screen::Message> for Message<C> {
    fn from(inner: screen::Message) -> (message: Self) {
        Message::Game(inner)
    }
}

impl<C> FromSpecImpl<screen::Message> for Message<C> {
    open spec fn obeys_from_spec() -> bool {
        true
    }

    open spec fn from_spec(inner: screen::Message) -> Self {
        Message::Game(inner)
    }
}

impl ApplicationState {
    /// The screen shown once `message` has been handled: a transition
    /// shows the screen it names, whatever was shown before, and any other
    /// message leaves the screen as it is.
    pub open spec fn after<C>(self, message: Message<C>) -> ApplicationState {
        match message {
            Message::TransitionCharacterCreator => ApplicationState::CharacterCreator,
            Message::TransitionGame => ApplicationState::Game,
            Message::CharactorCreator(_) => self,
            Message::Game(_) => self,
        }
    }

    /// What is left to do with `message`: a message for a screen goes to
    /// that screen, whichever screen is shown.
    pub open spec fn forwarded<C>(message: Message<C>) -> Forward<C> {
        match message {
            Message::TransitionCharacterCreator => Forward::Nothing,
            Message::TransitionGame => Forward::Nothing,
            Message::CharactorCreator(inner) => Forward::CharactorCreator(inner),
            Message::Game(inner) => Forward::Game(inner),
        }
    }

    /// Handles a message: changes the screen where the message asks for it,
    /// and hands back what is left to do.
    pub fn update<C>(&mut self, message: Message<C>) -> (forward: Forward<C>)
        ensures
            *final(self) == old(self).after(message),
            forward == Self::forwarded(message),
    {
        match message {
            Message::TransitionCharacterCreator => {
                *self = ApplicationState::CharacterCreator;
                Forward::Nothing
            },
            Message::TransitionGame => {
                *self = ApplicationState::Game;
                Forward::Nothing
            },
            Message::CharactorCreator(inner) => Forward::CharactorCreator(inner),
            Message::Game(inner) => Forward::Game(inner),
        }
    }
}

} // verus!
