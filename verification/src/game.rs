//! A game: the characters that play it, and whether they are on a mission.

use vstd::prelude::*;
use crate::character::{Character, CharacterView};
use crate::spirit::Spirit;

verus! {

/// A game and its characters.
pub struct Game {
    characters: Vec<GameCharacter>,
    state: GameState,
}

/// A character in a game, with the spirit that moves it, if one does.
struct GameCharacter {
    base: Character,
    mood: Option<Spirit>,
}

/// Whether the characters of a game are on a mission or between two.
#[derive(Debug, Copy, Clone, Eq, PartialEq, Structural)]
pub enum GameState {
    Mission,
    Downtime,
}

impl Game {
    /// The characters of the game, in their order.
    pub closed spec fn characters(&self) -> Seq<CharacterView> {
        Seq::new(self.characters@.len(), |i: int| self.characters@[i].base@)
    }

    /// The spirit that moves each character, if one does, in the order of
    /// the characters.
    pub closed spec fn moods(&self) -> Seq<Option<Spirit>> {
        Seq::new(self.characters@.len(), |i: int| self.characters@[i].mood)
    }

    /// Whether the characters are on a mission or between two.
    pub closed spec fn spec_state(&self) -> GameState {
        self.state
    }

    /// A new game of the given characters, in their order. It starts
    /// between missions, and no spirit moves any character.
    pub fn new(characters: Vec<Character>) -> (game: Self)
        ensures
            game.characters() == Seq::new(characters@.len(), |i: int| characters@[i]@),
            game.moods() == Seq::new(characters@.len(), |i: int| None::<Spirit>),
            game.spec_state() == GameState::Downtime,
    {
        let ghost given = characters@;
        let mut members: Vec<GameCharacter> = Vec::new();
        for base in it: characters
            invariant
                it.seq() == given,
                members@.len() == it.index(),
                forall|j: int|
                    0 <= j < members@.len() ==> (#[trigger] members@[j]).base@ == given[j]@
                        && members@[j].mood is None,
        {
            members.push(GameCharacter { base, mood: None });
        }
        let game = Self { characters: members, state: GameState::Downtime };
        assert(game.characters() =~= Seq::new(given.len(), |i: int| given[i]@));
        assert(game.moods() =~= Seq::new(given.len(), |i: int| None::<Spirit>));
        game
    }

    /// Number of characters in the game.
    pub fn character_count(&self) -> (n: usize)
        ensures
            n == self.characters().len(),
    {
        self.characters.len()
    }

    /// Whether the characters are on a mission or between two.
    #[verifier::when_used_as_spec(spec_state)]
    pub fn state(&self) -> (state: GameState)
        ensures
            state == self.spec_state(),
    {
        self.state
    }
}

} // verus!
