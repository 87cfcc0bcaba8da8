//! A character in play: the statistics it was created with, and the karma
//! and stress it gathers.

use vstd::prelude::*;
use std::collections::HashSet;
use crate::spirit::Spirit;
use crate::stats::Stats;

verus! {

/// A character in play.
pub struct Character {
    name: String,
    discipline: u32,
    karma: u32,
    stress: u32,
    severances: HashSet<Spirit>,
    stats: Stats,
}

/// What a character holds, as plain values.
pub struct CharacterView {
    pub name: Seq<char>,
    pub discipline: u32,
    pub karma: u32,
    pub stress: u32,
    /// The spirits that the character is severed from.
    pub severances: Set<Spirit>,
    /// The statistics that the character was created with.
    pub stats: Stats,
}

impl View for Character {
    type V = CharacterView;

    closed spec fn view(&self) -> CharacterView {
        CharacterView {
            name: self.name@,
            discipline: self.discipline,
            karma: self.karma,
            stress: self.stress,
            severances: self.severances@,
            stats: self.stats,
        }
    }
}

impl Character {
    /// The karma that `add_karma` never leaves a character below.
    pub const MAX_KARMA: u32 = 6;

    /// A new character: its discipline is that of its statistics, it has no
    /// karma and no stress, and it is severed from no spirit.
    pub fn new(name: String, stats: Stats) -> (character: Self)
        ensures
            character@ == (CharacterView {
                name: name@,
                discipline: stats@.discipline,
                karma: 0,
                stress: 0,
                severances: Set::empty(),
                stats,
            }),
    {
        Self {
            name,
            discipline: stats.discipline(),
            karma: 0,
            stress: 0,
            severances: HashSet::new(),
            stats,
        }
    }

    /// Adds to the character's karma and returns the new karma, which is
    /// `MAX_KARMA` wherever the sum is less.
    pub fn add_karma(&mut self, karma: u32) -> (total: u32)
        requires
            old(self)@.karma + karma <= u32::MAX,
        ensures
            total == if old(self)@.karma + karma >= Self::MAX_KARMA {
                old(self)@.karma + karma
            } else {
                Self::MAX_KARMA as int
            },
            final(self)@ == (CharacterView { karma: total, ..old(self)@ }),
    {
        let sum: u32 = self.karma + karma;
        self.karma = if sum >= Self::MAX_KARMA {
            sum
        } else {
            Self::MAX_KARMA
        };
        self.karma
    }

    /// Takes from the character's karma and returns what is left. Where the
    /// character has less karma than is asked for, nothing is taken.
    pub fn substract_karma(&mut self, karma: u32) -> (left: Result<u32, ()>)
        ensures
            karma <= old(self)@.karma ==> left == Ok::<u32, ()>(
                (old(self)@.karma - karma) as u32,
            ) && final(self)@ == (CharacterView {
                karma: (old(self)@.karma - karma) as u32,
                ..old(self)@
            }),
            karma > old(self)@.karma ==> left is Err && final(self)@ == old(self)@,
    {
        match self.karma.checked_sub(karma) {
            None => Err(()),
            Some(karma) => {
                self.karma = karma;
                Ok(self.karma)
            },
        }
    }

    /// The character's name.
    pub fn name(&self) -> (name: &str)
        ensures
            name@ == self@.name,
    {
        self.name.as_str()
    }

    /// The discipline that the character has left.
    pub fn discipline(&self) -> (discipline: u32)
        ensures
            discipline == self@.discipline,
    {
        self.discipline
    }

    /// The character's karma.
    pub fn karma(&self) -> (karma: u32)
        ensures
            karma == self@.karma,
    {
        self.karma
    }

    /// The character's stress.
    pub fn stress(&self) -> (stress: u32)
        ensures
            stress == self@.stress,
    {
        self.stress
    }

    /// The statistics that the character was created with.
    pub fn stats(&self) -> (stats: Stats)
        ensures
            stats == self@.stats,
    {
        self.stats
    }
}

} // verus!
