//! The five tiers of connection between a character and a spirit.

use vstd::prelude::*;

verus! {

/// How closely a character is connected to a spirit.
#[derive(Debug, Copy, Clone, Eq, PartialEq, Structural)]
pub enum Connection {
    Ineptitude,
    Competence,
    Expertise,
    Mastery,
    Wizardry,
}

impl Connection {
    /// Every connection, from the loosest to the closest.
    pub const LIST: [Connection; 5] = [
        Connection::Ineptitude,
        Connection::Competence,
        Connection::Expertise,
        Connection::Mastery,
        Connection::Wizardry,
    ];

    /// Number of sides of the die rolled for a spirit at this connection.
    pub open spec fn spec_die(self) -> u8 {
        match self {
            Connection::Ineptitude => 20,
            Connection::Competence => 12,
            Connection::Expertise => 10,
            Connection::Mastery => 8,
            Connection::Wizardry => 6,
        }
    }

    /// What a spirit at this connection adds to the statistic it feeds.
    pub open spec fn spec_increment(self) -> u32 {
        match self {
            Connection::Competence => 1,
            Connection::Expertise => 3,
            Connection::Mastery => 5,
            Connection::Ineptitude | Connection::Wizardry => 0,
        }
    }

    /// The connection's name.
    pub open spec fn spec_name(self) -> Seq<char> {
        match self {
            Connection::Ineptitude => "Ineptitude"@,
            Connection::Competence => "Competence"@,
            Connection::Expertise => "Expertise"@,
            Connection::Mastery => "Mastery"@,
            Connection::Wizardry => "Wizardry"@,
        }
    }

    /// Number of sides of the die rolled for a spirit at this connection:
    /// the closer the connection, the smaller the die.
    #[verifier::when_used_as_spec(spec_die)]
    pub fn die(self) -> (sides: u8)
        ensures
            sides == self.spec_die(),
    {
        match self {
            Connection::Ineptitude => 20,
            Connection::Competence => 12,
            Connection::Expertise => 10,
            Connection::Mastery => 8,
            Connection::Wizardry => 6,
        }
    }

    /// What a spirit at this connection adds to the statistic it feeds.
    #[verifier::when_used_as_spec(spec_increment)]
    pub fn increment(self) -> (points: u32)
        ensures
            points == self.spec_increment(),
    {
        match self {
            Connection::Ineptitude => 0,
            Connection::Competence => 1,
            Connection::Expertise => 3,
            Connection::Mastery => 5,
            Connection::Wizardry => 0,
        }
    }

    /// The connection's name, as it is shown to a player.
    pub fn name(self) -> (text: &'static str)
        ensures
            text@ == self.spec_name(),
    {
        match self {
            Connection::Ineptitude => "Ineptitude",
            Connection::Competence => "Competence",
            Connection::Expertise => "Expertise",
            Connection::Mastery => "Mastery",
            Connection::Wizardry => "Wizardry",
        }
    }

    /// The connection's name as an owned string.
    pub fn to_string(&self) -> (text: String)
        ensures
            text@ == self.spec_name(),
    {
        self.name().to_owned()
    }
}

} // verus!
