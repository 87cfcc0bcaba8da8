//! The fifteen spirits and the statistic each of them feeds.

use vstd::prelude::*;

verus! {

/// One of the three statistics that a character's spirits feed.
#[derive(Debug, Copy, Clone, Eq, PartialEq, Structural, Ord, PartialOrd, Hash)]
pub enum Stat {
    Knowledge,
    Discipline,
    Proficiency,
}

impl Stat {
    /// Every statistic, in declaration order.
    pub const LIST: [Stat; 3] = [Stat::Knowledge, Stat::Discipline, Stat::Proficiency];
}

/// One of the fifteen spirits a character can be connected to.
#[derive(Debug, Copy, Clone, Eq, PartialEq, Structural, Ord, PartialOrd, Hash)]
pub enum Spirit {
    TheVeil,
    Mirror,
    ThePath,
    Shadows,
    Instinct,
    Reason,
    Whispers,
    Respect,
    Drama,
    Motion,
    Muscle,
    Kinesis,
    Glamour,
    Balance,
    ThePulse,
}

impl Spirit {
    /// Every spirit, in declaration order. This is the canonical order in
    /// which a selection lists its spirits.
    pub const LIST: [Spirit; 15] = [
        Spirit::TheVeil,
        Spirit::Mirror,
        Spirit::ThePath,
        Spirit::Shadows,
        Spirit::Instinct,
        Spirit::Reason,
        Spirit::Whispers,
        Spirit::Respect,
        Spirit::Drama,
        Spirit::Motion,
        Spirit::Muscle,
        Spirit::Kinesis,
        Spirit::Glamour,
        Spirit::Balance,
        Spirit::ThePulse,
    ];

    /// One sentence on what each spirit stands for, in declaration order.
    pub const DESCRIPTIONS: [&'static str; 15] = [
        "Explore the abyss and know its power, consult the dead, challenge death's rule.",
        "See yourself clearly, see others' reflections in you, blend in.",
        "See how things got here, where they're going, when to change paths.",
        "Stay hidden, follow behind, strike unseen.",
        "Enter fight or flight mode, focus on your every sense, follow passion and instinct.",
        "Use logic to choose correctly, change minds, manipulate symbols.",
        "Recall secrets you've heard, steal new ones from them, sow evil seeds.",
        "Demand acknowledgement, enforce obedience, know who rules whom.",
        "Take the stage, spot bad actors, create a fiction.",
        "Move with purpose, move every nerve in concert, maximize speed.",
        "Kick things in, beat them down, roll with the punches.",
        "Take control of a thing, think how it thinks, guide how it moves.",
        "Draw others in, distract and confuse, find the beauty.",
        "Steady body, steady hands, steady mind.",
        "Know the roots, swim with the current's flow, chase the future.",
    ];

    /// Position of the spirit in declaration order, from 0 to 14.
    pub open spec fn ordinal(self) -> int {
        match self {
            Spirit::TheVeil => 0,
            Spirit::Mirror => 1,
            Spirit::ThePath => 2,
            Spirit::Shadows => 3,
            Spirit::Instinct => 4,
            Spirit::Reason => 5,
            Spirit::Whispers => 6,
            Spirit::Respect => 7,
            Spirit::Drama => 8,
            Spirit::Motion => 9,
            Spirit::Muscle => 10,
            Spirit::Kinesis => 11,
            Spirit::Glamour => 12,
            Spirit::Balance => 13,
            Spirit::ThePulse => 14,
        }
    }

    /// The spirit at a position of the declaration order.
    pub open spec fn at(i: int) -> Spirit
        recommends
            0 <= i < 15,
    {
        Spirit::LIST@[i]
    }

    /// The statistic that the spirit feeds: five spirits for each.
    pub open spec fn spec_stat(self) -> Stat {
        match self {
            Spirit::TheVeil | Spirit::Mirror | Spirit::Respect | Spirit::Muscle | Spirit::Balance =>
                Stat::Discipline,
            Spirit::ThePath | Spirit::Reason | Spirit::Whispers | Spirit::Drama | Spirit::ThePulse =>
                Stat::Knowledge,
            Spirit::Shadows | Spirit::Instinct | Spirit::Motion | Spirit::Kinesis | Spirit::Glamour =>
                Stat::Proficiency,
        }
    }

    /// The statistic that the spirit feeds.
    #[verifier::when_used_as_spec(spec_stat)]
    pub fn stat(self) -> (stat: Stat)
        ensures
            stat == self.spec_stat(),
    {
        match self {
            Spirit::TheVeil => Stat::Discipline,
            Spirit::Mirror => Stat::Discipline,
            Spirit::ThePath => Stat::Knowledge,
            Spirit::Shadows => Stat::Proficiency,
            Spirit::Instinct => Stat::Proficiency,
            Spirit::Reason => Stat::Knowledge,
            Spirit::Whispers => Stat::Knowledge,
            Spirit::Respect => Stat::Discipline,
            Spirit::Drama => Stat::Knowledge,
            Spirit::Motion => Stat::Proficiency,
            Spirit::Muscle => Stat::Discipline,
            Spirit::Kinesis => Stat::Proficiency,
            Spirit::Glamour => Stat::Proficiency,
            Spirit::Balance => Stat::Discipline,
            Spirit::ThePulse => Stat::Knowledge,
        }
    }

    /// Position of the spirit in declaration order.
    pub fn index(self) -> (i: usize)
        ensures
            i == self.ordinal(),
            i < 15,
    {
        match self {
            Spirit::TheVeil => 0,
            Spirit::Mirror => 1,
            Spirit::ThePath => 2,
            Spirit::Shadows => 3,
            Spirit::Instinct => 4,
            Spirit::Reason => 5,
            Spirit::Whispers => 6,
            Spirit::Respect => 7,
            Spirit::Drama => 8,
            Spirit::Motion => 9,
            Spirit::Muscle => 10,
            Spirit::Kinesis => 11,
            Spirit::Glamour => 12,
            Spirit::Balance => 13,
            Spirit::ThePulse => 14,
        }
    }

    /// The spirit at position `i` of the declaration order, if there is one.
    pub fn from_index(i: usize) -> (spirit: Option<Spirit>)
        ensures
            spirit == if i < 15 {
                Some(Spirit::at(i as int))
            } else {
                None
            },
    {
        if i < 15 {
            Some(Spirit::LIST[i])
        } else {
            None
        }
    }

    /// One sentence on what the spirit stands for.
    pub fn description_short(self) -> (text: &'static str)
        ensures
            text == Spirit::DESCRIPTIONS@[self.ordinal()],
    {
        Spirit::DESCRIPTIONS[self.index()]
    }

    /// `ordinal` and `at` are inverse to each other: the declaration order
    /// numbers the fifteen spirits from 0 to 14 without gap or repetition.
    pub proof fn lemma_ordinal_at()
        ensures
            forall|s: Spirit| 0 <= #[trigger] s.ordinal() < 15 && Spirit::at(s.ordinal()) == s,
            forall|i: int| 0 <= i < 15 ==> (#[trigger] Spirit::at(i)).ordinal() == i,
    {
    }
}

} // verus!
