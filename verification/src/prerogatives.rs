//! Prerogatives, burdens, and the set of them that a character takes.

use vstd::prelude::*;
use crate::spirit::Stat;

verus! {

/// A drawback that a character accepts in exchange for one more prerogative.
#[derive(Debug, Copy, Clone, Eq, PartialEq, Structural)]
pub enum Burden {
    Addiction,
    BadReputation,
    Poverty,
    Rookie,
    Debt,
    Devotion,
    Fame,
    Hauntings,
    Illness,
    Impairment,
    LexTalionis,
    Phobia,
    Wanted,
    Youth,
}

impl Burden {
    /// Every burden, in declaration order.
    pub const LIST: [Burden; 14] = [
        Burden::Addiction,
        Burden::BadReputation,
        Burden::Poverty,
        Burden::Rookie,
        Burden::Debt,
        Burden::Devotion,
        Burden::Fame,
        Burden::Hauntings,
        Burden::Illness,
        Burden::Impairment,
        Burden::LexTalionis,
        Burden::Phobia,
        Burden::Wanted,
        Burden::Youth,
    ];

    /// The names of the burdens, in declaration order.
    pub const NAMES: [&'static str; 14] = [
        "Addiction",
        "BadReputation",
        "Poverty",
        "Rookie",
        "Debt",
        "Devotion",
        "Fame",
        "Hauntings",
        "Illness",
        "Impairment",
        "LexTalionis",
        "Phobia",
        "Wanted",
        "Youth",
    ];

    /// Position of the burden in declaration order, from 0 to 13.
    pub open spec fn ordinal(self) -> int {
        match self {
            Burden::Addiction => 0,
            Burden::BadReputation => 1,
            Burden::Poverty => 2,
            Burden::Rookie => 3,
            Burden::Debt => 4,
            Burden::Devotion => 5,
            Burden::Fame => 6,
            Burden::Hauntings => 7,
            Burden::Illness => 8,
            Burden::Impairment => 9,
            Burden::LexTalionis => 10,
            Burden::Phobia => 11,
            Burden::Wanted => 12,
            Burden::Youth => 13,
        }
    }

    /// Position of the burden in declaration order.
    pub fn index(self) -> (i: usize)
        ensures
            i == self.ordinal(),
            Burden::LIST@[i as int] == self,
    {
        match self {
            Burden::Addiction => 0,
            Burden::BadReputation => 1,
            Burden::Poverty => 2,
            Burden::Rookie => 3,
            Burden::Debt => 4,
            Burden::Devotion => 5,
            Burden::Fame => 6,
            Burden::Hauntings => 7,
            Burden::Illness => 8,
            Burden::Impairment => 9,
            Burden::LexTalionis => 10,
            Burden::Phobia => 11,
            Burden::Wanted => 12,
            Burden::Youth => 13,
        }
    }

    /// The burden's name, as it is shown to a player.
    pub fn name(self) -> (text: &'static str)
        ensures
            text == Burden::NAMES@[self.ordinal()],
    {
        Burden::NAMES[self.index()]
    }

    /// The burden's name as an owned string.
    pub fn to_string(&self) -> (text: String)
        ensures
            text@ == Burden::NAMES@[self.ordinal()]@,
    {
        self.name().to_owned()
    }
}

/// An advantage that a character takes. Three of them raise a statistic.
#[derive(Debug, Copy, Clone, Eq, PartialEq, Structural)]
pub enum Prerogative {
    Conviction,
    Education,
    Vocation,
    Certification,
    Promotion,
    Wealth,
    DevilKiller,
    Endurance,
    Family,
    HealingHands,
    Liaison,
    Organization,
    AstralProjection,
    Premonitions,
    Psychokinesis,
    Psychometry,
    Relic,
    Witchcraft,
}

impl Prerogative {
    /// Every prerogative, in declaration order.
    pub const LIST: [Prerogative; 18] = [
        Prerogative::Conviction,
        Prerogative::Education,
        Prerogative::Vocation,
        Prerogative::Certification,
        Prerogative::Promotion,
        Prerogative::Wealth,
        Prerogative::DevilKiller,
        Prerogative::Endurance,
        Prerogative::Family,
        Prerogative::HealingHands,
        Prerogative::Liaison,
        Prerogative::Organization,
        Prerogative::AstralProjection,
        Prerogative::Premonitions,
        Prerogative::Psychokinesis,
        Prerogative::Psychometry,
        Prerogative::Relic,
        Prerogative::Witchcraft,
    ];

    /// The names of the prerogatives, in declaration order.
    pub const NAMES: [&'static str; 18] = [
        "Conviction",
        "Education",
        "Vocation",
        "Certification",
        "Promotion",
        "Wealth",
        "DevilKiller",
        "Endurance",
        "Family",
        "HealingHands",
        "Liaison",
        "Organization",
        "AstralProjection",
        "Premonitions",
        "Psychokinesis",
        "Psychometry",
        "Relic",
        "Witchcraft",
    ];

    /// What a prerogative that raises a statistic adds to it.
    pub const BONUS: u32 = 3;

    /// Position of the prerogative in declaration order, from 0 to 17.
    pub open spec fn ordinal(self) -> int {
        match self {
            Prerogative::Conviction => 0,
            Prerogative::Education => 1,
            Prerogative::Vocation => 2,
            Prerogative::Certification => 3,
            Prerogative::Promotion => 4,
            Prerogative::Wealth => 5,
            Prerogative::DevilKiller => 6,
            Prerogative::Endurance => 7,
            Prerogative::Family => 8,
            Prerogative::HealingHands => 9,
            Prerogative::Liaison => 10,
            Prerogative::Organization => 11,
            Prerogative::AstralProjection => 12,
            Prerogative::Premonitions => 13,
            Prerogative::Psychokinesis => 14,
            Prerogative::Psychometry => 15,
            Prerogative::Relic => 16,
            Prerogative::Witchcraft => 17,
        }
    }

    /// The statistic that the prerogative raises, if it raises one:
    /// conviction raises discipline, education knowledge, vocation
    /// proficiency, and the other fifteen none.
    pub open spec fn spec_bonus_stat(self) -> Option<Stat> {
        match self {
            Prerogative::Conviction => Some(Stat::Discipline),
            Prerogative::Education => Some(Stat::Knowledge),
            Prerogative::Vocation => Some(Stat::Proficiency),
            _ => None,
        }
    }

    /// Position of the prerogative in declaration order.
    pub fn index(self) -> (i: usize)
        ensures
            i == self.ordinal(),
            Prerogative::LIST@[i as int] == self,
    {
        match self {
            Prerogative::Conviction => 0,
            Prerogative::Education => 1,
            Prerogative::Vocation => 2,
            Prerogative::Certification => 3,
            Prerogative::Promotion => 4,
            Prerogative::Wealth => 5,
            Prerogative::DevilKiller => 6,
            Prerogative::Endurance => 7,
            Prerogative::Family => 8,
            Prerogative::HealingHands => 9,
            Prerogative::Liaison => 10,
            Prerogative::Organization => 11,
            Prerogative::AstralProjection => 12,
            Prerogative::Premonitions => 13,
            Prerogative::Psychokinesis => 14,
            Prerogative::Psychometry => 15,
            Prerogative::Relic => 16,
            Prerogative::Witchcraft => 17,
        }
    }

    /// The statistic that the prerogative raises, if it raises one.
    #[verifier::when_used_as_spec(spec_bonus_stat)]
    pub fn bonus_stat(self) -> (stat: Option<Stat>)
        ensures
            stat == self.spec_bonus_stat(),
    {
        match self {
            Prerogative::Conviction => Some(Stat::Discipline),
            Prerogative::Education => Some(Stat::Knowledge),
            Prerogative::Vocation => Some(Stat::Proficiency),
            _ => None,
        }
    }

    /// The prerogative's name, as it is shown to a player.
    pub fn name(self) -> (text: &'static str)
        ensures
            text == Prerogative::NAMES@[self.ordinal()],
    {
        Prerogative::NAMES[self.index()]
    }

    /// The prerogative's name as an owned string.
    pub fn to_string(&self) -> (text: String)
        ensures
            text@ == Prerogative::NAMES@[self.ordinal()]@,
    {
        self.name().to_owned()
    }
}

/// The prerogatives and burdens of one character: four base prerogatives,
/// which cost nothing, and up to four more, each paid for with a burden.
#[derive(Debug, Eq, PartialEq)]
pub struct PrerogativesAndBurdens {
    base: [Prerogative; 4],
    optional: Vec<(Burden, Prerogative)>,
}

impl PrerogativesAndBurdens {
    /// Number of base prerogatives.
    pub const BASE_COUNT: usize = 4;

    /// Largest number of burdens, each with its prerogative.
    pub const MAX_BURDENS: usize = 4;

    #[verifier::type_invariant]
    closed spec fn bounded(self) -> bool {
        self.optional@.len() <= Self::MAX_BURDENS
    }

    /// The four base prerogatives, by slot.
    pub closed spec fn base(self) -> Seq<Prerogative> {
        self.base@
    }

    /// The burdens taken, each with the prerogative it paid for, oldest
    /// first.
    pub closed spec fn optional(self) -> Seq<(Burden, Prerogative)> {
        self.optional@
    }

    /// The burdens taken, oldest first.
    pub open spec fn spec_burdens(self) -> Seq<Burden> {
        Seq::new(self.optional().len(), |i: int| self.optional()[i].0)
    }

    /// Every prerogative of the character, in the order in which they
    /// apply: the base prerogatives by slot, then those paid for with a
    /// burden, oldest first.
    pub open spec fn spec_prerogatives(self) -> Seq<Prerogative> {
        self.base() + Seq::new(self.optional().len(), |i: int| self.optional()[i].1)
    }

    /// There are four base prerogatives, and each burden comes with one
    /// more prerogative.
    pub proof fn lemma_shape(self)
        ensures
            self.base().len() == 4,
            self.spec_burdens().len() == self.optional().len(),
            self.spec_prerogatives().len() == 4 + self.optional().len(),
    {
    }

    /// The set with the given base prerogatives and no burden.
    pub fn new(prerogatives: [Prerogative; 4]) -> (set: Self)
        ensures
            set.base() == prerogatives@,
            set.optional() == Seq::<(Burden, Prerogative)>::empty(),
    {
        Self { base: prerogatives, optional: Vec::with_capacity(4) }
    }

    /// Takes a burden and the prerogative it pays for, unless four burdens
    /// are taken already. Says whether the burden was taken.
    pub fn add_burden(&mut self, burden: Burden, prerogative: Prerogative) -> (added: bool)
        ensures
            added == (old(self).optional().len() < Self::MAX_BURDENS),
            final(self).base() == old(self).base(),
            final(self).optional() == if added {
                old(self).optional().push((burden, prerogative))
            } else {
                old(self).optional()
            },
            final(self).optional().len() <= Self::MAX_BURDENS,
    {
        proof {
            use_type_invariant(&*self);
        }
        if self.optional.len() < 4 {
            let mut optional: Vec<(Burden, Prerogative)> = Vec::new();
            std::mem::swap(&mut optional, &mut self.optional);
            optional.push((burden, prerogative));
            self.optional = optional;
            true
        } else {
            false
        }
    }

    /// Gives back the burden taken last, with its prerogative. Where no
    /// burden is taken, nothing changes.
    pub fn remove_last(&mut self) -> (removed: Option<(Burden, Prerogative)>)
        ensures
            final(self).base() == old(self).base(),
            old(self).optional().len() == 0 ==> removed is None && final(self).optional() == old(
                self,
            ).optional(),
            old(self).optional().len() > 0 ==> removed == Some(old(self).optional().last())
                && final(self).optional() == old(self).optional().drop_last(),
    {
        proof {
            use_type_invariant(&*self);
        }
        let mut optional: Vec<(Burden, Prerogative)> = Vec::new();
        std::mem::swap(&mut optional, &mut self.optional);
        let removed = optional.pop();
        self.optional = optional;
        removed
    }

    /// Puts `prerogative` into a base slot, in place of what was there.
    /// Slots are numbered from 0 to 3; for any other number nothing changes.
    /// Says whether the slot exists.
    pub fn set_prerogative(&mut self, slot: usize, prerogative: Prerogative) -> (set: bool)
        ensures
            set == (slot < Self::BASE_COUNT),
            final(self).optional() == old(self).optional(),
            final(self).base() == if set {
                old(self).base().update(slot as int, prerogative)
            } else {
                old(self).base()
            },
    {
        proof {
            use_type_invariant(&*self);
        }
        if slot < 4 {
            self.base[slot] = prerogative;
            true
        } else {
            false
        }
    }

    /// Number of burdens taken.
    pub fn burden_count(&self) -> (n: usize)
        ensures
            n == self.optional().len(),
            n <= Self::MAX_BURDENS,
    {
        proof {
            use_type_invariant(self);
        }
        self.optional.len()
    }

    /// The burdens taken, oldest first.
    pub fn burdens(&self) -> (burdens: Vec<Burden>)
        ensures
            burdens@ == self.spec_burdens(),
    {
        let mut burdens: Vec<Burden> = Vec::new();
        let mut i: usize = 0;
        while i < self.optional.len()
            invariant
                i <= self.optional@.len(),
                burdens@.len() == i,
                forall|j: int| 0 <= j < i ==> burdens@[j] == self.optional@[j].0,
            decreases self.optional@.len() - i,
        {
            burdens.push(self.optional[i].0);
            i += 1;
        }
        assert(burdens@ =~= self.spec_burdens());
        burdens
    }

    /// Every prerogative of the character, in the order in which they
    /// apply.
    pub fn prerogatives(&self) -> (prerogatives: Vec<Prerogative>)
        ensures
            prerogatives@ == self.spec_prerogatives(),
            prerogatives@.len() <= Self::BASE_COUNT + Self::MAX_BURDENS,
    {
        proof {
            use_type_invariant(self);
        }
        let mut prerogatives: Vec<Prerogative> = Vec::new();
        let mut i: usize = 0;
        while i < 4
            invariant
                i <= 4,
                prerogatives@.len() == i,
                forall|j: int| 0 <= j < i ==> prerogatives@[j] == self.base@[j],
            decreases 4 - i,
        {
            prerogatives.push(self.base[i]);
            i += 1;
        }
        let mut k: usize = 0;
        while k < self.optional.len()
            invariant
                k <= self.optional@.len(),
                prerogatives@.len() == 4 + k,
                forall|j: int| 0 <= j < 4 ==> prerogatives@[j] == self.base@[j],
                forall|j: int| 0 <= j < k ==> prerogatives@[4 + j] == self.optional@[j].1,
            decreases self.optional@.len() - k,
        {
            prerogatives.push(self.optional[k].1);
            k += 1;
        }
        assert(prerogatives@ =~= self.spec_prerogatives());
        prerogatives
    }
}

impl Clone for PrerogativesAndBurdens {
    fn clone(&self) -> (copy: Self)
        ensures
            copy.base() == self.base(),
            copy.optional() == self.optional(),
    {
        proof {
            use_type_invariant(self);
        }
        let mut optional: Vec<(Burden, Prerogative)> = Vec::with_capacity(4);
        let mut i: usize = 0;
        while i < self.optional.len()
            invariant
                i <= self.optional@.len(),
                self.optional@.len() <= 4,
                optional@ == self.optional@.take(i as int),
            decreases self.optional@.len() - i,
        {
            optional.push(self.optional[i]);
            assert(self.optional@.take(i + 1) =~= self.optional@.take(i as int).push(
                self.optional@[i as int],
            ));
            i += 1;
        }
        assert(self.optional@.take(i as int) =~= self.optional@);
        Self { base: self.base, optional }
    }
}

} // verus!
