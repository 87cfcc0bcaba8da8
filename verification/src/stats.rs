//! The three statistics of a character: what a spirit selection yields, and
//! what the character's prerogatives make of it.

use vstd::prelude::*;
use crate::connection::Connection;
use crate::prerogatives::{Prerogative, PrerogativesAndBurdens};
use crate::selection::{SpiritSelection, count, lemma_count_bound, lemma_count_take};
use crate::spirit::{Spirit, Stat};

verus! {

/// A prerogative was to raise a statistic that had reached its maximum.
#[derive(Debug, Copy, Clone, Eq, PartialEq, Structural)]
pub struct StatisticCapExceeded {
    /// The statistic that could not be raised.
    pub statistic: Stat,
}

/// What one spirit with its connection adds to `stat`: the increment of the
/// connection where the spirit feeds `stat`, and nothing where it feeds
/// another.
pub open spec fn contribution(pair: (Spirit, Connection), stat: Stat) -> nat {
    if pair.0.stat() == stat {
        pair.1.increment() as nat
    } else {
        0
    }
}

/// What `pairs` add to `stat`, all together.
pub open spec fn increments(pairs: Seq<(Spirit, Connection)>, stat: Stat) -> nat
    decreases pairs.len(),
{
    if pairs.len() == 0 {
        0
    } else {
        increments(pairs.drop_last(), stat) + contribution(pairs.last(), stat)
    }
}

/// The connections of `pairs`, in their order.
pub open spec fn connections(pairs: Seq<(Spirit, Connection)>) -> Seq<Connection> {
    Seq::new(pairs.len(), |i: int| pairs[i].1)
}

/// Each spirit feeds one statistic, so what pairs add to the three
/// statistics together depends on their connections alone: five for each
/// mastery, three for each expertise, one for each competence.
pub proof fn lemma_increments_total(pairs: Seq<(Spirit, Connection)>)
    ensures
        increments(pairs, Stat::Discipline) + increments(pairs, Stat::Knowledge) + increments(
            pairs,
            Stat::Proficiency,
        ) == 5 * count(connections(pairs), Connection::Mastery) + 3 * count(
            connections(pairs),
            Connection::Expertise,
        ) + count(connections(pairs), Connection::Competence),
    decreases pairs.len(),
{
    let levels = connections(pairs);
    if pairs.len() == 0 {
        lemma_count_bound(levels, Connection::Mastery);
        lemma_count_bound(levels, Connection::Expertise);
        lemma_count_bound(levels, Connection::Competence);
    } else {
        let n = pairs.len() - 1;
        lemma_increments_total(pairs.drop_last());
        assert(connections(pairs.drop_last()) =~= levels.take(n));
        lemma_count_take(levels, n);
        assert(levels.take(n + 1) =~= levels);
    }
}

/// The statistics that a spirit selection yields, before any prerogative.
#[derive(Debug, Copy, Clone, Eq, PartialEq, Structural)]
pub struct BaseStats {
    pub discipline: u32,
    pub knowledge: u32,
    pub proficiency: u32,
}

impl BaseStats {
    /// The discipline of a character without any connection.
    pub const SEED_DISCIPLINE: u32 = 1;

    /// The knowledge of a character without any connection.
    pub const SEED_KNOWLEDGE: u32 = 5;

    /// The proficiency of a character without any connection.
    pub const SEED_PROFICIENCY: u32 = 5;

    /// The value of `stat` for a character without any connection.
    pub open spec fn seed(stat: Stat) -> nat {
        match stat {
            Stat::Discipline => Self::SEED_DISCIPLINE as nat,
            Stat::Knowledge => Self::SEED_KNOWLEDGE as nat,
            Stat::Proficiency => Self::SEED_PROFICIENCY as nat,
        }
    }

    /// The value of `stat` that `pairs` yield: its seed and what the pairs
    /// add to it.
    pub open spec fn derived(pairs: Seq<(Spirit, Connection)>, stat: Stat) -> nat {
        Self::seed(stat) + increments(pairs, stat)
    }

    /// The value of `stat`.
    pub open spec fn spec_get(self, stat: Stat) -> u32 {
        match stat {
            Stat::Discipline => self.discipline,
            Stat::Knowledge => self.knowledge,
            Stat::Proficiency => self.proficiency,
        }
    }

    /// These statistics with `stat` set to `value`.
    pub open spec fn with(self, stat: Stat, value: u32) -> BaseStats {
        match stat {
            Stat::Discipline => BaseStats { discipline: value, ..self },
            Stat::Knowledge => BaseStats { knowledge: value, ..self },
            Stat::Proficiency => BaseStats { proficiency: value, ..self },
        }
    }

    /// What one prerogative makes of these statistics. One that raises no
    /// statistic leaves them as they are. One that raises a statistic adds
    /// `Prerogative::BONUS` to it, unless the statistic has reached its
    /// maximum already: that is an error, which names the statistic.
    pub open spec fn spec_with_prerogative(self, prerogative: Prerogative) -> Result<
        BaseStats,
        StatisticCapExceeded,
    > {
        match prerogative.bonus_stat() {
            None => Ok(self),
            Some(stat) => if self.spec_get(stat) < Stats::spec_max(stat) {
                Ok(self.with(stat, (self.spec_get(stat) + Prerogative::BONUS) as u32))
            } else {
                Err(StatisticCapExceeded { statistic: stat })
            },
        }
    }

    /// What `prerogatives` make of these statistics, applied one after the
    /// other from the first on. The first error ends it.
    pub open spec fn with_prerogatives(self, prerogatives: Seq<Prerogative>) -> Result<
        BaseStats,
        StatisticCapExceeded,
    >
        decreases prerogatives.len(),
    {
        if prerogatives.len() == 0 {
            Ok(self)
        } else {
            match self.with_prerogative(prerogatives.first()) {
                Ok(raised) => raised.with_prerogatives(prerogatives.drop_first()),
                Err(error) => Err(error),
            }
        }
    }

    /// The statistics that a spirit selection yields: each statistic is its
    /// seed and the increments of the connections of the five spirits that
    /// feed it. The three add up to 30 for every selection.
    pub fn new(ss: &SpiritSelection) -> (stats: Self)
        ensures
            stats.discipline == Self::derived(ss.spec_pairs(), Stat::Discipline),
            stats.knowledge == Self::derived(ss.spec_pairs(), Stat::Knowledge),
            stats.proficiency == Self::derived(ss.spec_pairs(), Stat::Proficiency),
            stats.discipline + stats.knowledge + stats.proficiency == 30,
    {
        let mut discipline: u32 = Self::SEED_DISCIPLINE;
        let mut knowledge: u32 = Self::SEED_KNOWLEDGE;
        let mut proficiency: u32 = Self::SEED_PROFICIENCY;
        let pairs = ss.pairs();
        let mut i: usize = 0;
        while i < 15
            invariant
                i <= 15,
                pairs@.len() == 15,
                discipline == Self::derived(pairs@.take(i as int), Stat::Discipline),
                knowledge == Self::derived(pairs@.take(i as int), Stat::Knowledge),
                proficiency == Self::derived(pairs@.take(i as int), Stat::Proficiency),
                discipline + knowledge + proficiency <= 11 + 5 * i,
            decreases 15 - i,
        {
            let (spirit, connection) = pairs[i];
            let increment = connection.increment();
            proof {
                assert(pairs@.take(i + 1).drop_last() =~= pairs@.take(i as int));
            }
            match spirit.stat() {
                Stat::Knowledge => {
                    knowledge += increment;
                },
                Stat::Discipline => {
                    discipline += increment;
                },
                Stat::Proficiency => {
                    proficiency += increment;
                },
            }
            i += 1;
        }
        proof {
            assert(pairs@.take(15) =~= pairs@);
            use_type_invariant(ss);
            assert(connections(pairs@) =~= ss@) by {
                ss.lemma_view(*ss);
            }
            lemma_increments_total(pairs@);
        }
        Self { discipline, knowledge, proficiency }
    }

    /// What one prerogative makes of these statistics.
    #[verifier::when_used_as_spec(spec_with_prerogative)]
    pub fn with_prerogative(self, prerogative: Prerogative) -> (result: Result<
        BaseStats,
        StatisticCapExceeded,
    >)
        ensures
            result == self.spec_with_prerogative(prerogative),
    {
        let mut stats = self;
        match prerogative {
            Prerogative::Conviction => {
                if stats.discipline < Stats::MAX_DISCIPLINE {
                    stats.discipline += Prerogative::BONUS;
                } else {
                    return Err(StatisticCapExceeded { statistic: Stat::Discipline });
                }
            },
            Prerogative::Education => {
                if stats.knowledge < Stats::MAX_KNOWLEDGE {
                    stats.knowledge += Prerogative::BONUS;
                } else {
                    return Err(StatisticCapExceeded { statistic: Stat::Knowledge });
                }
            },
            Prerogative::Vocation => {
                if stats.proficiency < Stats::MAX_PROFICIENCY {
                    stats.proficiency += Prerogative::BONUS;
                } else {
                    return Err(StatisticCapExceeded { statistic: Stat::Proficiency });
                }
            },
            _ => {},
        }
        Ok(stats)
    }

    /// The statistics with every prerogative of `pb` applied, the base
    /// prerogatives first and then those paid for with a burden, each in its
    /// order. A prerogative that is to raise a statistic which has reached
    /// its maximum is an error, and then there is no result at all.
    pub fn with_prerogatives_and_burdens(self, pb: &PrerogativesAndBurdens) -> (result: Result<
        Stats,
        StatisticCapExceeded,
    >)
        ensures
            result matches Ok(stats) ==> self.with_prerogatives(pb.spec_prerogatives()) == Ok::<
                BaseStats,
                StatisticCapExceeded,
            >(stats@),
            result matches Err(error) ==> self.with_prerogatives(pb.spec_prerogatives()) == Err::<
                BaseStats,
                StatisticCapExceeded,
            >(error),
    {
        let mut stats = self;
        let prerogatives = pb.prerogatives();
        let mut i: usize = 0;
        assert(prerogatives@.skip(0) =~= prerogatives@);
        while i < prerogatives.len()
            invariant
                i <= prerogatives@.len(),
                prerogatives@ == pb.spec_prerogatives(),
                self.with_prerogatives(prerogatives@) == stats.with_prerogatives(
                    prerogatives@.skip(i as int),
                ),
            decreases prerogatives@.len() - i,
        {
            proof {
                let rest = prerogatives@.skip(i as int);
                assert(rest.first() == prerogatives@[i as int]);
                assert(rest.drop_first() =~= prerogatives@.skip(i + 1));
            }
            match stats.with_prerogative(prerogatives[i]) {
                Ok(raised) => {
                    stats = raised;
                },
                Err(error) => {
                    return Err(error);
                },
            }
            i += 1;
        }
        Ok(Stats { base: stats })
    }

    /// The value of `stat`.
    #[verifier::when_used_as_spec(spec_get)]
    pub fn get(self, stat: Stat) -> (value: u32)
        ensures
            value == self.spec_get(stat),
    {
        match stat {
            Stat::Discipline => self.discipline,
            Stat::Knowledge => self.knowledge,
            Stat::Proficiency => self.proficiency,
        }
    }
}

/// The statistics of a character, prerogatives included.
#[derive(Debug, Copy, Clone, Eq, PartialEq, Structural)]
pub struct Stats {
    base: BaseStats,
}

impl View for Stats {
    type V = BaseStats;

    /// The three statistics.
    closed spec fn view(&self) -> BaseStats {
        self.base
    }
}

impl Stats {
    /// From this discipline on, no prerogative raises discipline.
    pub const MAX_DISCIPLINE: u32 = 13;

    /// From this knowledge on, no prerogative raises knowledge.
    pub const MAX_KNOWLEDGE: u32 = 18;

    /// From this proficiency on, no prerogative raises proficiency.
    pub const MAX_PROFICIENCY: u32 = 18;

    /// The value from which on no prerogative raises `stat`.
    pub open spec fn spec_max(stat: Stat) -> u32 {
        match stat {
            Stat::Discipline => Self::MAX_DISCIPLINE,
            Stat::Knowledge => Self::MAX_KNOWLEDGE,
            Stat::Proficiency => Self::MAX_PROFICIENCY,
        }
    }

    /// The three statistics.
    pub fn base(&self) -> (base: BaseStats)
        ensures
            base == self@,
    {
        self.base
    }

    /// The character's discipline.
    pub fn discipline(&self) -> (value: u32)
        ensures
            value == self@.discipline,
    {
        self.base.discipline
    }

    /// The character's knowledge.
    pub fn knowledge(&self) -> (value: u32)
        ensures
            value == self@.knowledge,
    {
        self.base.knowledge
    }

    /// The character's proficiency.
    pub fn proficiency(&self) -> (value: u32)
        ensures
            value == self@.proficiency,
    {
        self.base.proficiency
    }

    /// The value from which on no prerogative raises `stat`.
    #[verifier::when_used_as_spec(spec_max)]
    pub fn max(stat: Stat) -> (value: u32)
        ensures
            value == Self::spec_max(stat),
    {
        match stat {
            Stat::Discipline => Self::MAX_DISCIPLINE,
            Stat::Knowledge => Self::MAX_KNOWLEDGE,
            Stat::Proficiency => Self::MAX_PROFICIENCY,
        }
    }
}

/// Taking one pair out of `pairs` takes its contribution out of what they
/// add.
pub proof fn lemma_increments_remove(pairs: Seq<(Spirit, Connection)>, i: int, stat: Stat)
    requires
        0 <= i < pairs.len(),
    ensures
        increments(pairs, stat) == increments(pairs.remove(i), stat) + contribution(pairs[i], stat),
    decreases pairs.len(),
{
    if i == pairs.len() - 1 {
        assert(pairs.remove(i) =~= pairs.drop_last());
    } else {
        lemma_increments_remove(pairs.drop_last(), i, stat);
        assert(pairs.remove(i).drop_last() =~= pairs.drop_last().remove(i));
        assert(pairs.remove(i).last() == pairs.last());
    }
}

/// The order of the pairs does not matter: the same pairs in another order
/// add the same to each statistic, and so yield the same statistics.
pub proof fn lemma_order_independent(
    pairs: Seq<(Spirit, Connection)>,
    reordered: Seq<(Spirit, Connection)>,
    stat: Stat,
)
    requires
        pairs.to_multiset() == reordered.to_multiset(),
    ensures
        increments(pairs, stat) == increments(reordered, stat),
        BaseStats::derived(pairs, stat) == BaseStats::derived(reordered, stat),
    decreases pairs.len(),
{
    broadcast use vstd::seq_lib::group_to_multiset_ensures;

    assert(pairs.len() == reordered.len()) by {
        assert(pairs.to_multiset().len() == pairs.len());
        assert(reordered.to_multiset().len() == reordered.len());
    }
    if pairs.len() > 0 {
        let last = pairs.last();
        assert(pairs.contains(last)) by {
            assert(pairs[pairs.len() - 1] == last);
        }
        assert(pairs.to_multiset().count(last) > 0);
        assert(reordered.to_multiset().count(last) > 0);
        assert(reordered.contains(last));
        let k = choose|k: int| 0 <= k < reordered.len() && reordered[k] == last;
        assert(pairs.remove(pairs.len() - 1) =~= pairs.drop_last());
        assert(pairs.drop_last().to_multiset() == reordered.remove(k).to_multiset()) by {
            assert(pairs.remove(pairs.len() - 1).to_multiset() == pairs.to_multiset().remove(last));
            assert(reordered.remove(k).to_multiset() == reordered.to_multiset().remove(last));
        }
        lemma_order_independent(pairs.drop_last(), reordered.remove(k), stat);
        lemma_increments_remove(reordered, k, stat);
    }
}

/// No prerogative lowers a statistic.
pub proof fn lemma_never_lowered(stats: BaseStats, prerogative: Prerogative, stat: Stat)
    ensures
        stats.with_prerogative(prerogative) matches Ok(raised) ==> raised.spec_get(stat)
            >= stats.spec_get(stat),
{
}

/// A prerogative that is to raise a statistic which has reached its maximum
/// is refused with an error that names the statistic.
pub proof fn lemma_cap_refused(stats: BaseStats, prerogative: Prerogative, stat: Stat)
    requires
        prerogative.bonus_stat() == Some(stat),
        stats.spec_get(stat) >= Stats::max(stat),
    ensures
        stats.with_prerogative(prerogative) == Err::<BaseStats, StatisticCapExceeded>(
            StatisticCapExceeded { statistic: stat },
        ),
{
}

/// Where a statistic has reached its maximum, prerogatives among which one
/// is to raise it have no result: applying them is an error, wherever that
/// prerogative stands among them.
pub proof fn lemma_cap_refused_among(
    stats: BaseStats,
    prerogatives: Seq<Prerogative>,
    i: int,
    stat: Stat,
)
    requires
        0 <= i < prerogatives.len(),
        prerogatives[i].bonus_stat() == Some(stat),
        stats.spec_get(stat) >= Stats::max(stat),
    ensures
        stats.with_prerogatives(prerogatives) is Err,
    decreases prerogatives.len(),
{
    if i > 0 {
        match stats.with_prerogative(prerogatives.first()) {
            Ok(raised) => {
                lemma_never_lowered(stats, prerogatives.first(), stat);
                assert(prerogatives.drop_first()[i - 1] == prerogatives[i]);
                lemma_cap_refused_among(raised, prerogatives.drop_first(), i - 1, stat);
            },
            Err(_) => {},
        }
    }
}

/// How many of `prerogatives` raise `stat`.
pub open spec fn raising(prerogatives: Seq<Prerogative>, stat: Stat) -> nat {
    prerogatives.filter(|prerogative: Prerogative| prerogative.bonus_stat() == Some(stat)).len()
}

/// Whether `stat` can be raised as often as `prerogatives` ask for: never,
/// or with the last raise starting below the maximum.
pub open spec fn can_raise(stats: BaseStats, prerogatives: Seq<Prerogative>, stat: Stat) -> bool {
    raising(prerogatives, stat) == 0 || stats.spec_get(stat) + Prerogative::BONUS * (raising(
        prerogatives,
        stat,
    ) - 1) < Stats::max(stat)
}

/// Whether prerogatives can be applied does not depend on their order, only
/// on how many of them raise each statistic; and where they can, each
/// statistic rises by `Prerogative::BONUS` for each prerogative that raises
/// it. The order decides no more than which statistic an error names.
pub proof fn lemma_outcome(stats: BaseStats, prerogatives: Seq<Prerogative>)
    ensures
        stats.with_prerogatives(prerogatives) is Ok <==> can_raise(
            stats,
            prerogatives,
            Stat::Discipline,
        ) && can_raise(stats, prerogatives, Stat::Knowledge) && can_raise(
            stats,
            prerogatives,
            Stat::Proficiency,
        ),
        stats.with_prerogatives(prerogatives) matches Ok(raised) ==> forall|stat: Stat|
            #[trigger] raised.spec_get(stat) == stats.spec_get(stat) + Prerogative::BONUS * raising(
                prerogatives,
                stat,
            ),
    decreases prerogatives.len(),
{
    if prerogatives.len() == 0 {
        assert forall|stat: Stat| #[trigger] raising(prerogatives, stat) == 0 by {
            prerogatives.lemma_all_neg_filter_empty(
                |prerogative: Prerogative| prerogative.bonus_stat() == Some(stat),
            );
        }
    } else {
        let first = prerogatives.first();
        let rest = prerogatives.drop_first();
        assert(prerogatives =~= seq![first] + rest);
        assert forall|stat: Stat| #[trigger]
            raising(prerogatives, stat) == raising(rest, stat) + if first.bonus_stat() == Some(
                stat,
            ) {
                1nat
            } else {
                0nat
            } by {
            rest.lemma_filter_prepend(
                first,
                |prerogative: Prerogative| prerogative.bonus_stat() == Some(stat),
            );
        }
        assert(raising(prerogatives, Stat::Discipline) >= raising(rest, Stat::Discipline));
        assert(raising(prerogatives, Stat::Knowledge) >= raising(rest, Stat::Knowledge));
        assert(raising(prerogatives, Stat::Proficiency) >= raising(rest, Stat::Proficiency));
        match stats.with_prerogative(first) {
            Ok(next) => {
                lemma_outcome(next, rest);
                match next.with_prerogatives(rest) {
                    Ok(raised) => {
                        assert(raised.spec_get(Stat::Discipline) == next.spec_get(Stat::Discipline)
                            + Prerogative::BONUS * raising(rest, Stat::Discipline));
                        assert(raised.spec_get(Stat::Knowledge) == next.spec_get(Stat::Knowledge)
                            + Prerogative::BONUS * raising(rest, Stat::Knowledge));
                        assert(raised.spec_get(Stat::Proficiency) == next.spec_get(
                            Stat::Proficiency,
                        ) + Prerogative::BONUS * raising(rest, Stat::Proficiency));
                    },
                    Err(_) => {},
                }
            },
            Err(_) => {},
        }
    }
}

} // verus!
