//! What may still be chosen while a character is being made: the
//! connections that an unfinished selection has room for, and the
//! prerogatives that the statistics can take.

use vstd::prelude::*;
use crate::connection::Connection;
use crate::prerogatives::Prerogative;
use crate::selection::{
    SelectionError, SpiritSelection, count, lemma_counts_sum, quota, valid_levels,
};
use crate::stats::{BaseStats, StatisticCapExceeded};

verus! {

/// How many of the spirits hold `level` so far. The spirits stand in
/// declaration order, and one without a connection yet stands as `None`.
pub open spec fn assigned_count(assigned: Seq<Option<Connection>>, level: Connection) -> nat {
    assigned.to_multiset().count(Some(level))
}

/// How many more spirits may take `level`: what is left of its quota.
pub open spec fn spec_remaining(assigned: Seq<Option<Connection>>, level: Connection) -> nat {
    if assigned_count(assigned, level) >= quota(level) {
        0
    } else {
        (quota(level) - assigned_count(assigned, level)) as nat
    }
}

/// Whether no connection is held by more spirits than its quota allows.
pub open spec fn within_quota(assigned: Seq<Option<Connection>>) -> bool {
    forall|level: Connection| #[trigger] assigned_count(assigned, level) <= quota(level)
}

/// Counting over one more spirit adds one where that spirit holds `level`.
proof fn lemma_assigned_count_take(assigned: Seq<Option<Connection>>, n: int, level: Connection)
    requires
        0 <= n < assigned.len(),
    ensures
        assigned_count(assigned.take(n + 1), level) == assigned_count(assigned.take(n), level)
            + if assigned[n] == Some(level) {
            1nat
        } else {
            0nat
        },
        assigned_count(assigned.take(0), level) == 0,
{
    broadcast use vstd::seq_lib::group_to_multiset_ensures;
    broadcast use vstd::multiset::group_multiset_axioms;

    assert(assigned.take(n + 1) =~= assigned.take(n).push(assigned[n]));
    assert(assigned.take(0).to_multiset().len() == 0);
}

/// How many more spirits may take `level`, given the connections assigned
/// so far.
pub fn remaining(assigned: &[Option<Connection>; 15], level: Connection) -> (left: usize)
    ensures
        left == spec_remaining(assigned@, level),
{
    let mut taken: usize = 0;
    let mut i: usize = 0;
    proof {
        lemma_assigned_count_take(assigned@, 0, level);
    }
    while i < 15
        invariant
            i <= 15,
            taken <= i,
            taken == assigned_count(assigned@.take(i as int), level),
        decreases 15 - i,
    {
        proof {
            lemma_assigned_count_take(assigned@, i as int, level);
        }
        match assigned[i] {
            Some(held) => {
                if held == level {
                    taken += 1;
                }
            },
            None => {},
        }
        i += 1;
    }
    assert(assigned@.take(15) =~= assigned@);
    let quota = SpiritSelection::quota(level);
    if taken >= quota {
        0
    } else {
        quota - taken
    }
}

/// The connections that one more spirit may take, from the loosest to the
/// closest: those whose quota is not used up.
pub fn eligible_connections(assigned: &[Option<Connection>; 15]) -> (eligible: Vec<Connection>)
    ensures
        eligible@ == Connection::LIST@.filter(
            |level: Connection| spec_remaining(assigned@, level) > 0,
        ),
{
    let ghost has_room = |level: Connection| spec_remaining(assigned@, level) > 0;
    let mut eligible: Vec<Connection> = Vec::new();
    let mut i: usize = 0;
    proof {
        assert(Connection::LIST@.take(0) =~= Seq::<Connection>::empty());
        Seq::<Connection>::empty().lemma_all_neg_filter_empty(has_room);
    }
    while i < 5
        invariant
            i <= 5,
            has_room == |level: Connection| spec_remaining(assigned@, level) > 0,
            eligible@ == Connection::LIST@.take(i as int).filter(has_room),
        decreases 5 - i,
    {
        let level = Connection::LIST[i];
        proof {
            let seen = Connection::LIST@.take(i as int);
            assert(Connection::LIST@.take(i + 1) =~= seen.push(level));
            seen.lemma_filter_push(level, has_room);
        }
        if remaining(assigned, level) > 0 {
            eligible.push(level);
        }
        i += 1;
    }
    assert(Connection::LIST@.take(5) =~= Connection::LIST@);
    eligible
}

/// The connections that the spirits hold, where each of them holds one.
pub open spec fn held(assigned: Seq<Option<Connection>>) -> Seq<Connection> {
    Seq::new(assigned.len(), |k: int| assigned[k]->Some_0)
}

/// Whether every spirit holds a connection.
pub open spec fn all_assigned(assigned: Seq<Option<Connection>>) -> bool {
    forall|k: int| 0 <= k < assigned.len() ==> (#[trigger] assigned[k]) is Some
}

/// The selection that an assignment amounts to. It is malformed while a
/// spirit is without a connection, and invalid where all have one but the
/// connections are not legal.
pub fn complete(assigned: &[Option<Connection>; 15]) -> (result: Result<
    SpiritSelection,
    SelectionError,
>)
    ensures
        !all_assigned(assigned@) ==> result == Err::<SpiritSelection, SelectionError>(
            SelectionError::Malformed,
        ),
        all_assigned(assigned@) && !valid_levels(held(assigned@)) ==> result == Err::<
            SpiritSelection,
            SelectionError,
        >(SelectionError::Invalid),
        all_assigned(assigned@) && valid_levels(held(assigned@)) ==> (result matches Ok(selection)
            && selection@ == held(assigned@)),
{
    let mut levels: [Connection; 15] = [Connection::Ineptitude; 15];
    let mut k: usize = 0;
    while k < 15
        invariant
            k <= 15,
            forall|j: int| 0 <= j < k ==> assigned@[j] == Some(#[trigger] levels@[j]),
        decreases 15 - k,
    {
        match assigned[k] {
            Some(level) => {
                levels[k] = level;
            },
            None => {
                return Err(SelectionError::Malformed);
            },
        }
        k += 1;
    }
    assert(all_assigned(assigned@)) by {
        assert forall|j: int| 0 <= j < 15 implies (#[trigger] assigned@[j]) is Some by {
            assert(assigned@[j] == Some(levels@[j]));
        }
    }
    assert(levels@ =~= held(assigned@));
    SpiritSelection::try_from(levels)
}

/// Giving a spirit a connection that is eligible keeps the assignment
/// within the quotas, whatever the spirit held before.
pub proof fn lemma_eligible_keeps_within_quota(
    assigned: Seq<Option<Connection>>,
    k: int,
    level: Connection,
)
    requires
        0 <= k < assigned.len(),
        within_quota(assigned),
        spec_remaining(assigned, level) > 0,
    ensures
        within_quota(assigned.update(k, Some(level))),
{
    broadcast use vstd::seq_lib::group_to_multiset_ensures;
    broadcast use vstd::multiset::group_multiset_axioms;

    let updated = assigned.update(k, Some(level));
    vstd::seq_lib::to_multiset_update(assigned, k, Some(level));
    assert forall|other: Connection| #[trigger]
        assigned_count(updated, other) <= quota(other) by {
        assert(assigned_count(assigned, other) <= quota(other));
    }
}

/// Where every spirit holds a connection and the assignment is within the
/// quotas, the connections are legal: a selection that was filled with
/// eligible connections only is accepted.
pub proof fn lemma_complete_within_quota_is_valid(assigned: Seq<Option<Connection>>)
    requires
        assigned.len() == 15,
        all_assigned(assigned),
        within_quota(assigned),
    ensures
        valid_levels(held(assigned)),
{
    let levels = held(assigned);
    assert forall|k: int| 0 <= k < 15 implies assigned[k] == Some(#[trigger] levels[k]) by {
        assert(assigned[k] is Some);
    }
    lemma_counts_sum(levels);
    assert forall|level: Connection| #[trigger]
        count(levels, level) == assigned_count(assigned, level) by {
        lemma_count_of_assigned(assigned, levels, level);
    }
    assert(assigned_count(assigned, Connection::Mastery) <= quota(Connection::Mastery));
    assert(assigned_count(assigned, Connection::Expertise) <= quota(Connection::Expertise));
    assert(assigned_count(assigned, Connection::Competence) <= quota(Connection::Competence));
    assert(assigned_count(assigned, Connection::Ineptitude) <= quota(Connection::Ineptitude));
    assert(assigned_count(assigned, Connection::Wizardry) <= quota(Connection::Wizardry));
    assert(count(levels, Connection::Mastery) == assigned_count(assigned, Connection::Mastery));
    assert(count(levels, Connection::Expertise) == assigned_count(
        assigned,
        Connection::Expertise,
    ));
    assert(count(levels, Connection::Competence) == assigned_count(
        assigned,
        Connection::Competence,
    ));
    assert(count(levels, Connection::Ineptitude) == assigned_count(
        assigned,
        Connection::Ineptitude,
    ));
    assert(count(levels, Connection::Wizardry) == assigned_count(assigned, Connection::Wizardry));
}

/// Where every spirit holds a connection, counting the assignment is
/// counting the connections.
proof fn lemma_count_of_assigned(
    assigned: Seq<Option<Connection>>,
    levels: Seq<Connection>,
    level: Connection,
)
    requires
        assigned.len() == levels.len(),
        forall|k: int| 0 <= k < levels.len() ==> assigned[k] == Some(#[trigger] levels[k]),
    ensures
        count(levels, level) == assigned_count(assigned, level),
    decreases levels.len(),
{
    broadcast use vstd::seq_lib::group_to_multiset_ensures;
    broadcast use vstd::multiset::group_multiset_axioms;

    if levels.len() == 0 {
        assert(levels.to_multiset().len() == 0);
        assert(assigned.to_multiset().len() == 0);
    } else {
        let n = levels.len() - 1;
        lemma_count_of_assigned(assigned.drop_last(), levels.drop_last(), level);
        assert(levels =~= levels.drop_last().push(levels[n]));
        assert(assigned =~= assigned.drop_last().push(assigned[n]));
        assert(assigned[n] == Some(levels[n]));
    }
}

impl BaseStats {
    /// Whether `prerogative` can be applied to these statistics: it raises
    /// no statistic, or one that has not reached its maximum.
    pub fn accepts(self, prerogative: Prerogative) -> (accepted: bool)
        ensures
            accepted == self.with_prerogative(prerogative) is Ok,
    {
        match prerogative.bonus_stat() {
            None => true,
            Some(stat) => self.get(stat) < crate::stats::Stats::max(stat),
        }
    }

    /// The prerogatives that can be applied to these statistics, in
    /// declaration order.
    pub fn eligible_prerogatives(self) -> (eligible: Vec<Prerogative>)
        ensures
            eligible@ == Prerogative::LIST@.filter(
                |prerogative: Prerogative| self.with_prerogative(prerogative) is Ok,
            ),
    {
        let ghost accepted = |prerogative: Prerogative| self.with_prerogative(prerogative) is Ok;
        let mut eligible: Vec<Prerogative> = Vec::new();
        let mut i: usize = 0;
        proof {
            assert(Prerogative::LIST@.take(0) =~= Seq::<Prerogative>::empty());
            Seq::<Prerogative>::empty().lemma_all_neg_filter_empty(accepted);
        }
        while i < 18
            invariant
                i <= 18,
                accepted == |prerogative: Prerogative| self.with_prerogative(prerogative) is Ok,
                eligible@ == Prerogative::LIST@.take(i as int).filter(accepted),
            decreases 18 - i,
        {
            let prerogative = Prerogative::LIST[i];
            proof {
                let seen = Prerogative::LIST@.take(i as int);
                assert(Prerogative::LIST@.take(i + 1) =~= seen.push(prerogative));
                seen.lemma_filter_push(prerogative, accepted);
            }
            if self.accepts(prerogative) {
                eligible.push(prerogative);
            }
            i += 1;
        }
        assert(Prerogative::LIST@.take(18) =~= Prerogative::LIST@);
        eligible
    }
}

/// One more prerogative at the end is applied to what the others have made
/// of the statistics. So a prerogative that the statistics reached accept
/// can be added to prerogatives that were applied without error.
pub proof fn lemma_with_one_more(
    stats: BaseStats,
    prerogatives: Seq<Prerogative>,
    prerogative: Prerogative,
)
    ensures
        stats.with_prerogatives(prerogatives.push(prerogative)) == match stats.with_prerogatives(
            prerogatives,
        ) {
            Ok(reached) => reached.with_prerogative(prerogative),
            Err(error) => Err::<BaseStats, StatisticCapExceeded>(error),
        },
    decreases prerogatives.len(),
{
    let longer = prerogatives.push(prerogative);
    if prerogatives.len() == 0 {
        assert(longer.drop_first() =~= Seq::<Prerogative>::empty());
        assert(longer.first() == prerogative);
        match stats.with_prerogative(prerogative) {
            Ok(raised) => {
                assert(raised.with_prerogatives(longer.drop_first()) == Ok::<
                    BaseStats,
                    StatisticCapExceeded,
                >(raised));
            },
            Err(_) => {},
        }
    } else {
        assert(longer.first() == prerogatives.first());
        assert(longer.drop_first() =~= prerogatives.drop_first().push(prerogative));
        match stats.with_prerogative(prerogatives.first()) {
            Ok(raised) => {
                lemma_with_one_more(raised, prerogatives.drop_first(), prerogative);
            },
            Err(_) => {},
        }
    }
}

} // verus!
