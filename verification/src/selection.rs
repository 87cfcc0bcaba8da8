//! Spirit selections: the assignment of a connection to each of the fifteen
//! spirits, and the rule that decides which assignments are legal.

use vstd::prelude::*;
use vstd::multiset::Multiset;
use vstd::std_specs::convert::{TryFromSpec, TryFromSpecImpl};
use crate::connection::Connection;
use crate::spirit::Spirit;

verus! {

/// Why a selection was refused.
#[derive(Debug, Copy, Clone, Eq, PartialEq, Structural)]
pub enum SelectionError {
    /// The input does not name each of the fifteen spirits exactly once.
    Malformed,
    /// Each spirit has a connection, but the connections are not one
    /// mastery, three expertises, five competences and six ineptitudes.
    Invalid,
}

/// How often `level` occurs among `levels`.
pub open spec fn count(levels: Seq<Connection>, level: Connection) -> nat {
    levels.to_multiset().count(level)
}

/// How often a legal selection holds `level`.
pub open spec fn quota(level: Connection) -> nat {
    match level {
        Connection::Mastery => SpiritSelection::MASTERY_COUNT as nat,
        Connection::Expertise => SpiritSelection::EXPERTISE_COUNT as nat,
        Connection::Competence => SpiritSelection::COMPETENCE_COUNT as nat,
        Connection::Ineptitude => SpiritSelection::INEPTITUDE_COUNT as nat,
        Connection::Wizardry => 0,
    }
}

/// The connections of a legal selection, without regard to the spirits that
/// hold them.
pub open spec fn required_levels() -> Multiset<Connection> {
    Multiset::from_map(Map::total(|level: Connection| quota(level)))
}

/// The rule of character creation: exactly one mastery, three expertises,
/// five competences, six ineptitudes, and no wizardry.
pub open spec fn valid_levels(levels: Seq<Connection>) -> bool {
    &&& count(levels, Connection::Mastery) == quota(Connection::Mastery)
    &&& count(levels, Connection::Expertise) == quota(Connection::Expertise)
    &&& count(levels, Connection::Competence) == quota(Connection::Competence)
    &&& count(levels, Connection::Ineptitude) == quota(Connection::Ineptitude)
    &&& count(levels, Connection::Wizardry) == quota(Connection::Wizardry)
}

/// Counting over one more element adds one for the level of that element
/// and leaves the other counts as they are.
pub proof fn lemma_count_take(levels: Seq<Connection>, n: int)
    requires
        0 <= n < levels.len(),
    ensures
        forall|level: Connection| #[trigger]
            count(levels.take(n + 1), level) == count(levels.take(n), level) + if levels[n]
                == level {
                1nat
            } else {
                0nat
            },
{
    broadcast use vstd::seq_lib::group_to_multiset_ensures;

    assert(levels.take(n + 1) =~= levels.take(n).push(levels[n]));
}

/// No level occurs more often than there are elements.
pub proof fn lemma_count_bound(levels: Seq<Connection>, level: Connection)
    ensures
        count(levels, level) <= levels.len(),
{
    broadcast use vstd::seq_lib::group_to_multiset_ensures;
    broadcast use vstd::multiset::group_multiset_axioms;

    assert(levels.to_multiset().len() == levels.len());
}

/// Whether `levels` are the connections of a legal selection.
pub fn is_valid(levels: &[Connection]) -> (ok: bool)
    ensures
        ok == valid_levels(levels@),
{
    let mut mastery_count: usize = 0;
    let mut expertise_count: usize = 0;
    let mut competence_count: usize = 0;
    let mut ineptitude_count: usize = 0;
    let mut i: usize = 0;
    proof {
        lemma_count_bound(levels@.take(0), Connection::Mastery);
        lemma_count_bound(levels@.take(0), Connection::Expertise);
        lemma_count_bound(levels@.take(0), Connection::Competence);
        lemma_count_bound(levels@.take(0), Connection::Ineptitude);
        lemma_count_bound(levels@.take(0), Connection::Wizardry);
    }
    while i < levels.len()
        invariant
            i <= levels.len(),
            mastery_count == count(levels@.take(i as int), Connection::Mastery),
            expertise_count == count(levels@.take(i as int), Connection::Expertise),
            competence_count == count(levels@.take(i as int), Connection::Competence),
            ineptitude_count == count(levels@.take(i as int), Connection::Ineptitude),
            count(levels@.take(i as int), Connection::Wizardry) == 0,
        decreases levels.len() - i,
    {
        proof {
            lemma_count_take(levels@, i as int);
            lemma_count_bound(levels@.take(i as int + 1), levels@[i as int]);
        }
        match levels[i] {
            Connection::Ineptitude => ineptitude_count += 1,
            Connection::Competence => competence_count += 1,
            Connection::Expertise => expertise_count += 1,
            Connection::Mastery => mastery_count += 1,
            Connection::Wizardry => {
                proof {
                    broadcast use vstd::seq_lib::group_to_multiset_ensures;

                    assert(levels@.contains(levels@[i as int]));
                }
                return false;
            },
        }
        i += 1;
    }
    assert(levels@.take(i as int) =~= levels@);
    mastery_count == SpiritSelection::MASTERY_COUNT as usize && expertise_count
        == SpiritSelection::EXPERTISE_COUNT as usize && competence_count
        == SpiritSelection::COMPETENCE_COUNT as usize && ineptitude_count
        == SpiritSelection::INEPTITUDE_COUNT as usize
}

/// A legal assignment of a connection to each of the fifteen spirits.
///
/// A selection can only be made through the validating constructors, so every
/// value of this type satisfies the rule of `valid_levels`.
#[derive(Debug, Copy, Clone, Eq, PartialEq)]
pub struct SpiritSelection {
    levels: [Connection; 15],
}

impl View for SpiritSelection {
    type V = Seq<Connection>;

    /// The fifteen connections, in the declaration order of their spirits.
    closed spec fn view(&self) -> Seq<Connection> {
        self.levels@
    }
}

impl SpiritSelection {
    /// Number of masteries in a selection.
    pub const MASTERY_COUNT: u32 = 1;

    /// Number of expertises in a selection.
    pub const EXPERTISE_COUNT: u32 = 3;

    /// Number of competences in a selection.
    pub const COMPETENCE_COUNT: u32 = 5;

    /// Number of ineptitudes in a selection.
    pub const INEPTITUDE_COUNT: u32 = 6;

    /// How often a legal selection holds `level`.
    pub fn quota(level: Connection) -> (n: usize)
        ensures
            n == quota(level),
    {
        match level {
            Connection::Mastery => Self::MASTERY_COUNT as usize,
            Connection::Expertise => Self::EXPERTISE_COUNT as usize,
            Connection::Competence => Self::COMPETENCE_COUNT as usize,
            Connection::Ineptitude => Self::INEPTITUDE_COUNT as usize,
            Connection::Wizardry => 0,
        }
    }

    /// What holds of every selection: its connections are legal.
    #[verifier::type_invariant]
    pub open spec fn legal(self) -> bool {
        valid_levels(self@)
    }

    /// The selection that holds `levels`, in the declaration order of the
    /// spirits. It is meant for fifteen levels: see `lemma_with_levels`.
    pub closed spec fn with_levels(levels: Seq<Connection>) -> SpiritSelection {
        SpiritSelection { levels: choose|held: [Connection; 15]| held@ == levels }
    }

    /// The connection that the selection gives to `spirit`.
    pub open spec fn spec_connection(&self, spirit: Spirit) -> Connection {
        self@[spirit.ordinal()]
    }

    /// The selection as pairs of a spirit and its connection, in the
    /// declaration order of the spirits.
    pub open spec fn spec_pairs(&self) -> Seq<(Spirit, Connection)> {
        Seq::new(15, |k: int| (Spirit::at(k), self@[k]))
    }

    /// A selection holds fifteen connections, and two selections that hold
    /// the same connections are the same selection.
    pub proof fn lemma_view(self, other: SpiritSelection)
        ensures
            self@.len() == 15,
            self@ == other@ ==> self == other,
    {
        if self@ == other@ {
            assert(self.levels =~= other.levels);
        }
    }

    /// For any fifteen levels, legal or not, `with_levels` names the value
    /// that holds exactly them.
    pub proof fn lemma_with_levels(levels: Seq<Connection>)
        requires
            levels.len() == 15,
        ensures
            Self::with_levels(levels)@ == levels,
    {
        let a0: [Connection; 15] = vstd::array::spec_array_fill_for_copy_type(
            Connection::Ineptitude,
        );
        let a1 = vstd::array::spec_array_update(a0, 0, levels[0]);
        let a2 = vstd::array::spec_array_update(a1, 1, levels[1]);
        let a3 = vstd::array::spec_array_update(a2, 2, levels[2]);
        let a4 = vstd::array::spec_array_update(a3, 3, levels[3]);
        let a5 = vstd::array::spec_array_update(a4, 4, levels[4]);
        let a6 = vstd::array::spec_array_update(a5, 5, levels[5]);
        let a7 = vstd::array::spec_array_update(a6, 6, levels[6]);
        let a8 = vstd::array::spec_array_update(a7, 7, levels[7]);
        let a9 = vstd::array::spec_array_update(a8, 8, levels[8]);
        let a10 = vstd::array::spec_array_update(a9, 9, levels[9]);
        let a11 = vstd::array::spec_array_update(a10, 10, levels[10]);
        let a12 = vstd::array::spec_array_update(a11, 11, levels[11]);
        let a13 = vstd::array::spec_array_update(a12, 12, levels[12]);
        let a14 = vstd::array::spec_array_update(a13, 13, levels[13]);
        let a15 = vstd::array::spec_array_update(a14, 14, levels[14]);
        assert(a15@ =~= levels);
    }

    /// The fifteen connections, in the declaration order of their spirits.
    pub fn levels(&self) -> (levels: [Connection; 15])
        ensures
            levels@ == self@,
            valid_levels(self@),
    {
        proof {
            use_type_invariant(self);
        }
        self.levels
    }

    /// The connection that the selection gives to `spirit`.
    #[verifier::when_used_as_spec(spec_connection)]
    pub fn connection(&self, spirit: Spirit) -> (connection: Connection)
        ensures
            connection == self.spec_connection(spirit),
    {
        self.levels[spirit.index()]
    }

    /// The selection as pairs of a spirit and its connection, in the
    /// declaration order of the spirits.
    pub fn pairs(&self) -> (pairs: [(Spirit, Connection); 15])
        ensures
            pairs@ == self.spec_pairs(),
    {
        let mut pairs: [(Spirit, Connection); 15] = [(Spirit::TheVeil, Connection::Ineptitude); 15];
        let mut k: usize = 0;
        while k < 15
            invariant
                k <= 15,
                forall|j: int| 0 <= j < k ==> pairs@[j] == (Spirit::at(j), self@[j]),
            decreases 15 - k,
        {
            pairs[k] = (Spirit::LIST[k], self.levels[k]);
            k += 1;
        }
        assert(pairs@ =~= self.spec_pairs());
        pairs
    }
}

/// Whether some pair of `pairs` names `spirit`.
pub open spec fn names(pairs: Seq<(Spirit, Connection)>, spirit: Spirit) -> bool {
    exists|i: int| 0 <= i < pairs.len() && (#[trigger] pairs[i]).0 == spirit
}

/// Whether `pairs` name each of the fifteen spirits exactly once: none is
/// left out and none is named twice.
pub open spec fn names_each_once(pairs: Seq<(Spirit, Connection)>) -> bool {
    &&& forall|spirit: Spirit| #[trigger] names(pairs, spirit)
    &&& forall|i: int, j: int|
        0 <= i < j < pairs.len() ==> (#[trigger] pairs[i]).0 != (#[trigger] pairs[j]).0
}

/// The connection that `pairs` give to `spirit`, where they name it.
pub open spec fn assigned(pairs: Seq<(Spirit, Connection)>, spirit: Spirit) -> Connection {
    let i = choose|i: int| 0 <= i < pairs.len() && (#[trigger] pairs[i]).0 == spirit;
    pairs[i].1
}

/// The connections that `pairs` give to the fifteen spirits, in the
/// declaration order of the spirits.
pub open spec fn arranged(pairs: Seq<(Spirit, Connection)>) -> Seq<Connection> {
    Seq::new(15, |k: int| assigned(pairs, Spirit::at(k)))
}

impl SpiritSelection {
    /// What `try_from_iter` returns for `pairs`.
    pub open spec fn spec_try_from_iter(pairs: Seq<(Spirit, Connection)>) -> Result<
        SpiritSelection,
        SelectionError,
    > {
        if !names_each_once(pairs) {
            Err(SelectionError::Malformed)
        } else if !valid_levels(arranged(pairs)) {
            Err(SelectionError::Invalid)
        } else {
            Ok(SpiritSelection::with_levels(arranged(pairs)))
        }
    }

    /// Accepts pairs of a spirit and its connection, in any order, if and
    /// only if they name each spirit exactly once and the connections are
    /// legal. What is wrong with the spirits is reported before what is
    /// wrong with the connections.
    pub fn try_from_iter(pairs: &[(Spirit, Connection)]) -> (result: Result<
        SpiritSelection,
        SelectionError,
    >)
        ensures
            result == Self::spec_try_from_iter(pairs@),
            result matches Ok(selection) ==> selection@ == arranged(pairs@) && valid_levels(
                selection@,
            ),
    {
        let mut slots: [Option<Connection>; 15] = [None; 15];
        let mut i: usize = 0;
        while i < pairs.len()
            invariant
                i <= pairs.len(),
                forall|a: int, b: int|
                    0 <= a < b < i ==> (#[trigger] pairs@[a]).0 != (#[trigger] pairs@[b]).0,
                forall|k: int|
                    0 <= k < 15 ==> (#[trigger] slots@[k] matches Some(connection) ==> exists|
                        j: int,
                    |
                        0 <= j < i && #[trigger] pairs@[j] == (Spirit::at(k), connection)),
                forall|j: int|
                    0 <= j < i ==> (#[trigger] slots@[pairs@[j].0.ordinal()]) is Some,
            decreases pairs.len() - i,
        {
            let (spirit, connection) = pairs[i];
            let k = spirit.index();
            proof {
                Spirit::lemma_ordinal_at();
            }
            if slots[k].is_some() {
                proof {
                    let held = slots@[k as int]->Some_0;
                    let j = choose|j: int|
                        0 <= j < i && #[trigger] pairs@[j] == (Spirit::at(k as int), held);
                    assert(pairs@[j].0 == pairs@[i as int].0);
                }
                return Err(SelectionError::Malformed);
            }
            proof {
                assert forall|a: int| 0 <= a < i implies (#[trigger] pairs@[a]).0 != spirit by {
                    assert(slots@[pairs@[a].0.ordinal()] is Some);
                }
            }
            let ghost before = slots@;
            slots[k] = Some(connection);
            proof {
                assert forall|m: int| 0 <= m < 15 implies (#[trigger] slots@[m] matches Some(
                    held,
                ) ==> exists|j: int|
                    0 <= j < i + 1 && #[trigger] pairs@[j] == (Spirit::at(m), held)) by {
                    if slots@[m] is Some {
                        let held = slots@[m]->Some_0;
                        if m == k {
                            assert(pairs@[i as int] == (Spirit::at(m), held));
                        } else {
                            assert(before[m] == slots@[m]);
                            let j = choose|j: int|
                                0 <= j < i && #[trigger] pairs@[j] == (Spirit::at(m), held);
                            assert(pairs@[j] == (Spirit::at(m), held));
                        }
                    }
                }
            }
            i += 1;
        }
        let mut levels: [Connection; 15] = [Connection::Ineptitude; 15];
        let mut k: usize = 0;
        while k < 15
            invariant
                k <= 15,
                i == pairs@.len(),
                forall|a: int, b: int|
                    0 <= a < b < i ==> (#[trigger] pairs@[a]).0 != (#[trigger] pairs@[b]).0,
                forall|m: int|
                    0 <= m < 15 ==> (#[trigger] slots@[m] matches Some(connection) ==> exists|
                        j: int,
                    |
                        0 <= j < i && #[trigger] pairs@[j] == (Spirit::at(m), connection)),
                forall|j: int|
                    0 <= j < i ==> (#[trigger] slots@[pairs@[j].0.ordinal()]) is Some,
                forall|m: int| 0 <= m < k ==> slots@[m] == Some(#[trigger] levels@[m]),
            decreases 15 - k,
        {
            match slots[k] {
                Some(connection) => {
                    levels[k] = connection;
                },
                None => {
                    proof {
                        Spirit::lemma_ordinal_at();
                        if names(pairs@, Spirit::at(k as int)) {
                            let j = choose|j: int|
                                0 <= j < pairs@.len() && (#[trigger] pairs@[j]).0 == Spirit::at(
                                    k as int,
                                );
                            assert(slots@[pairs@[j].0.ordinal()] is Some);
                        }
                    }
                    return Err(SelectionError::Malformed);
                },
            }
            k += 1;
        }
        proof {
            Spirit::lemma_ordinal_at();
            assert forall|spirit: Spirit| #[trigger] names(pairs@, spirit) by {
                let m = spirit.ordinal();
                assert(slots@[m] == Some(levels@[m]));
                let j = choose|j: int|
                    0 <= j < i && #[trigger] pairs@[j] == (Spirit::at(m), levels@[m]);
                assert(pairs@[j].0 == spirit);
            }
            assert forall|m: int| 0 <= m < 15 implies levels@[m] == #[trigger] arranged(
                pairs@,
            )[m] by {
                assert(slots@[m] == Some(levels@[m]));
                let j = choose|j: int|
                    0 <= j < i && #[trigger] pairs@[j] == (Spirit::at(m), levels@[m]);
                let c = choose|c: int|
                    0 <= c < pairs@.len() && (#[trigger] pairs@[c]).0 == Spirit::at(m);
                assert(pairs@[j].0 == Spirit::at(m));
                assert(pairs@[c].0 == Spirit::at(m));
                if c < j {
                    assert(pairs@[c].0 != pairs@[j].0);
                }
                if j < c {
                    assert(pairs@[j].0 != pairs@[c].0);
                }
            }
            assert(levels@ =~= arranged(pairs@));
        }
        if is_valid(levels.as_slice()) {
            Ok(spirit_selection_unchecked(levels.as_slice()))
        } else {
            Err(SelectionError::Invalid)
        }
    }
}

/// Builds the selection that holds `spirits`, which the caller has found to
/// be fifteen legal connections.
fn spirit_selection_unchecked(spirits: &[Connection]) -> (selection: SpiritSelection)
    requires
        spirits@.len() == 15,
        valid_levels(spirits@),
    ensures
        selection@ == spirits@,
        selection == SpiritSelection::with_levels(spirits@),
{
    let mut levels: [Connection; 15] = [Connection::Ineptitude; 15];
    let mut k: usize = 0;
    while k < 15
        invariant
            k <= 15,
            spirits@.len() == 15,
            forall|j: int| 0 <= j < k ==> levels@[j] == spirits@[j],
        decreases 15 - k,
    {
        levels[k] = spirits[k];
        k += 1;
    }
    assert(levels@ =~= spirits@);
    let selection = SpiritSelection { levels };
    proof {
        SpiritSelection::lemma_with_levels(spirits@);
        selection.lemma_view(SpiritSelection::with_levels(spirits@));
    }
    selection
}

impl TryFrom<[Connection; 15]> for SpiritSelection {
    type Error = SelectionError;

    /// Accepts the connections of the fifteen spirits, given in the
    /// declaration order of the spirits, if and only if they are legal.
    fn try_from(spirits: [Connection; 15]) -> (result: Result<Self, SelectionError>)
        ensures
            result matches Ok(selection) ==> selection@ == spirits@ && valid_levels(spirits@),
            result matches Err(error) ==> error == SelectionError::Invalid && !valid_levels(
                spirits@,
            ),
    {
        if is_valid(spirits.as_slice()) {
            Ok(spirit_selection_unchecked(spirits.as_slice()))
        } else {
            Err(SelectionError::Invalid)
        }
    }
}

impl TryFromSpecImpl<[Connection; 15]> for SpiritSelection {
    open spec fn obeys_try_from_spec() -> bool {
        true
    }

    open spec fn try_from_spec(spirits: [Connection; 15]) -> Result<Self, SelectionError> {
        if valid_levels(spirits@) {
            Ok(SpiritSelection::with_levels(spirits@))
        } else {
            Err(SelectionError::Invalid)
        }
    }
}

impl TryFrom<Vec<Connection>> for SpiritSelection {
    type Error = SelectionError;

    /// Accepts the connections of the spirits, given in the declaration
    /// order of the spirits, if and only if there are fifteen of them and
    /// they are legal.
    fn try_from(spirits: Vec<Connection>) -> (result: Result<Self, SelectionError>)
        ensures
            result matches Ok(selection) ==> selection@ == spirits@ && valid_levels(spirits@),
            result matches Err(error) ==> !valid_levels(spirits@) && error == if spirits@.len()
                == 15 {
                SelectionError::Invalid
            } else {
                SelectionError::Malformed
            },
    {
        if spirits.len() != 15 {
            proof {
                if valid_levels(spirits@) {
                    lemma_valid_len(spirits@);
                }
            }
            Err(SelectionError::Malformed)
        } else if is_valid(spirits.as_slice()) {
            Ok(spirit_selection_unchecked(spirits.as_slice()))
        } else {
            Err(SelectionError::Invalid)
        }
    }
}

impl TryFromSpecImpl<Vec<Connection>> for SpiritSelection {
    open spec fn obeys_try_from_spec() -> bool {
        true
    }

    open spec fn try_from_spec(spirits: Vec<Connection>) -> Result<Self, SelectionError> {
        if spirits@.len() != 15 {
            Err(SelectionError::Malformed)
        } else if valid_levels(spirits@) {
            Ok(SpiritSelection::with_levels(spirits@))
        } else {
            Err(SelectionError::Invalid)
        }
    }
}

/// Legal connections are fifteen in number.
pub proof fn lemma_valid_len(levels: Seq<Connection>)
    requires
        valid_levels(levels),
    ensures
        levels.len() == 15,
{
    lemma_counts_sum(levels);
}

/// Every element has one of the five levels, so the five counts add up to
/// the number of elements.
pub proof fn lemma_counts_sum(levels: Seq<Connection>)
    ensures
        levels.len() == count(levels, Connection::Mastery) + count(levels, Connection::Expertise)
            + count(levels, Connection::Competence) + count(levels, Connection::Ineptitude)
            + count(levels, Connection::Wizardry),
    decreases levels.len(),
{
    if levels.len() == 0 {
        lemma_count_bound(levels, Connection::Mastery);
        lemma_count_bound(levels, Connection::Expertise);
        lemma_count_bound(levels, Connection::Competence);
        lemma_count_bound(levels, Connection::Ineptitude);
        lemma_count_bound(levels, Connection::Wizardry);
    } else {
        let n = levels.len() - 1;
        lemma_counts_sum(levels.take(n));
        lemma_count_take(levels, n);
        assert(levels.take(n + 1) =~= levels);
    }
}

/// The rule of `valid_levels` says that the levels, taken as a multiset,
/// are `required_levels`: validity does not depend on which spirit holds
/// which connection, and any deviation in any count is invalid.
pub proof fn lemma_valid_is_required(levels: Seq<Connection>)
    ensures
        valid_levels(levels) <==> levels.to_multiset() == required_levels(),
{
    broadcast use vstd::multiset::group_multiset_axioms;

    assert(Map::total(|level: Connection| quota(level)).dom().finite()) by {
        lemma_connections_finite();
    }
    if valid_levels(levels) {
        assert forall|level: Connection|
            levels.to_multiset().count(level) == required_levels().count(level) by {
            match level {
                Connection::Mastery => {},
                Connection::Expertise => {},
                Connection::Competence => {},
                Connection::Ineptitude => {},
                Connection::Wizardry => {},
            }
        }
        assert(levels.to_multiset() =~= required_levels());
    }
    if levels.to_multiset() == required_levels() {
        assert(required_levels().count(Connection::Mastery) == 1);
        assert(required_levels().count(Connection::Expertise) == 3);
        assert(required_levels().count(Connection::Competence) == 5);
        assert(required_levels().count(Connection::Ineptitude) == 6);
        assert(required_levels().count(Connection::Wizardry) == 0);
    }
}

/// There are five connections, so a set of connections is finite.
proof fn lemma_connections_finite()
    ensures
        Set::<Connection>::full().finite(),
{
    let five = set![
        Connection::Ineptitude,
        Connection::Competence,
        Connection::Expertise,
        Connection::Mastery,
        Connection::Wizardry,
    ];
    assert forall|level: Connection| five.contains(level) by {
        match level {
            Connection::Mastery => {},
            Connection::Expertise => {},
            Connection::Competence => {},
            Connection::Ineptitude => {},
            Connection::Wizardry => {},
        }
    }
    assert(five =~= Set::<Connection>::full());
}

/// Which spirit holds which connection does not matter: every arrangement
/// of one mastery, three expertises, five competences and six ineptitudes
/// over the fifteen spirits is accepted, and the selection holds it as
/// given.
pub proof fn lemma_every_arrangement_accepted(spirits: [Connection; 15])
    requires
        spirits@.to_multiset() == required_levels(),
    ensures
        <SpiritSelection as TryFromSpec<[Connection; 15]>>::try_from_spec(spirits) matches Ok(
            selection,
        ) && selection@ == spirits@,
{
    lemma_valid_is_required(spirits@);
    SpiritSelection::lemma_with_levels(spirits@);
}

/// Two arrangements of the same connections are both accepted or both
/// refused.
pub proof fn lemma_rearranged(spirits: [Connection; 15], rearranged: [Connection; 15])
    requires
        spirits@.to_multiset() == rearranged@.to_multiset(),
    ensures
        <SpiritSelection as TryFromSpec<[Connection; 15]>>::try_from_spec(spirits) is Ok
            <==> <SpiritSelection as TryFromSpec<[Connection; 15]>>::try_from_spec(
            rearranged,
        ) is Ok,
{
}

/// Connections with a wizardry among them are not legal, whatever the
/// others are.
pub proof fn lemma_wizardry_invalid(levels: Seq<Connection>)
    requires
        levels.contains(Connection::Wizardry),
    ensures
        !valid_levels(levels),
{
    broadcast use vstd::seq_lib::group_to_multiset_ensures;

}

/// A selection with a wizardry in it is refused as invalid.
pub proof fn lemma_wizardry_refused(spirits: [Connection; 15])
    requires
        spirits@.contains(Connection::Wizardry),
    ensures
        <SpiritSelection as TryFromSpec<[Connection; 15]>>::try_from_spec(spirits) == Err::<
            SpiritSelection,
            SelectionError,
        >(SelectionError::Invalid),
{
    lemma_wizardry_invalid(spirits@);
}

/// Pairs with a wizardry in them are refused, whatever else they hold.
pub proof fn lemma_wizardry_refused_in_pairs(pairs: Seq<(Spirit, Connection)>, i: int)
    requires
        0 <= i < pairs.len(),
        pairs[i].1 == Connection::Wizardry,
    ensures
        SpiritSelection::spec_try_from_iter(pairs) is Err,
{
    if names_each_once(pairs) {
        lemma_arranged(pairs, i);
        Spirit::lemma_ordinal_at();
        let k = pairs[i].0.ordinal();
        assert(arranged(pairs)[k] == Connection::Wizardry);
        lemma_wizardry_invalid(arranged(pairs));
    }
}

/// Where pairs name each spirit once, each pair's connection stands at the
/// place of its spirit.
pub proof fn lemma_arranged(pairs: Seq<(Spirit, Connection)>, i: int)
    requires
        names_each_once(pairs),
        0 <= i < pairs.len(),
    ensures
        assigned(pairs, pairs[i].0) == pairs[i].1,
        arranged(pairs)[pairs[i].0.ordinal()] == pairs[i].1,
{
    Spirit::lemma_ordinal_at();
    let spirit = pairs[i].0;
    let c = choose|c: int| 0 <= c < pairs.len() && (#[trigger] pairs[c]).0 == spirit;
    if c < i {
        assert(pairs[c].0 != pairs[i].0);
    }
    if i < c {
        assert(pairs[i].0 != pairs[c].0);
    }
}

/// Pairs that name each spirit exactly once are fifteen pairs.
pub proof fn lemma_each_once_is_fifteen(pairs: Seq<(Spirit, Connection)>)
    requires
        names_each_once(pairs),
    ensures
        pairs.len() == 15,
{
    Spirit::lemma_ordinal_at();
    let named = Seq::new(pairs.len(), |i: int| pairs[i].0);
    let all = Spirit::LIST@;
    assert(named.no_duplicates()) by {
        assert forall|i: int, j: int|
            0 <= i < named.len() && 0 <= j < named.len() && i != j implies named[i]
            != named[j] by {
            if i < j {
                assert(pairs[i].0 != pairs[j].0);
            } else {
                assert(pairs[j].0 != pairs[i].0);
            }
        }
    }
    assert(all.no_duplicates()) by {
        assert forall|i: int, j: int|
            0 <= i < all.len() && 0 <= j < all.len() && i != j implies all[i] != all[j] by {
            assert(Spirit::at(i).ordinal() == i);
            assert(Spirit::at(j).ordinal() == j);
        }
    }
    assert(named.to_set() =~= all.to_set()) by {
        assert forall|spirit: Spirit| named.contains(spirit) && all.contains(spirit) by {
            assert(names(pairs, spirit));
            let i = choose|i: int| 0 <= i < pairs.len() && (#[trigger] pairs[i]).0 == spirit;
            assert(named[i] == spirit);
            assert(all[spirit.ordinal()] == spirit);
        }
    }
    named.unique_seq_to_set();
    all.unique_seq_to_set();
}

/// A selection in which any connection occurs more or less often than its
/// quota says is refused as invalid.
pub proof fn lemma_deviation_refused(spirits: [Connection; 15], level: Connection)
    requires
        count(spirits@, level) != quota(level),
    ensures
        <SpiritSelection as TryFromSpec<[Connection; 15]>>::try_from_spec(spirits) == Err::<
            SpiritSelection,
            SelectionError,
        >(SelectionError::Invalid),
{
}

/// The pairs of a selection, validated again, give the same selection.
pub proof fn lemma_round_trip(selection: SpiritSelection)
    requires
        selection.legal(),
    ensures
        SpiritSelection::spec_try_from_iter(selection.spec_pairs()) == Ok::<
            SpiritSelection,
            SelectionError,
        >(selection),
{
    Spirit::lemma_ordinal_at();
    selection.lemma_view(selection);
    let pairs = selection.spec_pairs();
    assert forall|spirit: Spirit| #[trigger] names(pairs, spirit) by {
        assert(pairs[spirit.ordinal()].0 == spirit);
    }
    assert(names_each_once(pairs));
    assert forall|k: int| 0 <= k < 15 implies #[trigger] arranged(pairs)[k] == selection@[k] by {
        lemma_arranged(pairs, k);
    }
    assert(arranged(pairs) =~= selection@);
    SpiritSelection::lemma_with_levels(selection@);
    selection.lemma_view(SpiritSelection::with_levels(selection@));
}

} // verus!
