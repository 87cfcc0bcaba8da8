use spirits_within::eligibility::{complete, eligible_connections, remaining};
use spirits_within::{BaseStats, Connection, Prerogative, SelectionError, SpiritSelection};

use Connection::{Competence, Expertise, Ineptitude, Mastery, Wizardry};

#[test]
fn nothing_assigned_leaves_every_quota_whole() {
    let assigned = [None; 15];
    assert_eq!(remaining(&assigned, Mastery), 1);
    assert_eq!(remaining(&assigned, Expertise), 3);
    assert_eq!(remaining(&assigned, Competence), 5);
    assert_eq!(remaining(&assigned, Ineptitude), 6);
    assert_eq!(remaining(&assigned, Wizardry), 0);
    assert_eq!(
        eligible_connections(&assigned),
        vec![Ineptitude, Competence, Expertise, Mastery]
    );
}

#[test]
fn an_assigned_mastery_uses_up_its_quota() {
    let mut assigned = [None; 15];
    assigned[3] = Some(Mastery);
    assigned[7] = Some(Expertise);
    assert_eq!(remaining(&assigned, Mastery), 0);
    assert_eq!(remaining(&assigned, Expertise), 2);
    assert_eq!(remaining(&assigned, Competence), 5);
    assert_eq!(
        eligible_connections(&assigned),
        vec![Ineptitude, Competence, Expertise]
    );
}

#[test]
fn more_than_the_quota_leaves_nothing() {
    let mut assigned = [None; 15];
    assigned[0] = Some(Mastery);
    assigned[1] = Some(Mastery);
    assigned[2] = Some(Wizardry);
    assert_eq!(remaining(&assigned, Mastery), 0);
    assert_eq!(remaining(&assigned, Wizardry), 0);
    let all_inept = [Some(Ineptitude); 15];
    assert_eq!(remaining(&all_inept, Ineptitude), 0);
    assert_eq!(
        eligible_connections(&all_inept),
        vec![Competence, Expertise, Mastery]
    );
}

#[test]
fn a_full_legal_assignment_leaves_nothing_eligible() {
    let levels = [
        Mastery, Expertise, Expertise, Expertise, Competence, Competence, Competence, Competence,
        Competence, Ineptitude, Ineptitude, Ineptitude, Ineptitude, Ineptitude, Ineptitude,
    ];
    let assigned = levels.map(Some);
    for level in Connection::LIST {
        assert_eq!(remaining(&assigned, level), 0);
    }
    assert_eq!(eligible_connections(&assigned), Vec::<Connection>::new());
}

#[test]
fn choosing_only_eligible_connections_ends_in_a_legal_selection() {
    // Always take the closest eligible connection, then the loosest, in turn.
    let mut assigned: [Option<Connection>; 15] = [None; 15];
    for k in 0..15 {
        let eligible = eligible_connections(&assigned);
        assert!(!eligible.is_empty());
        let choice = if k % 2 == 0 {
            eligible[eligible.len() - 1]
        } else {
            eligible[0]
        };
        assigned[k] = Some(choice);
    }
    let levels = assigned.map(|level| level.unwrap());
    let ss = SpiritSelection::try_from(levels).unwrap();
    assert_eq!(ss.levels(), levels);
    assert_eq!(complete(&assigned), Ok(ss));
    assert_eq!(eligible_connections(&assigned), Vec::<Connection>::new());
}

#[test]
fn an_assignment_with_a_gap_is_malformed() {
    assert_eq!(complete(&[None; 15]), Err(SelectionError::Malformed));
    let legal = [
        Mastery, Expertise, Expertise, Expertise, Competence, Competence, Competence, Competence,
        Competence, Ineptitude, Ineptitude, Ineptitude, Ineptitude, Ineptitude, Ineptitude,
    ];
    for gap in 0..15 {
        let mut assigned = legal.map(Some);
        assigned[gap] = None;
        assert_eq!(complete(&assigned), Err(SelectionError::Malformed));
    }
    // A gap is reported before a wizardry.
    let mut assigned = legal.map(Some);
    assigned[0] = Some(Wizardry);
    assigned[14] = None;
    assert_eq!(complete(&assigned), Err(SelectionError::Malformed));
}

#[test]
fn a_full_assignment_is_held_to_the_quotas() {
    let legal = [
        Ineptitude, Mastery, Ineptitude, Expertise, Ineptitude, Competence, Ineptitude, Expertise,
        Ineptitude, Competence, Ineptitude, Expertise, Competence, Competence, Competence,
    ];
    let ss = complete(&legal.map(Some)).unwrap();
    assert_eq!(ss.levels(), legal);
    let mut assigned = legal.map(Some);
    assigned[0] = Some(Competence);
    assert_eq!(complete(&assigned), Err(SelectionError::Invalid));
    assigned[0] = Some(Wizardry);
    assert_eq!(complete(&assigned), Err(SelectionError::Invalid));
}

#[test]
fn statistics_below_their_maxima_accept_every_prerogative() {
    let base = BaseStats {
        discipline: 12,
        knowledge: 17,
        proficiency: 0,
    };
    assert_eq!(base.eligible_prerogatives(), Prerogative::LIST.to_vec());
    for prerogative in Prerogative::LIST {
        assert!(base.accepts(prerogative));
    }
}

#[test]
fn a_statistic_at_its_maximum_rules_out_its_prerogative() {
    let base = BaseStats {
        discipline: 13,
        knowledge: 5,
        proficiency: 18,
    };
    assert!(!base.accepts(Prerogative::Conviction));
    assert!(base.accepts(Prerogative::Education));
    assert!(!base.accepts(Prerogative::Vocation));
    assert!(base.accepts(Prerogative::Witchcraft));
    let mut expected = Prerogative::LIST.to_vec();
    expected.retain(|p| *p != Prerogative::Conviction && *p != Prerogative::Vocation);
    assert_eq!(base.eligible_prerogatives(), expected);
    assert_eq!(base.eligible_prerogatives().len(), 16);
}

#[test]
fn all_three_at_their_maxima_leave_the_fifteen_others() {
    let base = BaseStats {
        discipline: 20,
        knowledge: 18,
        proficiency: 19,
    };
    assert_eq!(base.eligible_prerogatives(), Prerogative::LIST[3..].to_vec());
}
