use spirits_within::{Burden, Prerogative, PrerogativesAndBurdens};

fn base() -> [Prerogative; 4] {
    [
        Prerogative::Conviction,
        Prerogative::Wealth,
        Prerogative::Relic,
        Prerogative::Family,
    ]
}

#[test]
fn a_new_set_has_its_base_prerogatives_and_no_burden() {
    let pb = PrerogativesAndBurdens::new(base());
    assert_eq!(pb.prerogatives(), base().to_vec());
    assert_eq!(pb.burdens(), Vec::<Burden>::new());
    assert_eq!(pb.burden_count(), 0);
}

#[test]
fn a_fifth_burden_is_not_taken() {
    let mut pb = PrerogativesAndBurdens::new(base());
    assert!(pb.add_burden(Burden::Addiction, Prerogative::Education));
    assert!(pb.add_burden(Burden::Debt, Prerogative::Vocation));
    assert!(pb.add_burden(Burden::Fame, Prerogative::Witchcraft));
    assert!(pb.add_burden(Burden::Youth, Prerogative::Endurance));
    let full = pb.clone();
    assert!(!pb.add_burden(Burden::Wanted, Prerogative::Liaison));
    assert_eq!(pb, full);
    assert_eq!(pb.burden_count(), 4);
    assert_eq!(
        pb.burdens(),
        vec![Burden::Addiction, Burden::Debt, Burden::Fame, Burden::Youth]
    );
    assert_eq!(
        pb.prerogatives(),
        vec![
            Prerogative::Conviction,
            Prerogative::Wealth,
            Prerogative::Relic,
            Prerogative::Family,
            Prerogative::Education,
            Prerogative::Vocation,
            Prerogative::Witchcraft,
            Prerogative::Endurance,
        ]
    );
    assert!(!pb.add_burden(Burden::Wanted, Prerogative::Liaison));
    assert_eq!(pb, full);
}

#[test]
fn removing_from_no_burdens_changes_nothing() {
    let mut pb = PrerogativesAndBurdens::new(base());
    assert_eq!(pb.remove_last(), None);
    assert_eq!(pb, PrerogativesAndBurdens::new(base()));
    assert_eq!(pb.remove_last(), None);
    assert_eq!(pb.prerogatives(), base().to_vec());
}

#[test]
fn the_burden_taken_last_is_removed_first() {
    let mut pb = PrerogativesAndBurdens::new(base());
    assert!(pb.add_burden(Burden::Addiction, Prerogative::Education));
    assert!(pb.add_burden(Burden::Debt, Prerogative::Vocation));
    assert_eq!(pb.remove_last(), Some((Burden::Debt, Prerogative::Vocation)));
    assert_eq!(pb.burdens(), vec![Burden::Addiction]);
    assert_eq!(pb.prerogatives().len(), 5);
    assert_eq!(
        pb.remove_last(),
        Some((Burden::Addiction, Prerogative::Education))
    );
    assert_eq!(pb, PrerogativesAndBurdens::new(base()));
}

#[test]
fn a_removed_burden_makes_room_for_another() {
    let mut pb = PrerogativesAndBurdens::new(base());
    for burden in [Burden::Addiction, Burden::Debt, Burden::Fame, Burden::Youth] {
        assert!(pb.add_burden(burden, Prerogative::Wealth));
    }
    assert!(!pb.add_burden(Burden::Wanted, Prerogative::Liaison));
    assert_eq!(pb.remove_last(), Some((Burden::Youth, Prerogative::Wealth)));
    assert!(pb.add_burden(Burden::Wanted, Prerogative::Liaison));
    assert_eq!(pb.burden_count(), 4);
}

#[test]
fn a_base_slot_is_overwritten_in_place() {
    let mut pb = PrerogativesAndBurdens::new(base());
    assert!(pb.add_burden(Burden::Addiction, Prerogative::Education));
    assert!(pb.set_prerogative(2, Prerogative::Psychometry));
    assert_eq!(
        pb.prerogatives(),
        vec![
            Prerogative::Conviction,
            Prerogative::Wealth,
            Prerogative::Psychometry,
            Prerogative::Family,
            Prerogative::Education,
        ]
    );
    assert_eq!(pb.burdens(), vec![Burden::Addiction]);
}

#[test]
fn there_is_no_fifth_base_slot() {
    let mut pb = PrerogativesAndBurdens::new(base());
    assert!(!pb.set_prerogative(4, Prerogative::Psychometry));
    assert!(!pb.set_prerogative(usize::MAX, Prerogative::Psychometry));
    assert_eq!(pb, PrerogativesAndBurdens::new(base()));
}

#[test]
fn a_clone_is_equal_and_independent() {
    let mut pb = PrerogativesAndBurdens::new(base());
    assert!(pb.add_burden(Burden::Illness, Prerogative::HealingHands));
    let copy = pb.clone();
    assert_eq!(copy, pb);
    assert!(pb.add_burden(Burden::Rookie, Prerogative::Promotion));
    assert_eq!(copy.burden_count(), 1);
    assert_eq!(pb.burden_count(), 2);
}
