use spirits_within::{Burden, Connection, Prerogative, Spirit, Stat};

#[test]
fn each_statistic_is_fed_by_five_spirits() {
    for stat in Stat::LIST {
        let fed = Spirit::LIST.iter().filter(|spirit| spirit.stat() == stat).count();
        assert_eq!(fed, 5);
    }
}

#[test]
fn spirits_feed_their_statistic() {
    assert_eq!(Spirit::TheVeil.stat(), Stat::Discipline);
    assert_eq!(Spirit::Mirror.stat(), Stat::Discipline);
    assert_eq!(Spirit::ThePath.stat(), Stat::Knowledge);
    assert_eq!(Spirit::Shadows.stat(), Stat::Proficiency);
    assert_eq!(Spirit::Instinct.stat(), Stat::Proficiency);
    assert_eq!(Spirit::Reason.stat(), Stat::Knowledge);
    assert_eq!(Spirit::Whispers.stat(), Stat::Knowledge);
    assert_eq!(Spirit::Respect.stat(), Stat::Discipline);
    assert_eq!(Spirit::Drama.stat(), Stat::Knowledge);
    assert_eq!(Spirit::Motion.stat(), Stat::Proficiency);
    assert_eq!(Spirit::Muscle.stat(), Stat::Discipline);
    assert_eq!(Spirit::Kinesis.stat(), Stat::Proficiency);
    assert_eq!(Spirit::Glamour.stat(), Stat::Proficiency);
    assert_eq!(Spirit::Balance.stat(), Stat::Discipline);
    assert_eq!(Spirit::ThePulse.stat(), Stat::Knowledge);
}

#[test]
fn index_and_from_index_are_inverse() {
    for (i, spirit) in Spirit::LIST.iter().enumerate() {
        assert_eq!(spirit.index(), i);
        assert_eq!(Spirit::from_index(i), Some(*spirit));
    }
    assert_eq!(Spirit::from_index(15), None);
    assert_eq!(Spirit::from_index(usize::MAX), None);
}

#[test]
fn spirits_have_their_descriptions() {
    assert_eq!(
        Spirit::TheVeil.description_short(),
        "Explore the abyss and know its power, consult the dead, challenge death's rule."
    );
    assert_eq!(
        Spirit::Shadows.description_short(),
        "Stay hidden, follow behind, strike unseen."
    );
    assert_eq!(
        Spirit::Balance.description_short(),
        "Steady body, steady hands, steady mind."
    );
    assert_eq!(
        Spirit::ThePulse.description_short(),
        "Know the roots, swim with the current's flow, chase the future."
    );
    for spirit in Spirit::LIST {
        assert_eq!(spirit.description_short(), Spirit::DESCRIPTIONS[spirit.index()]);
    }
}

#[test]
fn closer_connections_roll_smaller_dice() {
    assert_eq!(Connection::Ineptitude.die(), 20);
    assert_eq!(Connection::Competence.die(), 12);
    assert_eq!(Connection::Expertise.die(), 10);
    assert_eq!(Connection::Mastery.die(), 8);
    assert_eq!(Connection::Wizardry.die(), 6);
}

#[test]
fn connections_have_their_increments() {
    assert_eq!(Connection::Ineptitude.increment(), 0);
    assert_eq!(Connection::Competence.increment(), 1);
    assert_eq!(Connection::Expertise.increment(), 3);
    assert_eq!(Connection::Mastery.increment(), 5);
    assert_eq!(Connection::Wizardry.increment(), 0);
}

#[test]
fn connections_have_their_names() {
    assert_eq!(Connection::Ineptitude.to_string(), "Ineptitude");
    assert_eq!(Connection::Competence.to_string(), "Competence");
    assert_eq!(Connection::Expertise.to_string(), "Expertise");
    assert_eq!(Connection::Mastery.to_string(), "Mastery");
    assert_eq!(Connection::Wizardry.to_string(), "Wizardry");
    assert_eq!(Connection::Mastery.name(), "Mastery");
}

#[test]
fn burdens_are_named_as_they_are_written() {
    assert_eq!(Burden::LIST.len(), 14);
    for (i, burden) in Burden::LIST.iter().enumerate() {
        assert_eq!(burden.index(), i);
        assert_eq!(burden.to_string(), format!("{:?}", burden));
        assert_eq!(burden.name(), format!("{:?}", burden));
    }
    assert_eq!(Burden::BadReputation.to_string(), "BadReputation");
    assert_eq!(Burden::LexTalionis.to_string(), "LexTalionis");
}

#[test]
fn prerogatives_are_named_as_they_are_written() {
    assert_eq!(Prerogative::LIST.len(), 18);
    for (i, prerogative) in Prerogative::LIST.iter().enumerate() {
        assert_eq!(prerogative.index(), i);
        assert_eq!(prerogative.to_string(), format!("{:?}", prerogative));
        assert_eq!(prerogative.name(), format!("{:?}", prerogative));
    }
    assert_eq!(Prerogative::DevilKiller.to_string(), "DevilKiller");
    assert_eq!(Prerogative::Witchcraft.to_string(), "Witchcraft");
}

#[test]
fn three_prerogatives_raise_a_statistic() {
    assert_eq!(Prerogative::Conviction.bonus_stat(), Some(Stat::Discipline));
    assert_eq!(Prerogative::Education.bonus_stat(), Some(Stat::Knowledge));
    assert_eq!(Prerogative::Vocation.bonus_stat(), Some(Stat::Proficiency));
    let raising = Prerogative::LIST
        .iter()
        .filter(|prerogative| prerogative.bonus_stat().is_some())
        .count();
    assert_eq!(raising, 3);
    assert_eq!(Prerogative::BONUS, 3);
}
