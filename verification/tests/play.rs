use spirits_within::game::GameState;
use spirits_within::screen;
use spirits_within::{
    ApplicationState, BaseStats, Character, Forward, Game, Message, Prerogative,
    PrerogativesAndBurdens,
};

fn some_stats(discipline: u32) -> spirits_within::Stats {
    let base = BaseStats {
        discipline,
        knowledge: 11,
        proficiency: 9,
    };
    let pb = PrerogativesAndBurdens::new([
        Prerogative::Wealth,
        Prerogative::Family,
        Prerogative::Relic,
        Prerogative::Education,
    ]);
    base.with_prerogatives_and_burdens(&pb).unwrap()
}

#[test]
fn a_new_character_has_the_discipline_of_its_statistics() {
    let stats = some_stats(10);
    let character = Character::new(String::from("Ada"), stats);
    assert_eq!(character.name(), "Ada");
    assert_eq!(character.discipline(), 10);
    assert_eq!(character.karma(), 0);
    assert_eq!(character.stress(), 0);
    assert_eq!(character.stats(), stats);
    assert_eq!(character.stats().knowledge(), 14);
}

#[test]
fn karma_is_never_left_below_six() {
    let mut character = Character::new(String::from("Ada"), some_stats(10));
    assert_eq!(character.add_karma(0), 6);
    assert_eq!(character.karma(), 6);
    let mut character = Character::new(String::from("Ada"), some_stats(10));
    assert_eq!(character.add_karma(2), 6);
    assert_eq!(character.add_karma(1), 7);
    assert_eq!(character.add_karma(10), 17);
    assert_eq!(character.karma(), 17);
    assert_eq!(character.discipline(), 10);
    assert_eq!(character.stress(), 0);
    assert_eq!(character.name(), "Ada");
}

#[test]
fn karma_may_reach_the_largest_number() {
    let mut character = Character::new(String::from("Ada"), some_stats(10));
    assert_eq!(character.add_karma(u32::MAX), u32::MAX);
    assert_eq!(character.add_karma(0), u32::MAX);
}

#[test]
fn karma_is_taken_while_there_is_enough() {
    let mut character = Character::new(String::from("Ada"), some_stats(10));
    assert_eq!(character.add_karma(8), 8);
    assert_eq!(character.substract_karma(3), Ok(5));
    assert_eq!(character.karma(), 5);
    assert_eq!(character.substract_karma(6), Err(()));
    assert_eq!(character.karma(), 5);
    assert_eq!(character.substract_karma(5), Ok(0));
    assert_eq!(character.substract_karma(0), Ok(0));
    assert_eq!(character.substract_karma(1), Err(()));
    assert_eq!(character.karma(), 0);
}

#[test]
fn a_new_game_is_between_missions() {
    let characters = vec![
        Character::new(String::from("Ada"), some_stats(10)),
        Character::new(String::from("Ben"), some_stats(4)),
    ];
    let game = Game::new(characters);
    assert_eq!(game.character_count(), 2);
    assert_eq!(game.state(), GameState::Downtime);
    let empty = Game::new(Vec::new());
    assert_eq!(empty.character_count(), 0);
    assert_eq!(empty.state(), GameState::Downtime);
}

#[test]
fn a_transition_shows_the_screen_it_names() {
    let mut state = ApplicationState::CharacterCreator;
    let forward = state.update(Message::<u8>::TransitionGame);
    assert!(matches!(forward, Forward::Nothing));
    assert_eq!(state, ApplicationState::Game);
    let forward = state.update(Message::<u8>::TransitionGame);
    assert!(matches!(forward, Forward::Nothing));
    assert_eq!(state, ApplicationState::Game);
    let forward = state.update(Message::<u8>::TransitionCharacterCreator);
    assert!(matches!(forward, Forward::Nothing));
    assert_eq!(state, ApplicationState::CharacterCreator);
}

#[test]
fn a_message_for_a_screen_is_forwarded_and_the_screen_stays() {
    let mut state = ApplicationState::Game;
    let forward = state.update(Message::CharactorCreator(7u8));
    assert!(matches!(forward, Forward::CharactorCreator(7)));
    assert_eq!(state, ApplicationState::Game);
    let forward = state.update(Message::<u8>::Game(screen::Message::Test));
    assert!(matches!(forward, Forward::Game(screen::Message::Test)));
    assert_eq!(state, ApplicationState::Game);
    let mut state = ApplicationState::CharacterCreator;
    let forward = state.update(Message::<u8>::Game(screen::Message::Test));
    assert!(matches!(forward, Forward::Game(screen::Message::Test)));
    assert_eq!(state, ApplicationState::CharacterCreator);
}

#[test]
fn a_game_screen_message_becomes_an_application_message() {
    let message: Message<u8> = Message::from(screen::Message::Test);
    assert!(matches!(message, Message::Game(screen::Message::Test)));
    let message: Message<String> = screen::Message::Test.into();
    assert!(matches!(message, Message::Game(screen::Message::Test)));
}
