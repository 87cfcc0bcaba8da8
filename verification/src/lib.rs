//! Character creation rules of Spirits Within: which assignments of
//! connections to the fifteen spirits are legal, which statistics a legal
//! assignment yields, and how prerogatives raise them.

pub mod application;
pub mod character;
pub mod connection;
pub mod eligibility;
pub mod game;
pub mod prerogatives;
pub mod screen;
pub mod selection;
pub mod spirit;
pub mod stats;

pub use application::{ApplicationState, Forward, Message};
pub use character::Character;
pub use connection::Connection;
pub use game::Game;
pub use prerogatives::{Burden, Prerogative, PrerogativesAndBurdens};
pub use selection::{SelectionError, SpiritSelection};
pub use spirit::{Spirit, Stat};
pub use stats::{BaseStats, StatisticCapExceeded, Stats};
