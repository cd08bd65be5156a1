//! Rock-paper-scissors: the dominance rule between choices, the parsing of a
//! typed choice, the best-of configuration and the scoring of a match.

pub mod choice;
pub mod game;

pub use choice::{Choice, ParseError};
pub use game::{BestOf, ConfigError, Game, GameView, Winner};
