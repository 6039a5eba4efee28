//! A number-guessing game: a secret drawn from a difficulty's range, a bounded
//! number of attempts, and a verified state machine that judges each guess.
pub mod difficulty;
pub mod guess_input;
pub mod session;

pub use difficulty::Difficulty;
pub use guess_input::{parse_decimal_u32, read_guess};
pub use session::{GameState, GameView, GuessOutcome};
