//! A code-breaking game in the style of Mastermind: a secret of four
//! colours out of six, and six attempts to guess it.
//!
//! - [`colour`]: the six colours, their codes and their names.
//! - [`figure`]: secrets and guesses, and how a guess is scored.
//! - [`feedback`]: the markers that a guess earns.
//! - [`game`]: the rounds of a game, from the first guess to its end.
//! - [`input`]: reading a typed line of colour codes.
//! - [`random`]: the draws that the `rand` crate makes for the game.

pub mod colour;
pub mod feedback;
pub mod figure;
pub mod game;
pub mod input;
pub mod random;

pub use colour::{FigureColour, ParseError};
pub use feedback::{HitColour, HitOutput};
pub use figure::FigureInput;
pub use game::{play_round, run_game, GameState, Prompter, Visualizer, MAX_ATTEMPTS};
pub use input::{decode_colours, parse_colours};
