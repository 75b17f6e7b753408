//! The rounds of one game: up to six guesses against a fixed secret.

use crate::feedback::HitOutput;
use crate::figure::FigureInput;
use rand::rngs::StdRng;
use vstd::prelude::*;

verus! {

/// The number of guesses that a game allows.
pub const MAX_ATTEMPTS: u8 = 6;

/// Asks the player for guesses.
pub trait Prompter {
    /// Shows `message_to_show` and returns the player's next guess.
    fn get_input(&self, message_to_show: &str) -> FigureInput;
}

/// Shows the player what a guess earned.
pub trait Visualizer {
    /// Presents the feedback for the latest guess.
    fn present_game_state(&self, hit_output: &HitOutput);
}

/// Where a game stands.
#[derive(Clone, Copy, PartialEq, Eq, Debug, Structural)]
pub enum GameState {
    /// The game waits for a guess; `attempt` guesses were made before it.
    AwaitingGuess { attempt: u8 },
    /// A guess matched the secret.
    Won,
    /// All guesses were used and none matched the secret.
    Exhausted,
}

impl GameState {
    /// A waiting game has made fewer than `MAX_ATTEMPTS` guesses.
    pub open spec fn wf(self) -> bool {
        self matches GameState::AwaitingGuess { attempt } ==> attempt < MAX_ATTEMPTS
    }

    /// Whether the game is over.
    pub open spec fn is_over(self) -> bool {
        self is Won || self is Exhausted
    }

    /// How many guesses the game can still take.
    pub open spec fn attempts_left(self) -> nat {
        match self {
            GameState::AwaitingGuess { attempt } => if attempt < MAX_ATTEMPTS {
                (MAX_ATTEMPTS - attempt) as nat
            } else {
                0
            },
            _ => 0,
        }
    }

    /// The state after a guess whose feedback is a win, or is not.
    ///
    /// A win ends the game as `Won`. Without a win the last allowed guess
    /// ends it as `Exhausted`, and any earlier guess leads to the next
    /// attempt. A game that is over stays as it is.
    pub open spec fn step(self, win: bool) -> GameState {
        match self {
            GameState::AwaitingGuess { attempt } => if win {
                GameState::Won
            } else if attempt + 1 >= MAX_ATTEMPTS {
                GameState::Exhausted
            } else {
                GameState::AwaitingGuess { attempt: (attempt + 1) as u8 }
            },
            _ => self,
        }
    }

    /// The state after one guess for each entry of `wins`, in order.
    pub open spec fn steps(self, wins: Seq<bool>) -> GameState
        decreases wins.len(),
    {
        if wins.len() == 0 {
            self
        } else {
            self.step(wins[0]).steps(wins.drop_first())
        }
    }

    /// A fresh game: it waits for the first guess.
    pub fn new() -> (state: GameState)
        ensures
            state == (GameState::AwaitingGuess { attempt: 0 }),
    {
        GameState::AwaitingGuess { attempt: 0 }
    }

    /// Whether the game is over.
    pub fn is_finished(&self) -> (over: bool)
        ensures
            over == self.is_over(),
    {
        match self {
            GameState::AwaitingGuess { .. } => false,
            _ => true,
        }
    }

    /// The state after the guess that earned `feedback`.
    pub fn advance(self, feedback: &HitOutput) -> (next: GameState)
        ensures
            next == self.step(feedback.is_win()),
    {
        match self {
            GameState::AwaitingGuess { attempt } => {
                if feedback.is_all_black() {
                    GameState::Won
                } else if attempt >= MAX_ATTEMPTS - 1 {
                    GameState::Exhausted
                } else {
                    GameState::AwaitingGuess { attempt: attempt + 1 }
                }
            },
            _ => self,
        }
    }
}

/// A step keeps a well-formed state well-formed, and uses up an attempt
/// unless the game was over already.
pub proof fn lemma_step_makes_progress(state: GameState, win: bool)
    requires
        state.wf(),
    ensures
        state.step(win).wf(),
        !state.is_over() ==> state.step(win).attempts_left() < state.attempts_left(),
        state.is_over() ==> state.step(win) == state,
{
}

/// How a fresh game stands after up to six guesses: won if any of them was
/// a win, exhausted after six without a win, and else waiting for the next.
pub proof fn lemma_fresh_game_outcome(wins: Seq<bool>)
    requires
        wins.len() <= MAX_ATTEMPTS,
    ensures
        (GameState::AwaitingGuess { attempt: 0 }).steps(wins) == if wins.contains(true) {
            GameState::Won
        } else if wins.len() == MAX_ATTEMPTS {
            GameState::Exhausted
        } else {
            GameState::AwaitingGuess { attempt: wins.len() as u8 }
        },
{
    lemma_outcome_from(0, wins);
}

/// A game that is over stays as it is, whatever is guessed afterwards.
pub proof fn lemma_over_stays_over(state: GameState, wins: Seq<bool>)
    requires
        state.is_over(),
    ensures
        state.steps(wins) == state,
    decreases wins.len(),
{
    if wins.len() > 0 {
        lemma_over_stays_over(state, wins.drop_first());
    }
}

proof fn lemma_outcome_from(attempt: u8, wins: Seq<bool>)
    requires
        attempt + wins.len() <= MAX_ATTEMPTS,
        attempt < MAX_ATTEMPTS,
    ensures
        (GameState::AwaitingGuess { attempt }).steps(wins) == if wins.contains(true) {
            GameState::Won
        } else if attempt + wins.len() == MAX_ATTEMPTS {
            GameState::Exhausted
        } else {
            GameState::AwaitingGuess { attempt: (attempt + wins.len()) as u8 }
        },
    decreases wins.len(),
{
    if wins.len() > 0 {
        let rest = wins.drop_first();
        assert(wins.contains(true) <==> wins[0] || rest.contains(true)) by {
            if rest.contains(true) {
                let k = choose|k: int| 0 <= k < rest.len() && rest[k];
                assert(wins[k + 1]);
            }
            if wins.contains(true) && !wins[0] {
                let k = choose|k: int| 0 <= k < wins.len() && wins[k];
                assert(rest[k - 1]);
            }
        }
        if wins[0] {
            lemma_over_stays_over(GameState::Won, rest);
        } else if attempt + 1 < MAX_ATTEMPTS {
            lemma_outcome_from((attempt + 1) as u8, rest);
        } else {
            lemma_over_stays_over(GameState::Exhausted, rest);
        }
    }
}

/// Plays one round of a game against `secret`: scores `answer`, shows the
/// feedback to `state_presenter` and advances the game.
///
/// The round is a win exactly when `answer` is the secret.
pub fn play_round<U: Visualizer>(
    state: GameState,
    answer: &FigureInput,
    secret: &FigureInput,
    state_presenter: &U,
    rng: &mut StdRng,
) -> (next: GameState)
    ensures
        next == state.step(answer@ == secret@),
{
    let comparison = answer.cmp(secret, rng);
    state_presenter.present_game_state(&comparison);
    state.advance(&comparison)
}

/// Plays one game against `secret`.
///
/// As long as the game is not over, `controller` is asked for a guess and
/// `play_round` plays it. What the outcome is depends on the guesses that
/// `controller` returns: `play_round` says how.
pub fn run_game<T: Prompter, U: Visualizer>(
    controller: &T,
    state_presenter: &U,
    secret: &FigureInput,
    rng: &mut StdRng,
) -> (outcome: GameState)
    ensures
        outcome.is_over(),
{
    let mut state = GameState::new();
    while !state.is_finished()
        invariant
            state.wf(),
        decreases state.attempts_left(),
    {
        let answer = controller.get_input("Your answer: ");
        state = play_round(state, &answer, secret, state_presenter, rng);
    }
    state
}

} // verus!
