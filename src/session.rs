use vstd::prelude::*;
use crate::difficulty::Difficulty;
use crate::guess_input::{guess_value, is_digit, is_white_space, lemma_non_numeric_text, read_guess};

verus! {

/// What a guess did, with what the caller needs to show it.
#[derive(Debug, Clone, Copy, PartialEq, Eq, Structural)]
pub enum GuessOutcome {
    /// The input was not a number; nothing changed.
    InvalidInput,
    /// The number was below the secret; one attempt was used.
    TooLow { guess: u32 },
    /// The number was above the secret; one attempt was used.
    TooHigh { guess: u32 },
    /// The number was the secret; the game is won.
    Correct { guess: u32 },
    /// The number was wrong and it was the last attempt; the game is lost.
    ExhaustedAttempts { guess: u32, secret: u32 },
    /// The game had already ended; nothing changed.
    AlreadyOver,
}

/// The state of a game as plain values.
pub struct GameView {
    pub secret: u32,
    pub remaining: u32,
    pub difficulty: Difficulty,
    pub over: bool,
}

impl GameView {
    /// The secret lies in the difficulty's range, no more attempts remain than
    /// the difficulty allows, and a game still running has one left.
    pub open spec fn valid(self) -> bool {
        &&& self.difficulty.low() <= self.secret <= self.difficulty.high()
        &&& self.remaining <= self.difficulty.max_attempts()
        &&& !self.over ==> self.remaining > 0
    }

    /// A game that has just begun with the given secret.
    pub open spec fn fresh(difficulty: Difficulty, secret: u32) -> GameView {
        GameView { secret, remaining: difficulty.max_attempts(), difficulty, over: false }
    }
}

/// The outcome of guessing the number `n` in the running game `g`, and the
/// game after it: one attempt is used; a hit wins, even on the last attempt;
/// a miss on the last attempt loses.
pub open spec fn judge_number(g: GameView, n: u32) -> (GuessOutcome, GameView) {
    let left = (g.remaining - 1) as u32;
    if n == g.secret {
        (GuessOutcome::Correct { guess: n }, GameView { remaining: left, over: true, ..g })
    } else if left == 0 {
        (
            GuessOutcome::ExhaustedAttempts { guess: n, secret: g.secret },
            GameView { remaining: left, over: true, ..g },
        )
    } else if n < g.secret {
        (GuessOutcome::TooLow { guess: n }, GameView { remaining: left, ..g })
    } else {
        (GuessOutcome::TooHigh { guess: n }, GameView { remaining: left, ..g })
    }
}

/// The outcome of the typed guess `input` in game `g`, and the game after it.
pub open spec fn judge(g: GameView, input: Seq<char>) -> (GuessOutcome, GameView) {
    if g.over {
        (GuessOutcome::AlreadyOver, g)
    } else {
        match guess_value(input) {
            None => (GuessOutcome::InvalidInput, g),
            Some(n) => judge_number(g, n),
        }
    }
}

/// Relies on rand's `thread_rng` and `Rng::gen_range`: on a non-empty
/// inclusive range it returns a value inside it (it panics only on an empty
/// one).
#[verifier::external_body]
fn draw_secret(range: std::ops::RangeInclusive<u32>) -> (r: u32)
    requires
        range@.start <= range@.end,
        !range@.exhausted,
    ensures
        range@.start <= r <= range@.end,
{
    rand::Rng::gen_range(&mut rand::thread_rng(), range)
}

/// One game: the secret, the attempts left, the difficulty, and whether the
/// game has ended.
pub struct GameState {
    secret_number: u32,
    remaining_attempts: u32,
    difficulty: Difficulty,
    game_over: bool,
}

impl View for GameState {
    type V = GameView;

    closed spec fn view(&self) -> GameView {
        GameView {
            secret: self.secret_number,
            remaining: self.remaining_attempts,
            difficulty: self.difficulty,
            over: self.game_over,
        }
    }
}

impl GameState {
    #[verifier::type_invariant]
    spec fn inv(self) -> bool {
        self@.valid()
    }

    /// Begins a game at `difficulty` with a secret drawn at random from its
    /// range.
    pub fn new(difficulty: Difficulty) -> (r: GameState)
        ensures
            r@ == GameView::fresh(difficulty, r@.secret),
            difficulty.low() <= r@.secret <= difficulty.high(),
    {
        let secret_number = draw_secret(difficulty.range());
        GameState {
            secret_number,
            remaining_attempts: difficulty.attempts(),
            difficulty,
            game_over: false,
        }
    }

    /// Begins a game at `difficulty` with the given secret; `None` where the
    /// secret lies outside the difficulty's range.
    pub fn with_secret(difficulty: Difficulty, secret: u32) -> (r: Option<GameState>)
        ensures
            r is Some <==> difficulty.low() <= secret <= difficulty.high(),
            r matches Some(g) ==> g@ == GameView::fresh(difficulty, secret),
    {
        let range = difficulty.range();
        if !range.contains(&secret) {
            return None;
        }
        Some(
            GameState {
                secret_number: secret,
                remaining_attempts: difficulty.attempts(),
                difficulty,
                game_over: false,
            },
        )
    }

    /// The secret number.
    pub fn secret(&self) -> (r: u32)
        ensures
            r == self@.secret,
    {
        self.secret_number
    }

    /// How many guesses are left.
    pub fn remaining_attempts(&self) -> (r: u32)
        ensures
            r == self@.remaining,
    {
        self.remaining_attempts
    }

    /// The difficulty the game was begun at.
    pub fn difficulty(&self) -> (r: Difficulty)
        ensures
            r == self@.difficulty,
    {
        self.difficulty
    }

    /// Whether the game has been won or lost.
    pub fn is_over(&self) -> (r: bool)
        ensures
            r == self@.over,
    {
        self.game_over
    }

    /// Judges the typed guess `input` (see `judge`).
    pub fn guess(&mut self, input: &str) -> (r: GuessOutcome)
        ensures
            (r, final(self)@) == judge(old(self)@, input@),
            old(self)@.valid(),
            final(self)@.valid(),
    {
        proof {
            use_type_invariant(&*self);
        }
        if self.game_over {
            return GuessOutcome::AlreadyOver;
        }
        let n = match read_guess(input) {
            None => return GuessOutcome::InvalidInput,
            Some(n) => n,
        };
        let left = self.remaining_attempts - 1;
        let secret = self.secret_number;
        let (outcome, over) = if n == secret {
            (GuessOutcome::Correct { guess: n }, true)
        } else if left == 0 {
            (GuessOutcome::ExhaustedAttempts { guess: n, secret }, true)
        } else if n < secret {
            (GuessOutcome::TooLow { guess: n }, false)
        } else {
            (GuessOutcome::TooHigh { guess: n }, false)
        };
        *self = GameState {
            secret_number: secret,
            remaining_attempts: left,
            difficulty: self.difficulty,
            game_over: over,
        };
        outcome
    }
}

/// Once a game has ended, every guess reports `AlreadyOver` and changes
/// nothing: not the attempts left, not the secret.
pub proof fn lemma_guess_after_end(g: GameView, input: Seq<char>)
    requires
        g.over,
    ensures
        judge(g, input) == (GuessOutcome::AlreadyOver, g),
{
}

/// In a running game, input that is not a number reports `InvalidInput` and
/// leaves the game, its attempts included, as it was.
pub proof fn lemma_invalid_input_keeps_game(g: GameView, input: Seq<char>)
    requires
        !g.over,
        guess_value(input) is None,
    ensures
        judge(g, input) == (GuessOutcome::InvalidInput, g),
{
}

/// In a running game, text with no digit, or with a character that is neither
/// a digit, `+` nor white space (`"abc"`, `""`, `"-5"`, `"3.5"`, `" "`),
/// reports `InvalidInput` and leaves the game as it was.
pub proof fn lemma_non_numeric_input_keeps_game(g: GameView, input: Seq<char>)
    requires
        !g.over,
        (forall|i: int| 0 <= i < input.len() ==> !is_digit(#[trigger] input[i])) || (exists|k: int|
            0 <= k < input.len() && !is_digit(#[trigger] input[k]) && input[k] != '+'
                && !is_white_space(input[k])),
    ensures
        judge(g, input) == (GuessOutcome::InvalidInput, g),
{
    lemma_non_numeric_text(input);
}

/// A number uses exactly one attempt of a running game.
pub proof fn lemma_number_uses_one_attempt(g: GameView, input: Seq<char>)
    requires
        g.valid(),
        !g.over,
        guess_value(input) is Some,
    ensures
        judge(g, input).1.remaining == g.remaining - 1,
        judge(g, input).1.secret == g.secret,
        judge(g, input).1.difficulty == g.difficulty,
{
}

/// With one attempt left, a wrong number loses the game and reveals the
/// secret.
pub proof fn lemma_last_miss_loses(g: GameView, input: Seq<char>)
    requires
        !g.over,
        g.remaining == 1,
        guess_value(input) is Some,
        guess_value(input)->0 != g.secret,
    ensures
        judge(g, input) == (
            GuessOutcome::ExhaustedAttempts { guess: guess_value(input)->0, secret: g.secret },
            GameView { remaining: 0, over: true, ..g },
        ),
{
}

/// The secret itself wins, however many attempts are left, the last one
/// included.
pub proof fn lemma_secret_wins(g: GameView, input: Seq<char>)
    requires
        g.valid(),
        !g.over,
        guess_value(input) == Some(g.secret),
    ensures
        judge(g, input) == (
            GuessOutcome::Correct { guess: g.secret },
            GameView { remaining: (g.remaining - 1) as u32, over: true, ..g },
        ),
{
}

/// Every guess keeps a game valid.
pub proof fn lemma_judge_keeps_valid(g: GameView, input: Seq<char>)
    requires
        g.valid(),
    ensures
        judge(g, input).1.valid(),
{
}

} // verus!
