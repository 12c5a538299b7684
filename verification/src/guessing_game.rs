//! A game in which a secret number between 1 and 100 is to be guessed.

use crate::numbers::read_number;
use crate::numbers::read_number_spec;
use rand::rngs::ThreadRng;
use rand::Rng;
use vstd::prelude::*;

verus! {

/// The smallest number that can be the secret.
pub const LOWEST: u32 = 1;

/// The largest number that can be the secret.
pub const HIGHEST: u32 = 100;

/// The random number generator of the current thread, `rand`'s `ThreadRng`.
/// Nothing is known of what it holds.
#[verifier::external_type_specification]
#[verifier::external_body]
pub struct ExThreadRng(ThreadRng);

/// `rand::thread_rng` hands out the generator of the current thread, which
/// the operating system seeds; it panics where the system gives no seed.
/// Nothing is claimed of the generator.
pub assume_specification[ rand::thread_rng ]() -> (rng: ThreadRng);

/// `Rng::gen_range` on an inclusive range of `u32`. Whatever number comes
/// out lies in the range; which one it is depends on chance. The range
/// must not be empty, or the call panics. The call also panics where the
/// generator is due for a new seed and the operating system gives none;
/// no precondition can leave that out.
#[verifier::external_body]
fn gen_range_inclusive(rng: &mut ThreadRng, low: u32, high: u32) -> (n: u32)
    requires
        low <= high,
    ensures
        low <= n <= high,
{
    rng.gen_range(low..=high)
}

/// How a guess compares with the secret.
#[derive(Debug, Clone, Copy, PartialEq, Eq, Structural)]
pub enum Verdict {
    /// The guess is below the secret.
    TooSmall,
    /// The guess is above the secret.
    TooLarge,
    /// The guess is the secret.
    Win,
}

/// How `guess` compares with `secret`.
pub open spec fn judge_spec(guess: int, secret: int) -> Verdict {
    if guess < secret {
        Verdict::TooSmall
    } else if guess > secret {
        Verdict::TooLarge
    } else {
        Verdict::Win
    }
}

/// What a line that the player typed leads to.
#[derive(Debug, Clone, Copy, PartialEq, Eq, Structural)]
pub enum Turn {
    /// The line writes no number: it is passed over, and the player is
    /// asked again.
    Ignored,
    /// The line writes this guess, which compares with the secret so.
    Guessed(u32, Verdict),
}

/// A game, with its secret.
pub struct Game {
    secret: u32,
}

impl Game {
    /// The secret of the game.
    pub closed spec fn secret(&self) -> int {
        self.secret as int
    }

    #[verifier::type_invariant]
    spec fn secret_in_range(&self) -> bool {
        LOWEST <= self.secret <= HIGHEST
    }

    /// A game whose secret is drawn at random between 1 and 100.
    pub fn new() -> (game: Game)
        ensures
            LOWEST <= game.secret() <= HIGHEST,
    {
        let mut rng = rand::thread_rng();
        let secret = gen_range_inclusive(&mut rng, LOWEST, HIGHEST);
        Game::with_secret(secret)
    }

    /// The game whose secret is `secret`, a number between 1 and 100.
    pub fn with_secret(secret: u32) -> (game: Game)
        requires
            LOWEST <= secret <= HIGHEST,
        ensures
            game.secret() == secret,
    {
        Game { secret }
    }

    /// How `guess` compares with the secret.
    pub fn judge(&self, guess: u32) -> (verdict: Verdict)
        ensures
            verdict == judge_spec(guess as int, self.secret()),
    {
        if guess < self.secret {
            Verdict::TooSmall
        } else if guess > self.secret {
            Verdict::TooLarge
        } else {
            Verdict::Win
        }
    }
}

impl Game {
    /// What the line `line` leads to: the number between the white space
    /// around it is the guess, and a line that writes no number is passed
    /// over.
    pub fn turn(&self, line: &str) -> (turn: Turn)
        ensures
            turn == match read_number_spec(line@) {
                None => Turn::Ignored,
                Some(guess) => Turn::Guessed(guess, judge_spec(guess as int, self.secret())),
            },
    {
        match read_number(line) {
            None => Turn::Ignored,
            Some(guess) => Turn::Guessed(guess, self.judge(guess)),
        }
    }
}

impl Verdict {
    /// What the player is told.
    pub open spec fn message_spec(self) -> Seq<char> {
        match self {
            Verdict::TooSmall => "Too Small"@,
            Verdict::TooLarge => "Too Large"@,
            Verdict::Win => "You Win!"@,
        }
    }

    /// What the player is told.
    pub fn message(self) -> (text: &'static str)
        ensures
            text@ == self.message_spec(),
    {
        match self {
            Verdict::TooSmall => "Too Small",
            Verdict::TooLarge => "Too Large",
            Verdict::Win => "You Win!",
        }
    }

    /// Whether the game is over.
    pub fn is_win(self) -> (won: bool)
        ensures
            won == (self == Verdict::Win),
    {
        match self {
            Verdict::Win => true,
            _ => false,
        }
    }
}

} // verus!
