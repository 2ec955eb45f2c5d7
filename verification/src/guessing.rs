//! A guessing game: a secret number from 1 to 100, and what to say to a
//! guess.

use vstd::prelude::*;
use rand::Rng;

verus! {

/// The lowest number that the secret can be.
pub const LOWEST: u32 = 1;

/// The highest number that the secret can be.
pub const HIGHEST: u32 = 100;

/// How a guess stands to the secret.
#[derive(Debug, Clone, Copy, PartialEq, Eq)]
pub enum Verdict {
    /// The guess is below the secret.
    TooSmall,
    /// The guess is above the secret.
    TooBig,
    /// The guess is the secret.
    Win,
}

/// How `guess` stands to `secret`.
pub open spec fn verdict_of(guess: u32, secret: u32) -> Verdict {
    if guess < secret {
        Verdict::TooSmall
    } else if guess > secret {
        Verdict::TooBig
    } else {
        Verdict::Win
    }
}

/// What the game says for `verdict`.
pub open spec fn verdict_text(verdict: Verdict) -> Seq<char> {
    match verdict {
        Verdict::TooSmall => "Too small!"@,
        Verdict::TooBig => "Too big!"@,
        Verdict::Win => "You win!"@,
    }
}

impl Verdict {
    /// What the game says for this verdict.
    pub fn message(&self) -> (text: &'static str)
        ensures
            text@ == verdict_text(*self),
    {
        match self {
            Verdict::TooSmall => "Too small!",
            Verdict::TooBig => "Too big!",
            Verdict::Win => "You win!",
        }
    }
}

/// How `guess` stands to `secret`.
pub fn judge(guess: u32, secret: u32) -> (verdict: Verdict)
    ensures
        verdict == verdict_of(guess, secret),
{
    if guess < secret {
        Verdict::TooSmall
    } else if guess > secret {
        Verdict::TooBig
    } else {
        Verdict::Win
    }
}

/// A number drawn at random from `low` up to, and without, `high`.
///
/// Calls `rand::thread_rng` for the generator of this thread, which the
/// system seeds, and `rand::Rng::gen_range` on it. Trusted: `gen_range`
/// returns a value of the half-open range and panics where the range is
/// empty, which `requires` rules out. Which value comes is not stated: two
/// calls may differ. Where the system cannot seed the generator,
/// `thread_rng` panics; no argument of this function decides that.
#[verifier::external_body]
fn random_in(low: u32, high: u32) -> (drawn: u32)
    requires
        low < high,
    ensures
        low <= drawn < high,
{
    rand::thread_rng().gen_range(low, high)
}

/// A secret for one game, drawn at random: some number from [`LOWEST`] to
/// [`HIGHEST`].
pub fn pick_secret() -> (secret: u32)
    ensures
        LOWEST <= secret <= HIGHEST,
{
    random_in(LOWEST, HIGHEST + 1)
}

} // verus!
