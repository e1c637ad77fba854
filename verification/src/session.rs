//! One guessing session: a hidden target value, a budget of remaining
//! attempts, and one round per line of input. A round either recovers from a
//! malformed line with no state change, or classifies the parsed attempt
//! against the target and spends one attempt on a miss. The session ends in
//! exactly two ways: a win on an exact match, or a loss once the budget is
//! exhausted.

use vstd::prelude::*;

use crate::parse::parse_u32;
use crate::parse::parse_u32_spec;

verus! {

/// Three-way comparison of a guess against the target.
#[derive(Clone, Copy, Debug, PartialEq, Eq, Structural)]
pub enum Classification {
    TooSmall,
    TooBig,
    Win,
}

/// What classifying `guess` against `target` yields.
pub open spec fn classify_spec(guess: u32, target: u32) -> Classification {
    if guess < target {
        Classification::TooSmall
    } else if guess > target {
        Classification::TooBig
    } else {
        Classification::Win
    }
}

/// Classify a guess against the target by three-way comparison.
pub fn classify(guess: u32, target: u32) -> (c: Classification)
    ensures
        c == classify_spec(guess, target),
{
    if guess < target {
        Classification::TooSmall
    } else if guess > target {
        Classification::TooBig
    } else {
        Classification::Win
    }
}

/// Where a session stands: still accepting input, or in one of the two
/// terminal states.
#[derive(Clone, Copy, Debug, PartialEq, Eq, Structural)]
pub enum Phase {
    AwaitingInput,
    Won,
    Lost,
}

/// What the start of a round announces: either a prompt with the number of
/// attempts left, or the loss that ends the session, disclosing the target.
#[derive(Clone, Copy, Debug, PartialEq, Eq, Structural)]
pub enum Prompt {
    Ask(u32),
    Lose(u32),
}

/// What submitting one line yields: recovery from a malformed line, or the
/// parsed attempt together with its classification.
#[derive(Clone, Copy, Debug, PartialEq, Eq, Structural)]
pub enum Reply {
    Malformed,
    Guessed(u32, Classification),
}

/// One guessing session: the hidden target, the attempts still available,
/// and where the session stands.
#[derive(Clone, Copy, Debug, PartialEq, Eq, Structural)]
pub struct Session {
    pub target: u32,
    pub lives: u32,
    pub phase: Phase,
}

/// The session a fresh start yields: the given target and budget, awaiting
/// its first input.
pub open spec fn new_session(target: u32, lives: u32) -> Session {
    Session { target, lives, phase: Phase::AwaitingInput }
}

/// How one successfully parsed attempt moves the session on: a match wins
/// without spending an attempt; a miss spends exactly one.
pub open spec fn step_guess(s: Session, guess: u32) -> Session {
    if guess == s.target {
        Session { phase: Phase::Won, ..s }
    } else {
        Session { lives: (s.lives - 1) as u32, ..s }
    }
}

/// What the start of a round does: with no attempt left the session is lost
/// and the target disclosed; otherwise it prompts with the attempts left.
pub open spec fn begin_round_spec(s: Session) -> (Session, Prompt) {
    if s.lives == 0 {
        (Session { phase: Phase::Lost, ..s }, Prompt::Lose(s.target))
    } else {
        (s, Prompt::Ask(s.lives))
    }
}

/// What submitting one line does: a line that does not parse changes nothing;
/// a parsed attempt is classified and moves the session on.
pub open spec fn submit_spec(s: Session, line: Seq<u8>) -> (Session, Reply) {
    match parse_u32_spec(line) {
        Option::None => (s, Reply::Malformed),
        Option::Some(g) => (step_guess(s, g), Reply::Guessed(g, classify_spec(g, s.target))),
    }
}

/// Relies on rand::random_range: a value drawn uniformly from the given
/// range; it panics only on an empty range, which the precondition rules out.
#[verifier::external_body]
fn draw_in_range(lo: u32, hi: u32) -> (r: u32)
    requires
        lo <= hi,
    ensures
        lo <= r <= hi,
{
    rand::random_range(lo..=hi)
}

impl Session {
    /// Open a session on a known target with the given budget of attempts.
    pub fn new(target: u32, lives: u32) -> (s: Session)
        ensures
            s == new_session(target, lives),
    {
        Session { target, lives, phase: Phase::AwaitingInput }
    }

    /// Open a session whose target is drawn uniformly at random from the
    /// closed range `[lo, hi]`, with the given budget of attempts.
    pub fn start(lo: u32, hi: u32, lives: u32) -> (s: Session)
        requires
            lo <= hi,
        ensures
            lo <= s.target <= hi,
            s.lives == lives,
            s.phase == Phase::AwaitingInput,
    {
        let target = draw_in_range(lo, hi);
        Session { target, lives, phase: Phase::AwaitingInput }
    }

    /// Start a round: report the loss if the budget is exhausted, else prompt
    /// with the attempts left. The target never changes.
    pub fn begin_round(&mut self) -> (p: Prompt)
        requires
            old(self).phase == Phase::AwaitingInput,
        ensures
            (*final(self), p) == begin_round_spec(*old(self)),
            final(self).target == old(self).target,
            final(self).lives == old(self).lives,
            old(self).lives == 0 ==> p == Prompt::Lose(final(self).target) && final(self).phase
                == Phase::Lost,
            old(self).lives > 0 ==> p == Prompt::Ask(final(self).lives)
                && *final(self) == *old(self),
    {
        if self.lives == 0 {
            self.phase = Phase::Lost;
            Prompt::Lose(self.target)
        } else {
            Prompt::Ask(self.lives)
        }
    }

    /// Submit one line of input. A malformed line is recovered from with no
    /// state change at all; a parsed attempt is echoed back with its
    /// classification, and a miss spends exactly one attempt. A win keeps
    /// the remaining budget; only a match ends the round in a win.
    pub fn submit(&mut self, line: &[u8]) -> (r: Reply)
        requires
            old(self).phase == Phase::AwaitingInput,
            old(self).lives > 0,
        ensures
            (*final(self), r) == submit_spec(*old(self), line@),
            final(self).target == old(self).target,
            parse_u32_spec(line@) is None ==> r == Reply::Malformed && *final(self) == *old(self),
            forall|g: u32|
                parse_u32_spec(line@) == Option::Some(g) ==> r == Reply::Guessed(
                    g,
                    classify_spec(g, old(self).target),
                ) && *final(self) == step_guess(*old(self), g),
            final(self).phase == Phase::Won <==> (parse_u32_spec(line@) matches Option::Some(g)
                && g == old(self).target),
    {
        match parse_u32(line) {
            Option::None => Reply::Malformed,
            Option::Some(g) => {
                let c = classify(g, self.target);
                if g == self.target {
                    self.phase = Phase::Won;
                } else {
                    self.lives = self.lives - 1;
                }
                Reply::Guessed(g, c)
            },
        }
    }

    /// Submit an already parsed attempt: the seam for a caller that obtains
    /// attempts otherwise than from lines of text.
    pub fn apply_guess(&mut self, guess: u32) -> (c: Classification)
        requires
            old(self).phase == Phase::AwaitingInput,
            old(self).lives > 0,
        ensures
            c == classify_spec(guess, old(self).target),
            *final(self) == step_guess(*old(self), guess),
            final(self).target == old(self).target,
            guess == old(self).target ==> final(self).phase == Phase::Won && final(self).lives
                == old(self).lives,
            guess != old(self).target ==> final(self).phase == Phase::AwaitingInput
                && final(self).lives == old(self).lives - 1,
    {
        let c = classify(guess, self.target);
        if guess == self.target {
            self.phase = Phase::Won;
        } else {
            self.lives = self.lives - 1;
        }
        c
    }

    /// Whether the session has reached one of its two terminal states.
    pub fn is_over(&self) -> (r: bool)
        ensures
            r == (self.phase != Phase::AwaitingInput),
    {
        match self.phase {
            Phase::AwaitingInput => false,
            Phase::Won => true,
            Phase::Lost => true,
        }
    }
}

} // verus!
