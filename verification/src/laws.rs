//! General properties of a guessing session, stated over a whole run: every
//! processed attempt is answered by its three-way comparison, a win is
//! reported exactly once and on the first matching attempt, a loss comes
//! exactly when a full budget of attempts missed, and malformed lines never
//! change anything.

use vstd::prelude::*;

use crate::parse::parse_u32_spec;
use crate::session::Classification;
use crate::session::Phase;
use crate::session::Session;
use crate::session::classify_spec;
use crate::session::step_guess;
use crate::session::submit_spec;

verus! {

/// Running a session over a sequence of already parsed attempts. Each round
/// first checks the budget, losing when it is exhausted, and otherwise spends
/// the next attempt. The run stops at a terminal state or when the attempts
/// run out, and yields the final session together with the classification of
/// every attempt that was processed.
pub open spec fn play_log(s: Session, gs: Seq<u32>) -> (Session, Seq<Classification>)
    decreases gs.len(),
{
    if s.phase != Phase::AwaitingInput {
        (s, Seq::<Classification>::empty())
    } else if s.lives == 0 {
        (Session { phase: Phase::Lost, ..s }, Seq::<Classification>::empty())
    } else if gs.len() == 0 {
        (s, Seq::<Classification>::empty())
    } else {
        let rest = play_log(step_guess(s, gs.first()), gs.drop_first());
        (rest.0, seq![classify_spec(gs.first(), s.target)] + rest.1)
    }
}

/// The session that a run over `gs` ends in.
pub open spec fn play(s: Session, gs: Seq<u32>) -> Session {
    play_log(s, gs).0
}

/// The classifications reported during a run over `gs`, one per processed
/// attempt.
pub open spec fn play_replies(s: Session, gs: Seq<u32>) -> Seq<Classification> {
    play_log(s, gs).1
}

/// Feeding a session one line after another, exactly as `Session::submit`
/// does.
pub open spec fn submit_many(s: Session, lines: Seq<Seq<u8>>) -> Session
    decreases lines.len(),
{
    if lines.len() == 0 {
        s
    } else {
        submit_many(submit_spec(s, lines.first()).0, lines.drop_first())
    }
}

/// Running a session over raw lines of input, one full round per line: the
/// budget is checked first, losing when it is exhausted, and the line is then
/// submitted, so that a malformed line changes nothing and a parsed miss
/// spends one attempt.
pub open spec fn run_lines(s: Session, lines: Seq<Seq<u8>>) -> Session
    decreases lines.len(),
{
    if s.phase != Phase::AwaitingInput {
        s
    } else if s.lives == 0 {
        Session { phase: Phase::Lost, ..s }
    } else if lines.len() == 0 {
        s
    } else {
        run_lines(submit_spec(s, lines.first()).0, lines.drop_first())
    }
}

/// The attempts that successfully parse among a sequence of lines, in order.
pub open spec fn parsed_attempts(lines: Seq<Seq<u8>>) -> Seq<u32>
    decreases lines.len(),
{
    if lines.len() == 0 {
        Seq::<u32>::empty()
    } else {
        let rest = parsed_attempts(lines.drop_first());
        match parse_u32_spec(lines.first()) {
            Option::None => rest,
            Option::Some(g) => seq![g] + rest,
        }
    }
}

/// A run over raw lines is exactly a run over the attempts that parse among
/// them: malformed lines have no bearing on where a session ends.
pub proof fn lemma_run_lines_is_play_of_parsed(s: Session, lines: Seq<Seq<u8>>)
    ensures
        run_lines(s, lines) == play(s, parsed_attempts(lines)),
    decreases lines.len(),
{
    if s.phase != Phase::AwaitingInput || s.lives == 0 || lines.len() == 0 {
    } else {
        match parse_u32_spec(lines.first()) {
            Option::None => {
                lemma_run_lines_is_play_of_parsed(s, lines.drop_first());
            },
            Option::Some(g) => {
                let s1 = step_guess(s, g);
                lemma_run_lines_is_play_of_parsed(s1, lines.drop_first());
                let gs = parsed_attempts(lines);
                assert(gs.first() == g);
                assert(gs.drop_first() =~= parsed_attempts(lines.drop_first()));
            },
        }
    }
}

/// The session ends in a loss exactly when, among the lines it was fed, a
/// full budget's worth of successfully parsed attempts all missed the target.
pub proof fn lemma_lose_iff_parsed_misses_spend_budget(s: Session, lines: Seq<Seq<u8>>)
    requires
        s.phase == Phase::AwaitingInput,
    ensures
        run_lines(s, lines).phase == Phase::Lost <==> (parsed_attempts(lines).len() >= s.lives
            && (forall|i: int| 0 <= i < s.lives ==> parsed_attempts(lines)[i] != s.target)),
{
    lemma_run_lines_is_play_of_parsed(s, lines);
    lemma_lose_iff_budget_spent(s, parsed_attempts(lines));
}

/// Every attempt a session processes is answered by its three-way comparison
/// against the target: too small below it, too big above it, a win on it.
pub proof fn lemma_replies_match_comparison(s: Session, gs: Seq<u32>)
    requires
        s.phase == Phase::AwaitingInput,
    ensures
        play_replies(s, gs).len() <= gs.len(),
        forall|i: int|
            0 <= i < play_replies(s, gs).len() ==> play_replies(s, gs)[i] == classify_spec(
                gs[i],
                s.target,
            ),
    decreases gs.len(),
{
    if s.lives == 0 || gs.len() == 0 {
    } else {
        let g0 = gs.first();
        let s1 = step_guess(s, g0);
        let r = play_replies(s, gs);
        if g0 == s.target {
            assert(r =~= seq![Classification::Win]);
        } else {
            lemma_replies_match_comparison(s1, gs.drop_first());
            let r1 = play_replies(s1, gs.drop_first());
            assert forall|i: int| 0 <= i < r.len() implies r[i] == classify_spec(
                gs[i],
                s.target,
            ) by {
                if i >= 1 {
                    assert(r[i] == r1[i - 1]);
                    assert(gs.drop_first()[i - 1] == gs[i]);
                }
            }
        }
    }
}

/// A win is reported only as the last reply of a run, only on an attempt
/// equal to the target, and every attempt processed before it missed: a run
/// reports a win exactly once, on the first matching attempt.
pub proof fn lemma_win_only_on_first_match(s: Session, gs: Seq<u32>)
    requires
        s.phase == Phase::AwaitingInput,
    ensures
        play_replies(s, gs).len() <= gs.len(),
        forall|i: int|
            0 <= i < play_replies(s, gs).len() && play_replies(s, gs)[i] == Classification::Win
                ==> i == play_replies(s, gs).len() - 1 && gs[i] == s.target,
        forall|i: int| 0 <= i < play_replies(s, gs).len() - 1 ==> gs[i] != s.target,
    decreases gs.len(),
{
    if s.lives == 0 || gs.len() == 0 {
    } else {
        let g0 = gs.first();
        let s1 = step_guess(s, g0);
        let r = play_replies(s, gs);
        if g0 == s.target {
            assert(r =~= seq![Classification::Win]);
        } else {
            lemma_win_only_on_first_match(s1, gs.drop_first());
            let r1 = play_replies(s1, gs.drop_first());
            assert forall|i: int|
                0 <= i < r.len() && r[i] == Classification::Win implies i == r.len() - 1 && gs[i]
                == s.target by {
                assert(r[0] == classify_spec(g0, s.target));
                assert(i >= 1);
                assert(r[i] == r1[i - 1]);
                assert(gs.drop_first()[i - 1] == gs[i]);
            }
            assert forall|i: int| 0 <= i < r.len() - 1 implies gs[i] != s.target by {
                if i >= 1 {
                    assert(gs.drop_first()[i - 1] == gs[i]);
                }
            }
        }
    }
}

/// If the first attempt equal to the target comes while attempts remain, it
/// is processed, answered with a win, and ends the session in `Won`; a win
/// spends no attempt, so exactly the misses before it were spent.
pub proof fn lemma_first_match_wins(s: Session, gs: Seq<u32>, m: int)
    requires
        s.phase == Phase::AwaitingInput,
        0 <= m < gs.len(),
        m < s.lives,
        gs[m] == s.target,
        forall|j: int| 0 <= j < m ==> gs[j] != s.target,
    ensures
        play_replies(s, gs).len() == m + 1,
        play_replies(s, gs)[m] == Classification::Win,
        play(s, gs).phase == Phase::Won,
        play(s, gs).target == s.target,
        play(s, gs).lives == s.lives - m,
    decreases m,
{
    let g0 = gs.first();
    let s1 = step_guess(s, g0);
    if m == 0 {
        assert(play_replies(s, gs) =~= seq![Classification::Win]);
    } else {
        assert(gs.drop_first()[m - 1] == gs[m]);
        assert forall|j: int| 0 <= j < m - 1 implies gs.drop_first()[j] != s1.target by {
            assert(gs.drop_first()[j] == gs[j + 1]);
        }
        lemma_first_match_wins(s1, gs.drop_first(), m - 1);
        assert(play_replies(s, gs)[m] == play_replies(s1, gs.drop_first())[m - 1]);
    }
}

/// The session ends in a loss exactly when a full budget of attempts was
/// processed and none of them matched the target.
pub proof fn lemma_lose_iff_budget_spent(s: Session, gs: Seq<u32>)
    requires
        s.phase == Phase::AwaitingInput,
    ensures
        play(s, gs).phase == Phase::Lost <==> (gs.len() >= s.lives && (forall|i: int|
            0 <= i < s.lives ==> gs[i] != s.target)),
    decreases gs.len(),
{
    if s.lives == 0 || gs.len() == 0 {
    } else {
        let g0 = gs.first();
        let s1 = step_guess(s, g0);
        let gsp = gs.drop_first();
        if g0 == s.target {
            assert(play(s, gs).phase == Phase::Won);
            assert(!(forall|i: int| 0 <= i < s.lives ==> gs[i] != s.target)) by {
                assert(gs[0] == s.target);
            }
        } else {
            lemma_lose_iff_budget_spent(s1, gsp);
            if gsp.len() >= s1.lives && (forall|i: int| 0 <= i < s1.lives ==> gsp[i] != s1.target) {
                assert forall|i: int| 0 <= i < s.lives implies gs[i] != s.target by {
                    if i >= 1 {
                        assert(gsp[i - 1] == gs[i]);
                        assert(gsp[i - 1] != s1.target);
                    }
                }
            }
            if gs.len() >= s.lives && (forall|i: int| 0 <= i < s.lives ==> gs[i] != s.target) {
                assert forall|i: int| 0 <= i < s1.lives implies gsp[i] != s1.target by {
                    assert(gsp[i] == gs[i + 1]);
                    assert(gs[i + 1] != s.target);
                }
            }
        }
    }
}

/// Submitting malformed lines, any number of them, changes nothing: not the
/// target, not the attempts remaining, and a session awaiting input stays
/// awaiting input.
pub proof fn lemma_malformed_lines_change_nothing(s: Session, lines: Seq<Seq<u8>>)
    requires
        forall|i: int| 0 <= i < lines.len() ==> parse_u32_spec(#[trigger] lines[i]) is None,
    ensures
        submit_many(s, lines) == s,
    decreases lines.len(),
{
    if lines.len() > 0 {
        assert(parse_u32_spec(lines.first()) is None);
        assert(submit_spec(s, lines.first()).0 == s);
        assert forall|i: int|
            0 <= i < lines.drop_first().len() implies parse_u32_spec(
            #[trigger] lines.drop_first()[i],
        ) is None by {
            assert(lines.drop_first()[i] == lines[i + 1]);
        }
        lemma_malformed_lines_change_nothing(s, lines.drop_first());
    }
}

} // verus!
