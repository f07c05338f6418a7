//! Rounds of polling, and the cursor that each of them begins with.

use crate::delivery::{
    carried_out, closing, ending, failure, failures_end_the_delivery, first_of, outcome_value,
    prints, script, stage_of, warnings, ActionValue, DeliveryAction, DeliveryStepValue,
};
use crate::json::Value;
use crate::poller::{
    cursor_moves_past_printed_events_only, delivered, failed_poll_report, failed_poll_text,
    next_round, run, Cursor, CursorValue, Delivered, Next, Round,
};
use vstd::prelude::*;

verus! {

/// The state between two rounds.
pub struct PollLoop {
    cursor: Cursor,
    once: bool,
}

/// The mathematical counterpart of [`PollLoop`].
pub struct LoopValue {
    /// The cursor that the next poll asks with.
    pub cursor: CursorValue,
    /// Whether there is one round only.
    pub once: bool,
}

impl View for PollLoop {
    type V = LoopValue;

    closed spec fn view(&self) -> LoopValue {
        LoopValue { cursor: self.cursor@, once: self.once }
    }
}

/// The cursor after an action of a delivery: the one that was kept, if one
/// was.
pub open spec fn moved(
    cursor: CursorValue,
    action: ActionValue,
    result: Result<(), Seq<char>>,
) -> CursorValue {
    match (action, result) {
        (ActionValue::Keep(next), Ok(())) => next,
        _ => cursor,
    }
}

impl PollLoop {
    /// Begins with a cursor.
    pub fn new(cursor: Cursor, once: bool) -> (r: PollLoop)
        ensures
            r@ == (LoopValue { cursor: cursor@, once }),
    {
        PollLoop { cursor, once }
    }

    /// The cursor to poll with.
    pub fn cursor(&self) -> (r: &Cursor)
        ensures
            r@ == self@.cursor,
    {
        &self.cursor
    }

    /// Takes in how an action of a delivery went.
    pub fn note(self, action: DeliveryAction, result: &Result<(), String>) -> (r: PollLoop)
        ensures
            r@ == (LoopValue {
                cursor: moved(self@.cursor, action@, outcome_value(*result)),
                ..self@
            }),
    {
        match action {
            DeliveryAction::Keep(next) => match result {
                Ok(()) => PollLoop { cursor: next, once: self.once },
                Err(_) => self,
            },
            _ => self,
        }
    }

    /// Takes in a poll that failed: the cursor stays, and there is a report.
    pub fn poll_failed(self, error: String) -> (r: (PollLoop, String, Next))
        ensures
            r.0@ == self@,
            r.1@ == failed_poll_text(error@),
            r.2 == next_round(Round::Failed(error), self@.once),
    {
        let report = failed_poll_report(error.as_str());
        let next = run(Round::Failed(error), self.once);
        (self, report, next)
    }

    /// Takes in what a delivery came to.
    pub fn round_delivered(self, outcome: Result<(), String>) -> (r: (PollLoop, Next))
        ensures
            r.0@ == self@,
            r.1 == next_round(Round::Delivered(outcome), self@.once),
    {
        let next = run(Round::Delivered(outcome), self.once);
        (self, next)
    }
}

/// The cursor after a number of actions that went as the results say.
pub open spec fn moved_by(
    cursor: CursorValue,
    acts: Seq<ActionValue>,
    results: Seq<Result<(), Seq<char>>>,
) -> CursorValue
    decreases acts.len(),
{
    if acts.len() == 0 {
        cursor
    } else {
        moved(
            moved_by(cursor, acts.drop_last(), results),
            acts.last(),
            results[acts.len() - 1],
        )
    }
}

/// One round of polling.
pub enum RoundValue {
    /// The poll failed.
    Failed,
    /// This was answered, and the actions of its delivery went so.
    Answered(Value, Seq<Result<(), Seq<char>>>),
}

/// The cursor after a round.
pub open spec fn cursor_after(cursor: CursorValue, round: RoundValue) -> CursorValue {
    match round {
        RoundValue::Failed => cursor,
        RoundValue::Answered(message, results) => {
            let d = delivered(message);
            moved_by(cursor, carried_out(first_of(script(d), ending(d)), results).0, results)
        },
    }
}

/// Whether a round was an answer that was delivered to its end: its events
/// were printed and its cursor was kept.
pub open spec fn completed(round: RoundValue) -> bool {
    match round {
        RoundValue::Failed => false,
        RoundValue::Answered(message, results) => {
            let d = delivered(message);
            carried_out(first_of(script(d), ending(d)), results).1 == DeliveryStepValue::Done(
                Ok(()),
            )
        },
    }
}

/// The cursor after a number of rounds.
pub open spec fn cursor_after_all(cursor: CursorValue, rounds: Seq<RoundValue>) -> CursorValue
    decreases rounds.len(),
{
    if rounds.len() == 0 {
        cursor
    } else {
        cursor_after(cursor_after_all(cursor, rounds.drop_last()), rounds.last())
    }
}

/// Actions that keep no cursor leave it.
proof fn lemma_not_moved(
    cursor: CursorValue,
    acts: Seq<ActionValue>,
    results: Seq<Result<(), Seq<char>>>,
)
    requires
        forall|i: int| 0 <= i < acts.len() ==> !(#[trigger] acts[i] is Keep) || results[i] is Err,
    ensures
        moved_by(cursor, acts, results) == cursor,
    decreases acts.len(),
{
    if acts.len() > 0 {
        let front = acts.drop_last();
        assert forall|i: int| 0 <= i < front.len() implies !(#[trigger] front[i] is Keep)
            || results[i] is Err by {
            assert(front[i] == acts[i]);
        }
        lemma_not_moved(cursor, front, results);
        assert(!(acts[acts.len() - 1] is Keep) || results[acts.len() - 1] is Err);
    }
}

/// The script of an answer with a cursor ends with keeping it, and keeps
/// none before.
proof fn lemma_one_keep(d: Delivered)
    ensures
        forall|i: int|
            0 <= i < script(d).len() && #[trigger] script(d)[i] is Keep ==> d.outcome is Ok && i
                == script(d).len() - 1,
        d.outcome matches Ok(cursor) ==> script(d).len() > 0 && script(d).last()
            == ActionValue::Keep(cursor),
{
    let w = warnings(d);
    let p = prints(d.lines);
    let c = closing(d.outcome);
    assert forall|i: int|
        0 <= i < script(d).len() && #[trigger] script(d)[i] is Keep implies d.outcome is Ok && i
        == script(d).len() - 1 by {
        if i < w.len() {
            assert(script(d)[i] == w[i]);
        } else if i < w.len() + p.len() {
            assert(script(d)[i] == p[i - w.len()]);
        } else {
            assert(script(d)[i] == c[i - w.len() - p.len()]);
        }
    }
    if d.outcome is Ok {
        assert(script(d).last() == c.last());
    }
}

/// The cursor that the answer of a round gives.
pub open spec fn answered_cursor(round: RoundValue) -> CursorValue {
    let message = round->Answered_0;
    CursorValue {
        epoch: message.text_field("epoch"@)->0,
        after: message.integer_field("next"@)->0,
    }
}

/// A round that was delivered to its end moves the cursor to the one in the
/// answer; any other round leaves it. In particular a failed poll is tried
/// again with the same cursor, and nothing that was not printed is skipped.
pub proof fn a_round_moves_the_cursor_or_leaves_it(cursor: CursorValue, round: RoundValue)
    ensures
        cursor_after(cursor, round) == (if completed(round) {
            answered_cursor(round)
        } else {
            cursor
        }),
{
    if let RoundValue::Answered(message, results) = round {
        let d = delivered(message);
        let (acts, last) = carried_out(first_of(script(d), ending(d)), results);
        let n = acts.len() as int;
        failures_end_the_delivery(d, results);
        lemma_one_keep(d);
        cursor_moves_past_printed_events_only(message);
        if completed(round) {
            assert(acts == script(d) && d.outcome is Ok);
            if results[n - 1] is Err {
                assert(last == failure(stage_of(acts[n - 1]), results[n - 1]->Err_0));
            }
        } else {
            assert forall|i: int| 0 <= i < n implies !(#[trigger] acts[i] is Keep)
                || results[i] is Err by {
                assert(acts[i] == script(d)[i]);
                if acts[i] is Keep && results[i] is Ok {
                    assert(n == script(d).len() && i == n - 1);
                    assert forall|k: int| 0 <= k < n implies #[trigger] results[k] is Ok by {}
                    assert(last == DeliveryStepValue::Done(ending(d)));
                }
            }
            lemma_not_moved(cursor, acts, results);
        }
    }
}

/// The cursor of the last round that was delivered to its end, or the one at
/// the beginning where there was none.
pub open spec fn last_kept(cursor: CursorValue, rounds: Seq<RoundValue>) -> CursorValue
    decreases rounds.len(),
{
    if rounds.len() == 0 {
        cursor
    } else if completed(rounds.last()) {
        answered_cursor(rounds.last())
    } else {
        last_kept(cursor, rounds.drop_last())
    }
}

/// Every poll asks with the last cursor that was kept.
pub proof fn polls_resume_behind_the_last_delivery(cursor: CursorValue, rounds: Seq<RoundValue>)
    ensures
        cursor_after_all(cursor, rounds) == last_kept(cursor, rounds),
    decreases rounds.len(),
{
    if rounds.len() > 0 {
        let front = rounds.drop_last();
        polls_resume_behind_the_last_delivery(cursor, front);
        a_round_moves_the_cursor_or_leaves_it(cursor_after_all(cursor, front), rounds.last());
    }
}

} // verus!
