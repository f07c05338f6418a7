//! Delivering an answer of the relay, one action after the other.
//!
//! Events are printed, then the output is flushed, and only then is the
//! cursor kept. Where one of these fails, nothing that comes after it is
//! done, so an event that may not have been delivered comes again.

use crate::json::{item_values, Json, Value};
use crate::poller::{
    cursor_moves_past_printed_events_only, delivered, with_epoch, Cursor, CursorValue, Delivered,
    Delivery,
};
use std::collections::VecDeque;
use vstd::prelude::*;

verus! {

/// One action of a delivery.
pub enum DeliveryAction {
    /// Report this on the error output.
    Warn(String),
    /// Print this value on a line of its own.
    Print(Json),
    /// Flush the output.
    Flush,
    /// Keep this cursor.
    Keep(Cursor),
}

/// The mathematical counterpart of [`DeliveryAction`].
pub enum ActionValue {
    Warn(Seq<char>),
    Print(Value),
    Flush,
    Keep(CursorValue),
}

impl View for DeliveryAction {
    type V = ActionValue;

    open spec fn view(&self) -> ActionValue {
        match self {
            DeliveryAction::Warn(message) => ActionValue::Warn(message@),
            DeliveryAction::Print(line) => ActionValue::Print(line@),
            DeliveryAction::Flush => ActionValue::Flush,
            DeliveryAction::Keep(cursor) => ActionValue::Keep(cursor@),
        }
    }
}

/// The views of a list of actions.
pub open spec fn action_values(actions: Seq<DeliveryAction>) -> Seq<ActionValue> {
    actions.map_values(|a: DeliveryAction| a@)
}

/// What is being done.
#[derive(Debug, PartialEq, Eq, Clone, Copy)]
pub enum Stage {
    /// A warning or an event is being written.
    Write,
    /// The output is being flushed.
    Flush,
    /// The cursor is being kept.
    Keep,
}

/// What an action is about.
pub open spec fn stage_of(action: ActionValue) -> Stage {
    match action {
        ActionValue::Warn(_) => Stage::Write,
        ActionValue::Print(_) => Stage::Write,
        ActionValue::Flush => Stage::Flush,
        ActionValue::Keep(_) => Stage::Keep,
    }
}

/// A delivery with an action under way.
pub struct DeliveryTask {
    stage: Stage,
    pending: VecDeque<DeliveryAction>,
    outcome: Result<(), String>,
}

/// The mathematical counterpart of [`DeliveryTask`].
pub struct TaskValue {
    /// What is being done.
    pub stage: Stage,
    /// What comes after it.
    pub pending: Seq<ActionValue>,
    /// What the delivery comes to once all is done.
    pub outcome: Result<(), Seq<char>>,
}

/// The view of an outcome.
pub open spec fn outcome_value(outcome: Result<(), String>) -> Result<(), Seq<char>> {
    match outcome {
        Ok(()) => Ok(()),
        Err(message) => Err(message@),
    }
}

impl View for DeliveryTask {
    type V = TaskValue;

    closed spec fn view(&self) -> TaskValue {
        TaskValue {
            stage: self.stage,
            pending: action_values(self.pending@),
            outcome: outcome_value(self.outcome),
        }
    }
}

/// What to do next about a delivery.
pub enum DeliveryStep {
    /// Do this, then report to the task how it went.
    Act(DeliveryAction, DeliveryTask),
    /// The round is over.
    Done(Result<(), String>),
    /// The output is gone: end the program.
    Abort(String),
}

/// The mathematical counterpart of [`DeliveryStep`].
pub enum DeliveryStepValue {
    Act(ActionValue, TaskValue),
    Done(Result<(), Seq<char>>),
    Abort(Seq<char>),
}

impl View for DeliveryStep {
    type V = DeliveryStepValue;

    open spec fn view(&self) -> DeliveryStepValue {
        match self {
            DeliveryStep::Act(action, task) => DeliveryStepValue::Act(action@, task@),
            DeliveryStep::Done(outcome) => DeliveryStepValue::Done(outcome_value(*outcome)),
            DeliveryStep::Abort(error) => DeliveryStepValue::Abort(error@),
        }
    }
}

/// The warnings that an answer calls for.
pub open spec fn warnings(d: Delivered) -> Seq<ActionValue> {
    let reset = ActionValue::Warn("relay epoch changed; resetting cursor"@);
    let lost = ActionValue::Warn(
        "WARNING: relay retention was exceeded; some events were lost"@,
    );
    (if d.reset {
        seq![reset]
    } else {
        seq![]
    }) + (if d.lost {
        seq![lost]
    } else {
        seq![]
    })
}

/// The lines that are printed.
pub open spec fn prints(lines: Seq<Value>) -> Seq<ActionValue> {
    lines.map_values(|line: Value| ActionValue::Print(line))
}

/// What is done once the lines are printed: nothing where there is no cursor
/// to keep.
pub open spec fn closing(outcome: Result<CursorValue, Seq<char>>) -> Seq<ActionValue> {
    match outcome {
        Ok(cursor) => seq![ActionValue::Flush, ActionValue::Keep(cursor)],
        Err(_) => seq![],
    }
}

/// All that is done to deliver an answer, in order, where nothing fails.
pub open spec fn script(d: Delivered) -> Seq<ActionValue> {
    warnings(d) + prints(d.lines) + closing(d.outcome)
}

/// What a delivery comes to where nothing fails.
pub open spec fn ending(d: Delivered) -> Result<(), Seq<char>> {
    match d.outcome {
        Ok(_) => Ok(()),
        Err(message) => Err(message),
    }
}

/// The first of the actions that are left, or the end where none is.
pub open spec fn first_of(
    pending: Seq<ActionValue>,
    outcome: Result<(), Seq<char>>,
) -> DeliveryStepValue {
    if pending.len() == 0 {
        DeliveryStepValue::Done(outcome)
    } else {
        DeliveryStepValue::Act(
            pending[0],
            TaskValue { stage: stage_of(pending[0]), pending: pending.skip(1), outcome },
        )
    }
}

/// What follows where an action fails: nothing more is done.
pub open spec fn failure(stage: Stage, error: Seq<char>) -> DeliveryStepValue {
    match stage {
        Stage::Write => DeliveryStepValue::Abort(error),
        Stage::Flush => DeliveryStepValue::Done(Err("could not flush output: "@ + error)),
        Stage::Keep => DeliveryStepValue::Done(Err(error)),
    }
}

/// What follows from how an action went.
pub open spec fn next_step(task: TaskValue, result: Result<(), Seq<char>>) -> DeliveryStepValue {
    match result {
        Ok(()) => first_of(task.pending, task.outcome),
        Err(error) => failure(task.stage, error),
    }
}

/// Takes the first of the actions that are left.
fn take_first(pending: VecDeque<DeliveryAction>, outcome: Result<(), String>) -> (r: DeliveryStep)
    ensures
        r@ == first_of(action_values(pending@), outcome_value(outcome)),
{
    let mut pending = pending;
    let ghost before = action_values(pending@);
    match pending.pop_front() {
        Some(action) => {
            assert(before[0] == action@);
            assert(action_values(pending@) =~= before.skip(1));
            let stage = match &action {
                DeliveryAction::Warn(_) => Stage::Write,
                DeliveryAction::Print(_) => Stage::Write,
                DeliveryAction::Flush => Stage::Flush,
                DeliveryAction::Keep(_) => Stage::Keep,
            };
            DeliveryStep::Act(action, DeliveryTask { stage, pending, outcome })
        },
        None => DeliveryStep::Done(outcome),
    }
}

/// Puts an action before those that are left.
fn put_first(pending: &mut VecDeque<DeliveryAction>, action: DeliveryAction)
    ensures
        action_values(final(pending)@) == seq![action@] + action_values(old(pending)@),
{
    let ghost shown = action@;
    let ghost before = action_values(pending@);
    pending.push_front(action);
    assert(action_values(pending@) =~= seq![shown] + before);
}

/// Begins to deliver what an answer of the relay came to.
pub fn start(delivery: Delivery) -> (r: DeliveryStep)
    ensures
        r@ == first_of(script(delivery@), ending(delivery@)),
{
    let ghost d = delivery@;
    let ghost all = delivery.lines@;
    let Delivery { reset, lost, mut lines, outcome } = delivery;
    let mut pending: VecDeque<DeliveryAction> = VecDeque::new();
    let outcome: Result<(), String> = match outcome {
        Ok(cursor) => {
            pending.push_back(DeliveryAction::Flush);
            pending.push_back(DeliveryAction::Keep(cursor));
            Ok(())
        },
        Err(message) => Err(message),
    };
    assert(action_values(pending@) =~= closing(d.outcome));
    assert(outcome_value(outcome) == ending(d));
    assert(all.skip(all.len() as int) =~= Seq::<Json>::empty());
    assert(action_values(pending@) =~= prints(item_values(all.skip(all.len() as int))) + closing(
        d.outcome,
    ));
    while lines.len() > 0
        invariant
            lines.len() <= all.len(),
            lines@ == all.take(lines.len() as int),
            action_values(pending@) == prints(item_values(all.skip(lines.len() as int))) + closing(
                d.outcome,
            ),
        decreases lines.len(),
    {
        let ghost n = lines.len() as int;
        if let Some(line) = lines.pop() {
            assert(line == all[n - 1]);
            put_first(&mut pending, DeliveryAction::Print(line));
            proof {
                let some = prints(item_values(all.skip(n - 1)));
                assert(some =~= seq![ActionValue::Print(line@)] + prints(item_values(all.skip(n))));
                assert(action_values(pending@) =~= some + closing(d.outcome));
            }
        }
    }
    assert(all.skip(0) =~= all);
    let ghost rest = prints(d.lines) + closing(d.outcome);
    assert(action_values(pending@) =~= rest);
    if lost {
        let message = "WARNING: relay retention was exceeded; some events were lost";
        put_first(&mut pending, DeliveryAction::Warn(message.to_owned()));
    }
    let ghost without_reset = (Delivered { reset: false, ..d });
    assert(action_values(pending@) =~= warnings(without_reset) + rest);
    if reset {
        let message = "relay epoch changed; resetting cursor";
        put_first(&mut pending, DeliveryAction::Warn(message.to_owned()));
    }
    assert(action_values(pending@) =~= warnings(d) + rest);
    assert(warnings(d) + rest =~= script(d));
    take_first(pending, outcome)
}

impl DeliveryTask {
    /// Takes in how the action that is under way went.
    pub fn report(self, result: Result<(), String>) -> (r: DeliveryStep)
        ensures
            r@ == next_step(self@, outcome_value(result)),
    {
        match result {
            Ok(()) => take_first(self.pending, self.outcome),
            Err(error) => match self.stage {
                Stage::Write => DeliveryStep::Abort(error),
                Stage::Flush => {
                    let mut message = "could not flush output: ".to_owned();
                    message.append(error.as_str());
                    DeliveryStep::Done(Err(message))
                },
                Stage::Keep => DeliveryStep::Done(Err(error)),
            },
        }
    }
}

/// The actions that are done from a step on where they go as the results
/// say, one after the other, and the step after the last of them.
pub open spec fn carried_out(
    step: DeliveryStepValue,
    results: Seq<Result<(), Seq<char>>>,
) -> (Seq<ActionValue>, DeliveryStepValue)
    decreases results.len(),
{
    match step {
        DeliveryStepValue::Act(action, task) if results.len() > 0 => {
            let (more, last) = carried_out(next_step(task, results[0]), results.skip(1));
            (seq![action] + more, last)
        },
        _ => (seq![], step),
    }
}

/// Actions are done in order, and none after one that fails.
proof fn lemma_carried_out(
    pending: Seq<ActionValue>,
    outcome: Result<(), Seq<char>>,
    results: Seq<Result<(), Seq<char>>>,
)
    ensures
        ({
            let (acts, last) = carried_out(first_of(pending, outcome), results);
            &&& acts.len() <= pending.len()
            &&& acts.len() <= results.len()
            &&& acts == pending.take(acts.len() as int)
            &&& forall|i: int| 0 <= i < acts.len() - 1 ==> #[trigger] results[i] is Ok
            &&& acts.len() > 0 && results[acts.len() - 1] is Err ==> last == failure(
                stage_of(acts.last()),
                results[acts.len() - 1]->Err_0,
            )
            &&& (forall|i: int| 0 <= i < acts.len() ==> #[trigger] results[i] is Ok) ==> last
                == first_of(pending.skip(acts.len() as int), outcome) && (acts.len()
                == pending.len() || acts.len() == results.len())
        }),
    decreases results.len(),
{
    let (acts, last) = carried_out(first_of(pending, outcome), results);
    if pending.len() == 0 || results.len() == 0 {
        assert(acts =~= pending.take(0));
        assert(pending.skip(0) =~= pending);
    } else {
        let rest = pending.skip(1);
        let later = results.skip(1);
        match results[0] {
            Ok(()) => {
                lemma_carried_out(rest, outcome, later);
                let (more, _) = carried_out(first_of(rest, outcome), later);
                assert(acts =~= seq![pending[0]] + more);
                assert(acts =~= pending.take(acts.len() as int));
                assert forall|i: int| 0 <= i < acts.len() - 1 implies #[trigger] results[i] is Ok by {
                    if i > 0 {
                        assert(later[i - 1] == results[i]);
                    }
                }
                if more.len() > 0 {
                    assert(later[more.len() - 1] == results[acts.len() - 1]);
                    assert(acts.last() == more.last());
                }
                assert(rest.skip(more.len() as int) =~= pending.skip(acts.len() as int));
                if forall|i: int| 0 <= i < acts.len() ==> #[trigger] results[i] is Ok {
                    assert forall|i: int| 0 <= i < more.len() implies #[trigger] later[i] is Ok by {
                        assert(later[i] == results[i + 1]);
                    }
                }
            },
            Err(error) => {
                let (more, _) = carried_out(failure(stage_of(pending[0]), error), later);
                assert(more =~= seq![]);
                assert(acts =~= seq![pending[0]]);
                assert(acts =~= pending.take(1));
                assert(results[0] is Err);
            },
        }
    }
}

/// Where a cursor is in a script, it is the last action.
proof fn lemma_keep_is_last(d: Delivered, k: int)
    requires
        0 <= k < script(d).len(),
        script(d)[k] is Keep,
    ensures
        k == script(d).len() - 1,
        d.outcome is Ok,
        script(d)[k] == ActionValue::Keep(d.outcome->Ok_0),
        script(d).take(k) == warnings(d) + prints(d.lines) + seq![ActionValue::Flush],
{
    let front = warnings(d) + prints(d.lines);
    if k < warnings(d).len() {
        assert(script(d)[k] == warnings(d)[k]);
    } else if k < front.len() {
        assert(script(d)[k] == prints(d.lines)[k - warnings(d).len()]);
    } else {
        assert(script(d)[k] == closing(d.outcome)[k - front.len()]);
    }
    assert(script(d).take(k) =~= front + seq![ActionValue::Flush]);
}

/// Delivery is at least once. However the single actions go, a cursor is kept
/// only after every event of the answer was printed, in order and with its
/// epoch, and the output was flushed, all without a failure; it is the cursor
/// that the answer gives. Else the cursor before it stands, and the events
/// come again.
pub proof fn delivery_is_at_least_once(message: Value, results: Seq<Result<(), Seq<char>>>)
    ensures
        ({
            let d = delivered(message);
            let (acts, last) = carried_out(first_of(script(d), ending(d)), results);
            forall|k: int|
                0 <= k < acts.len() && #[trigger] acts[k] is Keep ==> {
                    let cursor = acts[k]->Keep_0;
                    &&& forall|i: int| 0 <= i < k ==> #[trigger] results[i] is Ok
                    &&& message.field("events"@) matches Some(Value::Array(events))
                    &&& acts.take(k) == warnings(d) + events.map_values(
                        |event: Value| ActionValue::Print(with_epoch(event, cursor.epoch)),
                    ) + seq![ActionValue::Flush]
                    &&& message.text_field("epoch"@) == Some(cursor.epoch)
                    &&& message.integer_field("next"@) == Some(cursor.after)
                    &&& acts.len() == k + 1
                }
        }),
{
    let d = delivered(message);
    let (acts, last) = carried_out(first_of(script(d), ending(d)), results);
    lemma_carried_out(script(d), ending(d), results);
    cursor_moves_past_printed_events_only(message);
    assert forall|k: int| 0 <= k < acts.len() && #[trigger] acts[k] is Keep implies {
        let cursor = acts[k]->Keep_0;
        &&& forall|i: int| 0 <= i < k ==> #[trigger] results[i] is Ok
        &&& message.field("events"@) matches Some(Value::Array(events))
        &&& acts.take(k) == warnings(d) + events.map_values(
            |event: Value| ActionValue::Print(with_epoch(event, cursor.epoch)),
        ) + seq![ActionValue::Flush]
        &&& message.text_field("epoch"@) == Some(cursor.epoch)
        &&& message.integer_field("next"@) == Some(cursor.after)
        &&& acts.len() == k + 1
    } by {
        let cursor = acts[k]->Keep_0;
        assert(acts[k] == script(d)[k]);
        lemma_keep_is_last(d, k);
        let events = message.field("events"@)->0->Array_0;
        assert(acts.take(k) =~= script(d).take(k));
        assert forall|i: int| 0 <= i < events.len() implies #[trigger] d.lines[i] == with_epoch(
            events[i],
            cursor.epoch,
        ) by {
            assert(events[i] is Object);
        }
        assert(prints(d.lines) =~= events.map_values(
            |event: Value| ActionValue::Print(with_epoch(event, cursor.epoch)),
        ));
    }
}

/// An action that fails is the last one: after a failed flush no cursor is
/// kept, and the round ends with what failed. Where nothing fails all is
/// done, and the round ends well exactly where the answer gave a cursor.
pub proof fn failures_end_the_delivery(d: Delivered, results: Seq<Result<(), Seq<char>>>)
    ensures
        ({
            let (acts, last) = carried_out(first_of(script(d), ending(d)), results);
            &&& acts.is_prefix_of(script(d))
            &&& acts.len() <= results.len()
            &&& forall|k: int|
                0 <= k < acts.len() && #[trigger] results[k] is Err ==> acts.len() == k + 1 && last
                    == failure(stage_of(acts[k]), results[k]->Err_0)
            &&& results.len() >= script(d).len() && (forall|i: int|
                0 <= i < script(d).len() ==> #[trigger] results[i] is Ok) ==> acts == script(d)
                && last == DeliveryStepValue::Done(ending(d))
            &&& last == DeliveryStepValue::Done(Ok(())) ==> acts == script(d) && d.outcome is Ok
        }),
{
    let (acts, last) = carried_out(first_of(script(d), ending(d)), results);
    lemma_carried_out(script(d), ending(d), results);
    assert(acts =~= script(d).subrange(0, acts.len() as int));
    if acts.len() == script(d).len() {
        assert(acts =~= script(d));
    }
    if acts.len() > 0 && results[acts.len() - 1] is Ok {
        assert(forall|i: int| 0 <= i < acts.len() ==> #[trigger] results[i] is Ok);
    }
}

} // verus!
