//! What delivering an answer and keeping a cursor promise, action by action.

use crate::delivery::{
    action_values, ending, first_of, next_step, outcome_value, script, ActionValue,
    DeliveryAction, DeliveryStep, DeliveryStepValue,
};
use crate::json::Value;
use crate::keeping::{
    first_keep, keep_script, keep_values, next_keep, KeepAction, KeepActionValue, KeepStep,
    KeepStepValue,
};
use crate::poller::{CursorValue, Delivered};
use crate::rounds::moved;
use vstd::prelude::*;

verus! {

/// An answer that gives a cursor is delivered by its warnings, the change of
/// epoch before the loss, then each line in order, then a flush, and the
/// cursor last. One that gives none ends with its last line and the reason.
pub proof fn an_answer_is_delivered_in_this_order(
    reset: bool,
    lost: bool,
    lines: Seq<Value>,
    cursor: CursorValue,
    error: Seq<char>,
)
    ensures
        ({
            let good = Delivered { reset, lost, lines, outcome: Ok(cursor) };
            let bad = Delivered { reset, lost, lines, outcome: Err(error) };
            let w: int = (if reset {
                1int
            } else {
                0
            }) + (if lost {
                1int
            } else {
                0
            });
            let n = lines.len();
            &&& script(good).len() == w + n + 2
            &&& reset ==> script(good)[0] == ActionValue::Warn(
                "relay epoch changed; resetting cursor"@,
            )
            &&& lost ==> script(good)[w - 1] == ActionValue::Warn(
                "WARNING: relay retention was exceeded; some events were lost"@,
            )
            &&& forall|i: int|
                w <= i < w + n ==> #[trigger] script(good)[i] == ActionValue::Print(lines[i - w])
            &&& script(good)[w + n] == ActionValue::Flush
            &&& script(good)[w + n + 1] == ActionValue::Keep(cursor)
            &&& script(bad) == script(good).take(w + n)
            &&& ending(good) == Ok::<(), Seq<char>>(())
            &&& ending(bad) == Err::<(), _>(error)
        }),
{
    let good = Delivered { reset, lost, lines, outcome: Ok(cursor) };
    let bad = Delivered { reset, lost, lines, outcome: Err(error) };
    let w = crate::delivery::warnings(good);
    let p = crate::delivery::prints(lines);
    assert(crate::delivery::warnings(bad) == w);
    assert forall|i: int| w.len() <= i < w.len() + lines.len() implies #[trigger] script(good)[i]
        == ActionValue::Print(lines[i - w.len()]) by {
        assert(script(good)[i] == p[i - w.len()]);
    }
    assert(script(bad) =~= script(good).take((w.len() + lines.len()) as int));
}

/// An action that goes well is followed by the next, and the last by the end.
/// A flush or a cursor that fails ends the round with the reason, and output
/// that is gone ends the program.
pub proof fn an_action_is_followed_by_the_next(
    action: ActionValue,
    more: Seq<ActionValue>,
    outcome: Result<(), Seq<char>>,
    error: Seq<char>,
)
    ensures
        first_of(Seq::<ActionValue>::empty(), outcome) == DeliveryStepValue::Done(outcome),
        first_of(seq![action] + more, outcome) matches DeliveryStepValue::Act(first, task)
            && first == action && next_step(task, Ok(())) == first_of(more, outcome) && next_step(
            task,
            Err(error),
        ) == (match action {
            ActionValue::Warn(_) => DeliveryStepValue::Abort(error),
            ActionValue::Print(_) => DeliveryStepValue::Abort(error),
            ActionValue::Flush => DeliveryStepValue::Done(
                Err("could not flush output: "@ + error),
            ),
            ActionValue::Keep(_) => DeliveryStepValue::Done(Err(error)),
        }),
{
    assert((seq![action] + more).skip(1) =~= more);
}

/// Only a cursor that was kept without a failure is the one to poll with.
pub proof fn only_a_kept_cursor_is_polled_with(
    cursor: CursorValue,
    next: CursorValue,
    action: ActionValue,
    error: Seq<char>,
)
    ensures
        moved(cursor, ActionValue::Keep(next), Ok(())) == next,
        moved(cursor, action, Err(error)) == cursor,
        !(action is Keep) ==> moved(cursor, action, Ok(())) == cursor,
{
}

/// A cursor is kept in six actions, the rename last.
pub proof fn a_cursor_is_kept_in_this_order(name: Seq<char>, value: Value)
    ensures
        keep_script(name, value) == seq![
            KeepActionValue::CreateDirectory,
            KeepActionValue::Create(name),
            KeepActionValue::Write(value),
            KeepActionValue::EndLine,
            KeepActionValue::Sync,
            KeepActionValue::Rename(name),
        ],
{
}

/// An action on the file that goes well is followed by the next. One that
/// fails is followed by the removal of the temporary file, but for the
/// directory, and then by the end with the reason, however the removal goes.
pub proof fn a_file_action_is_followed_by_the_next(
    action: KeepActionValue,
    more: Seq<KeepActionValue>,
    name: Seq<char>,
    error: Seq<char>,
    removal: Result<(), Seq<char>>,
)
    requires
        !(action is Remove),
    ensures
        first_keep(Seq::<KeepActionValue>::empty(), name) == KeepStepValue::Done(Ok(())),
        ({
            let reason = match action {
                KeepActionValue::CreateDirectory => "could not create cursor directory: "@ + error,
                KeepActionValue::Create(_) => "could not create temporary cursor: "@ + error,
                KeepActionValue::Write(_) => "could not write cursor: "@ + error,
                KeepActionValue::Rename(_) => "could not replace cursor: "@ + error,
                _ => error,
            };
            &&& first_keep(seq![action] + more, name) matches KeepStepValue::Act(first, task)
            &&& first == action
            &&& next_keep(task, Ok(())) == first_keep(more, name)
            &&& action is CreateDirectory ==> next_keep(task, Err(error)) == KeepStepValue::Done(
                Err(reason),
            )
            &&& !(action is CreateDirectory) ==> (next_keep(
                task,
                Err(error),
            ) matches KeepStepValue::Act(second, last) && second == KeepActionValue::Remove(name)
                && next_keep(last, removal) == KeepStepValue::Done(Err(reason)))
        }),
{
    assert((seq![action] + more).skip(1) =~= more);
}

/// Actions and steps show what they ask for.
pub proof fn actions_show_what_they_ask_for(
    action: DeliveryAction,
    actions: Seq<DeliveryAction>,
    step: DeliveryStep,
    keep: KeepAction,
    keeps: Seq<KeepAction>,
    stage: KeepStep,
    error: String,
)
    ensures
        match action {
            DeliveryAction::Warn(text) => action@ == ActionValue::Warn(text@),
            DeliveryAction::Print(line) => action@ == ActionValue::Print(line@),
            DeliveryAction::Flush => action@ == ActionValue::Flush,
            DeliveryAction::Keep(cursor) => action@ == ActionValue::Keep(cursor@),
        },
        action_values(actions).len() == actions.len(),
        forall|i: int|
            0 <= i < actions.len() ==> #[trigger] action_values(actions)[i] == actions[i]@,
        match step {
            DeliveryStep::Act(a, task) => step@ == DeliveryStepValue::Act(a@, task@),
            DeliveryStep::Done(Ok(())) => step@ == DeliveryStepValue::Done(Ok(())),
            DeliveryStep::Done(Err(message)) => step@ == DeliveryStepValue::Done(Err(message@)),
            DeliveryStep::Abort(message) => step@ == DeliveryStepValue::Abort(message@),
        },
        outcome_value(Ok(())) == Ok::<(), Seq<char>>(()),
        outcome_value(Err(error)) == Err::<(), _>(error@),
        match keep {
            KeepAction::CreateDirectory => keep@ == KeepActionValue::CreateDirectory,
            KeepAction::Create(name) => keep@ == KeepActionValue::Create(name@),
            KeepAction::Write(value) => keep@ == KeepActionValue::Write(value@),
            KeepAction::EndLine => keep@ == KeepActionValue::EndLine,
            KeepAction::Sync => keep@ == KeepActionValue::Sync,
            KeepAction::Rename(name) => keep@ == KeepActionValue::Rename(name@),
            KeepAction::Remove(name) => keep@ == KeepActionValue::Remove(name@),
        },
        keep_values(keeps).len() == keeps.len(),
        forall|i: int| 0 <= i < keeps.len() ==> #[trigger] keep_values(keeps)[i] == keeps[i]@,
        match stage {
            KeepStep::Act(a, task) => stage@ == KeepStepValue::Act(a@, task@),
            KeepStep::Done(Ok(())) => stage@ == KeepStepValue::Done(Ok(())),
            KeepStep::Done(Err(message)) => stage@ == KeepStepValue::Done(Err(message@)),
        },
{
}

} // verus!
