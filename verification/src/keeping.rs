//! Keeping a cursor in its file, one step after the other.
//!
//! The cursor is written to a temporary file, which takes the place of the
//! file only once it is complete. Where a step fails the temporary file is
//! removed and nothing else is done, so the file holds a whole cursor at any
//! time.

use crate::delivery::outcome_value;
use crate::json::{Json, Value};
use crate::poller::{
    cursor_value, save_cursor, temporary_name, temporary_text, Cursor, CursorValue,
};
use std::collections::VecDeque;
use vstd::prelude::*;

verus! {

/// One action on the file system. Names are those of files beside the file
/// of the cursor.
pub enum KeepAction {
    /// Create the directory of the file, where it is missing.
    CreateDirectory,
    /// Create this temporary file, which must not exist, for its owner only.
    Create(String),
    /// Write this value to the temporary file.
    Write(Json),
    /// Write a line feed to the temporary file.
    EndLine,
    /// Bring the temporary file to the disk.
    Sync,
    /// Let this temporary file take the place of the file.
    Rename(String),
    /// Remove this temporary file.
    Remove(String),
}

/// The mathematical counterpart of [`KeepAction`].
pub enum KeepActionValue {
    CreateDirectory,
    Create(Seq<char>),
    Write(Value),
    EndLine,
    Sync,
    Rename(Seq<char>),
    Remove(Seq<char>),
}

impl View for KeepAction {
    type V = KeepActionValue;

    open spec fn view(&self) -> KeepActionValue {
        match self {
            KeepAction::CreateDirectory => KeepActionValue::CreateDirectory,
            KeepAction::Create(name) => KeepActionValue::Create(name@),
            KeepAction::Write(value) => KeepActionValue::Write(value@),
            KeepAction::EndLine => KeepActionValue::EndLine,
            KeepAction::Sync => KeepActionValue::Sync,
            KeepAction::Rename(name) => KeepActionValue::Rename(name@),
            KeepAction::Remove(name) => KeepActionValue::Remove(name@),
        }
    }
}

/// The views of a list of actions.
pub open spec fn keep_values(actions: Seq<KeepAction>) -> Seq<KeepActionValue> {
    actions.map_values(|a: KeepAction| a@)
}

/// What is being done.
enum KeepStage {
    Directory,
    Create,
    Write,
    EndLine,
    Sync,
    Rename,
    /// The temporary file is removed because of this.
    Remove(String),
}

/// The mathematical counterpart of what is being done.
pub enum KeepStageValue {
    Directory,
    Create,
    Write,
    EndLine,
    Sync,
    Rename,
    /// The temporary file is removed because of this.
    Remove(Seq<char>),
}

impl View for KeepStage {
    type V = KeepStageValue;

    closed spec fn view(&self) -> KeepStageValue {
        match self {
            KeepStage::Directory => KeepStageValue::Directory,
            KeepStage::Create => KeepStageValue::Create,
            KeepStage::Write => KeepStageValue::Write,
            KeepStage::EndLine => KeepStageValue::EndLine,
            KeepStage::Sync => KeepStageValue::Sync,
            KeepStage::Rename => KeepStageValue::Rename,
            KeepStage::Remove(message) => KeepStageValue::Remove(message@),
        }
    }
}

/// What an action is about; a removal tells no reason by itself.
pub open spec fn keep_stage(action: KeepActionValue) -> KeepStageValue {
    match action {
        KeepActionValue::CreateDirectory => KeepStageValue::Directory,
        KeepActionValue::Create(_) => KeepStageValue::Create,
        KeepActionValue::Write(_) => KeepStageValue::Write,
        KeepActionValue::EndLine => KeepStageValue::EndLine,
        KeepActionValue::Sync => KeepStageValue::Sync,
        KeepActionValue::Rename(_) => KeepStageValue::Rename,
        KeepActionValue::Remove(_) => KeepStageValue::Remove(seq![]),
    }
}

/// A cursor that is being kept.
pub struct KeepTask {
    stage: KeepStage,
    pending: VecDeque<KeepAction>,
    name: String,
}

/// The mathematical counterpart of [`KeepTask`].
pub struct KeepTaskValue {
    /// What is being done.
    pub stage: KeepStageValue,
    /// What comes after it.
    pub pending: Seq<KeepActionValue>,
    /// The name of the temporary file.
    pub name: Seq<char>,
}

impl View for KeepTask {
    type V = KeepTaskValue;

    closed spec fn view(&self) -> KeepTaskValue {
        KeepTaskValue {
            stage: self.stage@,
            pending: keep_values(self.pending@),
            name: self.name@,
        }
    }
}

/// What to do next to keep a cursor.
pub enum KeepStep {
    /// Do this, then report to the task how it went.
    Act(KeepAction, KeepTask),
    /// The cursor is kept, or could not be.
    Done(Result<(), String>),
}

/// The mathematical counterpart of [`KeepStep`].
pub enum KeepStepValue {
    Act(KeepActionValue, KeepTaskValue),
    Done(Result<(), Seq<char>>),
}

impl View for KeepStep {
    type V = KeepStepValue;

    open spec fn view(&self) -> KeepStepValue {
        match self {
            KeepStep::Act(action, task) => KeepStepValue::Act(action@, task@),
            KeepStep::Done(Ok(())) => KeepStepValue::Done(Ok(())),
            KeepStep::Done(Err(message)) => KeepStepValue::Done(Err(message@)),
        }
    }
}

/// All that is done to keep a value under a temporary name, in order, where
/// nothing fails.
pub open spec fn keep_script(name: Seq<char>, value: Value) -> Seq<KeepActionValue> {
    seq![
        KeepActionValue::CreateDirectory,
        KeepActionValue::Create(name),
        KeepActionValue::Write(value),
        KeepActionValue::EndLine,
        KeepActionValue::Sync,
        KeepActionValue::Rename(name),
    ]
}

/// The first of the actions that are left, or the end where none is.
pub open spec fn first_keep(pending: Seq<KeepActionValue>, name: Seq<char>) -> KeepStepValue {
    if pending.len() == 0 {
        KeepStepValue::Done(Ok(()))
    } else {
        KeepStepValue::Act(
            pending[0],
            KeepTaskValue { stage: keep_stage(pending[0]), pending: pending.skip(1), name },
        )
    }
}

/// What is reported where an action fails.
pub open spec fn keep_failure(stage: KeepStageValue, error: Seq<char>) -> Seq<char> {
    match stage {
        KeepStageValue::Directory => "could not create cursor directory: "@ + error,
        KeepStageValue::Create => "could not create temporary cursor: "@ + error,
        KeepStageValue::Write => "could not write cursor: "@ + error,
        KeepStageValue::EndLine => error,
        KeepStageValue::Sync => error,
        KeepStageValue::Rename => "could not replace cursor: "@ + error,
        KeepStageValue::Remove(message) => message,
    }
}

/// What follows where an action fails: the temporary file is removed, once
/// there may be one.
pub open spec fn after_keep_failure(
    stage: KeepStageValue,
    name: Seq<char>,
    error: Seq<char>,
) -> KeepStepValue {
    let message = keep_failure(stage, error);
    if stage is Directory {
        KeepStepValue::Done(Err(message))
    } else {
        KeepStepValue::Act(
            KeepActionValue::Remove(name),
            KeepTaskValue { stage: KeepStageValue::Remove(message), pending: seq![], name },
        )
    }
}

/// What follows from how an action went. How a removal goes makes no
/// difference.
pub open spec fn next_keep(task: KeepTaskValue, result: Result<(), Seq<char>>) -> KeepStepValue {
    match (task.stage, result) {
        (KeepStageValue::Remove(message), _) => KeepStepValue::Done(Err(message)),
        (_, Ok(())) => first_keep(task.pending, task.name),
        (stage, Err(error)) => after_keep_failure(stage, task.name, error),
    }
}

/// Takes the first of the actions that are left.
fn take_first(pending: VecDeque<KeepAction>, name: String) -> (r: KeepStep)
    requires
        forall|i: int| 0 <= i < pending@.len() ==> !(#[trigger] pending@[i] is Remove),
    ensures
        r@ == first_keep(keep_values(pending@), name@),
{
    let mut pending = pending;
    let ghost before = keep_values(pending@);
    match pending.pop_front() {
        Some(action) => {
            assert(before[0] == action@);
            assert(keep_values(pending@) =~= before.skip(1));
            let stage = match &action {
                KeepAction::CreateDirectory => KeepStage::Directory,
                KeepAction::Create(_) => KeepStage::Create,
                KeepAction::Write(_) => KeepStage::Write,
                KeepAction::EndLine => KeepStage::EndLine,
                KeepAction::Sync => KeepStage::Sync,
                KeepAction::Rename(_) => KeepStage::Rename,
                KeepAction::Remove(_) => KeepStage::Remove(String::new()),
            };
            KeepStep::Act(action, KeepTask { stage, pending, name })
        },
        None => KeepStep::Done(Ok(())),
    }
}

/// Begins to keep a cursor; the number is that of the process.
pub fn keep(process: u32, cursor: &Cursor) -> (r: KeepStep)
    ensures
        r@ == first_keep(
            keep_script(temporary_text(process, cursor@), cursor_value(cursor@)),
            temporary_text(process, cursor@),
        ),
{
    let name = temporary_name(process, cursor);
    let value = save_cursor(cursor);
    let mut pending: VecDeque<KeepAction> = VecDeque::new();
    pending.push_back(KeepAction::CreateDirectory);
    pending.push_back(KeepAction::Create(name.clone()));
    pending.push_back(KeepAction::Write(value));
    pending.push_back(KeepAction::EndLine);
    pending.push_back(KeepAction::Sync);
    pending.push_back(KeepAction::Rename(name.clone()));
    assert(keep_values(pending@) =~= keep_script(name@, cursor_value(cursor@)));
    take_first(pending, name)
}

fn prefixed(prefix: &str, error: &str) -> (r: String)
    ensures
        r@ == prefix@ + error@,
{
    let mut message = prefix.to_owned();
    message.append(error);
    message
}

impl KeepTask {
    #[verifier::type_invariant]
    spec fn removes_only_at_the_end(self) -> bool {
        forall|i: int| 0 <= i < self.pending@.len() ==> !(#[trigger] self.pending@[i] is Remove)
    }

    /// Takes in how the action that is under way went.
    pub fn report(self, result: Result<(), String>) -> (r: KeepStep)
        ensures
            r@ == next_keep(self@, outcome_value(result)),
    {
        proof {
            use_type_invariant(&self);
        }
        let KeepTask { stage, pending, name } = self;
        if let KeepStage::Remove(message) = stage {
            return KeepStep::Done(Err(message));
        }
        let error = match result {
            Ok(()) => {
                return take_first(pending, name);
            },
            Err(error) => error,
        };
        let message = match &stage {
            KeepStage::Directory => {
                return KeepStep::Done(
                    Err(prefixed("could not create cursor directory: ", error.as_str())),
                );
            },
            KeepStage::Create => prefixed("could not create temporary cursor: ", error.as_str()),
            KeepStage::Write => prefixed("could not write cursor: ", error.as_str()),
            KeepStage::Rename => prefixed("could not replace cursor: ", error.as_str()),
            _ => error,
        };
        let none: VecDeque<KeepAction> = VecDeque::new();
        assert(keep_values(none@) =~= seq![]);
        KeepStep::Act(
            KeepAction::Remove(name.clone()),
            KeepTask { stage: KeepStage::Remove(message), pending: none, name },
        )
    }
}

/// The actions that are done from a step on where they go as the results
/// say, one after the other, and the step after the last of them.
pub open spec fn kept_by(step: KeepStepValue, results: Seq<Result<(), Seq<char>>>) -> (
    Seq<KeepActionValue>,
    KeepStepValue,
)
    decreases results.len(),
{
    match step {
        KeepStepValue::Act(action, task) if results.len() > 0 => {
            let (more, last) = kept_by(next_keep(task, results[0]), results.skip(1));
            (seq![action] + more, last)
        },
        _ => (seq![], step),
    }
}

/// The number of results that are good before the first that is not.
pub open spec fn leading_ok(results: Seq<Result<(), Seq<char>>>) -> nat
    decreases results.len(),
{
    if results.len() == 0 || results[0] is Err {
        0
    } else {
        1 + leading_ok(results.skip(1))
    }
}

/// The good results, and the one behind them.
proof fn lemma_leading_ok(results: Seq<Result<(), Seq<char>>>)
    ensures
        0 <= leading_ok(results) <= results.len(),
        forall|i: int| 0 <= i < leading_ok(results) ==> #[trigger] results[i] is Ok,
        leading_ok(results) < results.len() ==> results[leading_ok(results) as int] is Err,
    decreases results.len(),
{
    if results.len() > 0 && results[0] is Ok {
        let rest = results.skip(1);
        lemma_leading_ok(rest);
        assert forall|i: int| 0 <= i < leading_ok(results) implies #[trigger] results[i] is Ok by {
            if i > 0 {
                assert(rest[i - 1] == results[i]);
            }
        }
    }
}

/// What is done, by the number of actions that go well.
pub open spec fn keep_trace(
    pending: Seq<KeepActionValue>,
    name: Seq<char>,
    results: Seq<Result<(), Seq<char>>>,
) -> (Seq<KeepActionValue>, KeepStepValue) {
    let n = leading_ok(results) as int;
    if n >= pending.len() {
        (pending, KeepStepValue::Done(Ok(())))
    } else if n == results.len() {
        (pending.take(n), first_keep(pending.skip(n), name))
    } else {
        let failed = after_keep_failure(keep_stage(pending[n]), name, results[n]->Err_0);
        if pending[n] is CreateDirectory || results.len() == n + 1 {
            (pending.take(n + 1), failed)
        } else {
            (
                pending.take(n + 1).push(KeepActionValue::Remove(name)),
                KeepStepValue::Done(
                    Err(keep_failure(keep_stage(pending[n]), results[n]->Err_0)),
                ),
            )
        }
    }
}

proof fn lemma_keep_trace(
    pending: Seq<KeepActionValue>,
    name: Seq<char>,
    results: Seq<Result<(), Seq<char>>>,
)
    requires
        forall|i: int| 0 <= i < pending.len() ==> !(#[trigger] pending[i] is Remove),
    ensures
        kept_by(first_keep(pending, name), results) == keep_trace(pending, name, results),
    decreases pending.len(),
{
    lemma_leading_ok(results);
    let n = leading_ok(results) as int;
    let (acts, last) = kept_by(first_keep(pending, name), results);
    if pending.len() == 0 {
        assert(acts =~= pending);
    } else if results.len() == 0 {
        assert(acts =~= pending.take(0));
        assert(pending.skip(0) =~= pending);
    } else {
        let rest = pending.skip(1);
        let later = results.skip(1);
        assert(!(pending[0] is Remove));
        match results[0] {
            Ok(()) => {
                assert forall|i: int| 0 <= i < rest.len() implies !(#[trigger] rest[i] is Remove) by {
                    assert(rest[i] == pending[i + 1]);
                }
                lemma_keep_trace(rest, name, later);
                lemma_leading_ok(later);
                let (more, _) = keep_trace(rest, name, later);
                assert(acts == seq![pending[0]] + more);
                if n >= pending.len() {
                    assert(acts =~= pending);
                } else if n == results.len() {
                    assert(acts =~= pending.take(n));
                    assert(rest.skip(n - 1) =~= pending.skip(n));
                } else {
                    assert(rest[n - 1] == pending[n] && later[n - 1] == results[n]);
                    assert(seq![pending[0]] + rest.take(n) =~= pending.take(n + 1));
                    assert(acts =~= keep_trace(pending, name, results).0);
                }
            },
            Err(error) => {
                let step = after_keep_failure(keep_stage(pending[0]), name, error);
                let (more, _) = kept_by(step, later);
                assert(seq![pending[0]] =~= pending.take(1));
                if later.len() > 0 && !(pending[0] is CreateDirectory) {
                    reveal_with_fuel(kept_by, 3);
                    assert(more =~= seq![KeepActionValue::Remove(name)]);
                } else {
                    assert(more =~= seq![]);
                }
                assert(acts =~= keep_trace(pending, name, results).0);
            },
        }
    }
}

/// A cursor is kept in order, as far as all goes well. At the first failure
/// the temporary file is removed, once there may be one, and nothing else is
/// done; the failure is what keeping the cursor comes to.
pub proof fn a_failure_is_followed_by_the_removal_only(
    process: u32,
    cursor: CursorValue,
    results: Seq<Result<(), Seq<char>>>,
)
    ensures
        ({
            let name = temporary_text(process, cursor);
            let all = keep_script(name, cursor_value(cursor));
            kept_by(first_keep(all, name), results) == keep_trace(all, name, results)
        }),
{
    let name = temporary_text(process, cursor);
    lemma_keep_trace(keep_script(name, cursor_value(cursor)), name, results);
}

/// The file of the cursor is replaced only by a complete one: the rename
/// comes after the temporary file was created, the cursor and the line feed
/// were written and the file was brought to the disk, all without a failure.
/// Keeping the cursor succeeds exactly where the rename does.
pub proof fn the_file_is_replaced_whole(
    process: u32,
    cursor: CursorValue,
    results: Seq<Result<(), Seq<char>>>,
)
    ensures
        ({
            let name = temporary_text(process, cursor);
            let all = keep_script(name, cursor_value(cursor));
            let (acts, last) = kept_by(first_keep(all, name), results);
            &&& forall|k: int|
                0 <= k < acts.len() && #[trigger] acts[k] is Rename ==> k == 5 && acts.take(6)
                    == all && forall|i: int| 0 <= i < 5 ==> #[trigger] results[i] is Ok
            &&& last == KeepStepValue::Done(Ok(())) <==> acts == all && results[5] is Ok
        }),
{
    let name = temporary_text(process, cursor);
    let all = keep_script(name, cursor_value(cursor));
    let (acts, last) = kept_by(first_keep(all, name), results);
    lemma_keep_trace(all, name, results);
    lemma_leading_ok(results);
    let n = leading_ok(results) as int;
    assert forall|k: int| 0 <= k < acts.len() && #[trigger] acts[k] is Rename implies k == 5
        && acts.take(6) == all && forall|i: int| 0 <= i < 5 ==> #[trigger] results[i] is Ok by {
        if k < 6 && k <= n {
            assert(acts[k] == all[k]);
        }
        assert(acts.take(6) =~= all);
    }
    if acts == all {
        assert(acts.len() == 6);
    }
}

} // verus!
