//! What holds of every relocation: it ends, it removes the source last,
//! it leaves no temporary file behind, and it keeps to the overwrite policy.

use crate::relocate::{
    begun, is_cross_device, parent_is_there, Action, IoFailure, Mode, Phase, Relocation,
    RelocationError, RelocationOutcome, Step,
};
use std::path::PathBuf;
use vstd::prelude::*;

verus! {

/// The largest number of answers that a relocation in `phase` may still
/// take.
pub open spec fn answers_left(phase: Phase) -> nat {
    match phase {
        Phase::EnsuringParent => 6,
        Phase::Renaming => 5,
        Phase::CreatingTemp => 4,
        Phase::Copying => 3,
        Phase::Placing => 2,
        Phase::RemovingSource => 1,
        Phase::CleaningUp { .. } => 1,
    }
}

/// Whether a relocation in `phase` has a temporary file that is neither
/// removed nor renamed to the destination yet.
pub open spec fn holds_temp(phase: Phase) -> bool {
    phase is Copying || phase is Placing
}

/// Where a relocation stands after the answers `answers`, given in turn;
/// answers that come after its end are not looked at.
pub open spec fn run(step: Step, answers: Seq<Result<(), IoFailure>>) -> Step
    decreases answers.len(),
{
    if answers.len() == 0 {
        step
    } else {
        match step {
            Step::Finished(_) => step,
            Step::Continue(relocation) => run(relocation.next(answers[0]), answers.drop_first()),
        }
    }
}

/// Every answer brings a relocation nearer to its end, and files and policy
/// stay what they were.
pub proof fn lemma_step_draws_nearer(relocation: Relocation, answer: Result<(), IoFailure>)
    ensures
        match relocation.next(answer) {
            Step::Continue(after) => {
                &&& answers_left(after.phase) < answers_left(relocation.phase)
                &&& after.from == relocation.from
                &&& after.to == relocation.to
                &&& after.parent == relocation.parent
                &&& after.overwrite == relocation.overwrite
                &&& after.mode == relocation.mode
            },
            Step::Finished(outcome) => outcome.from == relocation.from && outcome.to
                == relocation.to,
        },
{
}

/// A relocation that has ended stays as it is.
pub proof fn lemma_finished_stays(step: Step, answers: Seq<Result<(), IoFailure>>)
    requires
        step is Finished,
    ensures
        run(step, answers) == step,
{
}

/// A relocation ends after six answers at most.
pub proof fn lemma_run_finishes(relocation: Relocation, answers: Seq<Result<(), IoFailure>>)
    requires
        answers.len() >= answers_left(relocation.phase),
    ensures
        run(Step::Continue(relocation), answers) is Finished,
    decreases answers.len(),
{
    lemma_step_draws_nearer(relocation, answers[0]);
    match relocation.next(answers[0]) {
        Step::Continue(after) => {
            lemma_run_finishes(after, answers.drop_first());
        },
        Step::Finished(_) => {
            lemma_finished_stays(relocation.next(answers[0]), answers.drop_first());
        },
    }
}

/// The source is removed only in a move, only after the temporary file was
/// renamed to the destination, and as the last action: whatever the answer,
/// the relocation then ends.
pub proof fn lemma_source_is_removed_last(
    relocation: Relocation,
    answer: Result<(), IoFailure>,
    later: Result<(), IoFailure>,
)
    requires
        relocation.next(answer) matches Step::Continue(after) && after.pending() is RemoveSource,
    ensures
        relocation.phase is Placing,
        relocation.mode == Mode::Move,
        answer is Ok,
        relocation.next(answer)->Continue_0.pending() == (Action::RemoveSource {
            path: relocation.from,
        }),
        relocation.next(answer)->Continue_0.next(later) is Finished,
{
}

/// A relocation that has a temporary file does not end in failure with the
/// file left behind: when an action fails, the next action removes the
/// temporary file, and only then the failure is reported. Where it ends at
/// once, it has succeeded, and the temporary file has become the
/// destination.
pub proof fn lemma_temp_is_cleaned_up(
    relocation: Relocation,
    answer: Result<(), IoFailure>,
    later: Result<(), IoFailure>,
)
    requires
        holds_temp(relocation.phase),
    ensures
        match relocation.next(answer) {
            Step::Continue(after) => answer is Err ==> {
                &&& after.pending() == Action::RemoveTemp
                &&& after.next(later) matches Step::Finished(outcome) && outcome.result is Err
            },
            Step::Finished(outcome) => answer is Ok && outcome.result is Ok,
        },
{
}

/// Every rename is asked for with the overwrite policy of the relocation,
/// and a rename that is refused because the destination is there, where it
/// may not be replaced, ends the relocation with `DestinationExists`: at
/// once for the source, and for the temporary file once that was removed.
pub proof fn lemma_existing_destination_is_kept(
    relocation: Relocation,
    failure: IoFailure,
    later: Result<(), IoFailure>,
)
    requires
        relocation.phase is Renaming || relocation.phase is Placing,
        !relocation.overwrite,
        failure.already_exists,
        !is_cross_device(failure, relocation.cross_device_code),
    ensures
        relocation.pending() matches Action::RenameSource { overwrite, .. } ==> !overwrite,
        relocation.pending() matches Action::RenameTemp { overwrite, .. } ==> !overwrite,
        relocation.phase is Renaming ==> relocation.next(Err(failure)) == relocation.ended(
            Err(RelocationError::DestinationExists),
        ),
        relocation.phase is Placing ==> {
            &&& relocation.next(Err(failure)) matches Step::Continue(after)
            &&& after.pending() == Action::RemoveTemp
            &&& later is Ok ==> after.next(later) == relocation.ended(
                Err(RelocationError::DestinationExists),
            )
        },
{
}

/// A move whose actions all succeed creates the parent directory of the
/// destination, renames the source, and ends well.
pub proof fn lemma_move_succeeds(
    from: PathBuf,
    to: PathBuf,
    dir: PathBuf,
    overwrite: bool,
    cross_device_code: i32,
)
    ensures
        ({
            let first = begun(from, to, Some(dir), overwrite, Mode::Move, cross_device_code);
            &&& first matches Step::Continue(one)
            &&& one.pending() == (Action::EnsureParent { dir })
            &&& one.next(Ok(())) matches Step::Continue(two)
            &&& two.pending() == (Action::RenameSource { from, to, overwrite })
            &&& two.next(Ok(())) == Step::Finished(RelocationOutcome { from, to, result: Ok(()) })
        }),
{
}

/// A copy whose actions all succeed creates the parent directory of the
/// destination, fills a temporary file in it, renames that to the
/// destination, and ends well. The source is not touched.
pub proof fn lemma_copy_succeeds(
    from: PathBuf,
    to: PathBuf,
    dir: PathBuf,
    overwrite: bool,
    cross_device_code: i32,
)
    ensures
        ({
            let first = begun(from, to, Some(dir), overwrite, Mode::Copy, cross_device_code);
            &&& first matches Step::Continue(one)
            &&& one.pending() == (Action::EnsureParent { dir })
            &&& one.next(Ok(())) matches Step::Continue(two)
            &&& two.pending() == (Action::CreateTemp { dir })
            &&& two.next(Ok(())) matches Step::Continue(three)
            &&& three.pending() == (Action::CopyToTemp { from })
            &&& three.next(Ok(())) matches Step::Continue(four)
            &&& four.pending() == (Action::RenameTemp { to, overwrite })
            &&& four.next(Ok(())) == Step::Finished(RelocationOutcome { from, to, result: Ok(()) })
        }),
{
}

/// A move across devices goes on as a copy and removes the source last: the
/// rename of the source is answered with the cross-device error, all other
/// actions succeed.
pub proof fn lemma_move_across_devices_succeeds(
    from: PathBuf,
    to: PathBuf,
    dir: PathBuf,
    overwrite: bool,
    failure: IoFailure,
)
    requires
        failure.raw_os_error is Some,
    ensures
        ({
            let code = failure.raw_os_error->Some_0;
            let first = begun(from, to, Some(dir), overwrite, Mode::Move, code);
            &&& first matches Step::Continue(one)
            &&& one.next(Ok(())) matches Step::Continue(two)
            &&& two.next(Err(failure)) matches Step::Continue(three)
            &&& three.pending() == (Action::CreateTemp { dir })
            &&& three.next(Ok(())) matches Step::Continue(four)
            &&& four.pending() == (Action::CopyToTemp { from })
            &&& four.next(Ok(())) matches Step::Continue(five)
            &&& five.pending() == (Action::RenameTemp { to, overwrite })
            &&& five.next(Ok(())) matches Step::Continue(six)
            &&& six.pending() == (Action::RemoveSource { path: from })
            &&& six.next(Ok(())) == Step::Finished(RelocationOutcome { from, to, result: Ok(()) })
        }),
{
}

/// A parent directory that is already there is no failure: the relocation
/// goes on as if the directory had just been created, and it ends at this
/// point only for another failure, which it reports.
pub proof fn lemma_existing_parent_is_no_failure(
    relocation: Relocation,
    answer: Result<(), IoFailure>,
)
    requires
        relocation.phase is EnsuringParent,
    ensures
        parent_is_there(answer) ==> relocation.next(answer) == relocation.next(Ok(())),
        relocation.next(Ok(())) is Continue,
        !parent_is_there(answer) ==> relocation.next(answer) == relocation.ended(
            Err(RelocationError::Io(answer->Err_0)),
        ),
{
}

} // verus!
