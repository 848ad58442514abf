//! Moving or copying one file to its destination, as a protocol of small
//! steps. The library decides what is done next; whoever drives it carries
//! each action out on the file system and answers with the result.
//!
//! The destination appears under its final name only through a rename, which
//! replaces a file that is already there only where that was allowed. A file
//! is never written under its final name, and the source is removed only
//! once the destination is in place.

use crate::outside::{parent_of, path_parent};
use crate::types::Config;
use std::path::PathBuf;
use vstd::prelude::*;
use vstd::string::StringExecFns;

pub mod laws;

verus! {

/// Whether the source is to be gone afterwards.
#[derive(Clone, Copy, Debug, PartialEq, Eq, Structural)]
pub enum Mode {
    Move,
    Copy,
}

/// How the operating system refused an action.
#[derive(Clone, Debug, PartialEq, Eq)]
pub struct IoFailure {
    /// The error number of the operating system, if there was one.
    pub raw_os_error: Option<i32>,
    /// Whether the refusal says that the destination is already there.
    pub already_exists: bool,
    /// The refusal in words.
    pub message: String,
}

/// Why a relocation failed.
#[derive(Clone, Debug, PartialEq, Eq)]
pub enum RelocationError {
    /// The destination has no parent directory.
    RootRefusal,
    /// The destination is already there and may not be replaced.
    DestinationExists,
    /// The operating system refused an action.
    Io(IoFailure),
    /// Source and destination are on different devices, and the operating
    /// system refused an action of the copy that was made in place of the
    /// rename.
    CrossDeviceCopy(IoFailure),
}

impl RelocationError {
    /// The error in words, for a relocation in the given mode.
    pub open spec fn text(self, mode: Mode) -> Seq<char> {
        match self {
            RelocationError::RootRefusal => match mode {
                Mode::Move => "refusing to move to filesystem root"@,
                Mode::Copy => "refusing to copy to filesystem root"@,
            },
            RelocationError::DestinationExists => "destination exists"@,
            RelocationError::Io(failure) => failure.message@,
            RelocationError::CrossDeviceCopy(failure) => "copy across devices failed: "@
                + failure.message@,
        }
    }

    /// The error in words, for a relocation in the given mode.
    pub fn message(&self, mode: Mode) -> (r: String)
        ensures
            r@ == self.text(mode),
    {
        match self {
            RelocationError::RootRefusal => match mode {
                Mode::Move => "refusing to move to filesystem root".to_owned(),
                Mode::Copy => "refusing to copy to filesystem root".to_owned(),
            },
            RelocationError::DestinationExists => "destination exists".to_owned(),
            RelocationError::Io(failure) => failure.message.clone(),
            RelocationError::CrossDeviceCopy(failure) => {
                let mut text = "copy across devices failed: ".to_owned();
                text.append(failure.message.as_str());
                text
            },
        }
    }
}

/// How a relocation ended.
#[derive(Debug, PartialEq, Eq)]
pub struct RelocationOutcome {
    pub from: PathBuf,
    pub to: PathBuf,
    pub result: Result<(), RelocationError>,
}

/// One thing to do on the file system.
#[derive(Clone, Debug, PartialEq, Eq)]
pub enum Action {
    /// Create the directory `dir` and every directory above it that is
    /// missing. That a directory is already there is no failure; an answer
    /// that reports it as one is taken for success.
    EnsureParent { dir: PathBuf },
    /// Rename `from` to `to` in one atomic step. Where `overwrite` is
    /// false, fail if `to` is already there.
    RenameSource { from: PathBuf, to: PathBuf, overwrite: bool },
    /// Create a new, empty temporary file in the directory `dir`.
    CreateTemp { dir: PathBuf },
    /// Copy the content of `from` into the temporary file.
    CopyToTemp { from: PathBuf },
    /// Rename the temporary file to `to` in one atomic step. Where
    /// `overwrite` is false, fail if `to` is already there.
    RenameTemp { to: PathBuf, overwrite: bool },
    /// Remove the temporary file.
    RemoveTemp,
    /// Remove the file `path`, the source of a move.
    RemoveSource { path: PathBuf },
}

/// Which answer a relocation is waiting for.
#[derive(Debug, PartialEq, Eq)]
pub enum Phase {
    /// The parent directory of the destination is being created.
    EnsuringParent,
    /// The source is being renamed to the destination.
    Renaming,
    /// The temporary file is being created.
    CreatingTemp,
    /// The source is being copied into the temporary file.
    Copying,
    /// The temporary file is being renamed to the destination.
    Placing,
    /// The destination is in place and the source is being removed.
    RemovingSource,
    /// An action has failed and the temporary file is being removed.
    /// `cause` is what failed; `report_cleanup` says whether a failure to
    /// remove the temporary file is reported in its place.
    CleaningUp { cause: RelocationError, report_cleanup: bool },
}

/// A relocation that is under way.
#[derive(Debug, PartialEq, Eq)]
pub struct Relocation {
    pub from: PathBuf,
    pub to: PathBuf,
    /// The parent directory of `to`.
    pub parent: PathBuf,
    pub overwrite: bool,
    pub mode: Mode,
    /// The error number by which the operating system says that source and
    /// destination of a rename are on different devices.
    pub cross_device_code: i32,
    pub phase: Phase,
}

/// Where a relocation stands after an answer.
#[derive(Debug, PartialEq, Eq)]
pub enum Step {
    /// There is more to do: the action of the relocation.
    Continue(Relocation),
    /// The relocation has ended.
    Finished(RelocationOutcome),
}

/// Whether `failure` says that a rename would have crossed devices.
pub open spec fn is_cross_device(failure: IoFailure, cross_device_code: i32) -> bool {
    failure.raw_os_error == Some(cross_device_code)
}

/// The error for an action that failed in the relocation's plain course, or
/// in the copy that stands in for a rename across devices.
pub open spec fn failed(failure: IoFailure, mode: Mode) -> RelocationError {
    match mode {
        Mode::Move => RelocationError::CrossDeviceCopy(failure),
        Mode::Copy => RelocationError::Io(failure),
    }
}

/// The error for a rename of the temporary file that failed: that the
/// destination is there where it may not be replaced, or else `failed`.
pub open spec fn placing_failed(failure: IoFailure, overwrite: bool, mode: Mode) -> RelocationError {
    if failure.already_exists && !overwrite {
        RelocationError::DestinationExists
    } else {
        failed(failure, mode)
    }
}

/// The error for a rename of the source that failed for another reason than
/// that it would have crossed devices.
pub open spec fn renaming_failed(failure: IoFailure, overwrite: bool) -> RelocationError {
    if failure.already_exists && !overwrite {
        RelocationError::DestinationExists
    } else {
        RelocationError::Io(failure)
    }
}

/// Whether the parent directory is there once its creation was answered by
/// `answer`: the creation went well, or it was refused because the
/// directory, which another relocation may have created meanwhile, is
/// already there.
pub open spec fn parent_is_there(answer: Result<(), IoFailure>) -> bool {
    match answer {
        Ok(_) => true,
        Err(failure) => failure.already_exists,
    }
}

/// The start of a relocation of `from` to `to`, whose parent directory is
/// `parent`: refused where there is no parent, and else begun by creating
/// the parent.
pub open spec fn begun(
    from: PathBuf,
    to: PathBuf,
    parent: Option<PathBuf>,
    overwrite: bool,
    mode: Mode,
    cross_device_code: i32,
) -> Step {
    match parent {
        None => Step::Finished(
            RelocationOutcome { from, to, result: Err(RelocationError::RootRefusal) },
        ),
        Some(dir) => Step::Continue(
            Relocation {
                from,
                to,
                parent: dir,
                overwrite,
                mode,
                cross_device_code,
                phase: Phase::EnsuringParent,
            },
        ),
    }
}

impl Relocation {
    /// This relocation in another phase.
    pub open spec fn in_phase(self, phase: Phase) -> Relocation {
        Relocation {
            from: self.from,
            to: self.to,
            parent: self.parent,
            overwrite: self.overwrite,
            mode: self.mode,
            cross_device_code: self.cross_device_code,
            phase,
        }
    }

    /// This relocation ended with `result`.
    pub open spec fn ended(self, result: Result<(), RelocationError>) -> Step {
        Step::Finished(RelocationOutcome { from: self.from, to: self.to, result })
    }

    /// The action that this relocation is waiting for.
    pub open spec fn pending(self) -> Action {
        match self.phase {
            Phase::EnsuringParent => Action::EnsureParent { dir: self.parent },
            Phase::Renaming => Action::RenameSource {
                from: self.from,
                to: self.to,
                overwrite: self.overwrite,
            },
            Phase::CreatingTemp => Action::CreateTemp { dir: self.parent },
            Phase::Copying => Action::CopyToTemp { from: self.from },
            Phase::Placing => Action::RenameTemp { to: self.to, overwrite: self.overwrite },
            Phase::RemovingSource => Action::RemoveSource { path: self.from },
            Phase::CleaningUp { .. } => Action::RemoveTemp,
        }
    }

    /// Where this relocation stands once its action was answered by
    /// `answer`.
    pub open spec fn next(self, answer: Result<(), IoFailure>) -> Step {
        match self.phase {
            Phase::EnsuringParent => if parent_is_there(answer) {
                match self.mode {
                    Mode::Move => Step::Continue(self.in_phase(Phase::Renaming)),
                    Mode::Copy => Step::Continue(self.in_phase(Phase::CreatingTemp)),
                }
            } else {
                self.ended(Err(RelocationError::Io(answer->Err_0)))
            },
            Phase::Renaming => match answer {
                Ok(_) => self.ended(Ok(())),
                Err(failure) => if is_cross_device(failure, self.cross_device_code) {
                    Step::Continue(self.in_phase(Phase::CreatingTemp))
                } else {
                    self.ended(Err(renaming_failed(failure, self.overwrite)))
                },
            },
            Phase::CreatingTemp => match answer {
                Ok(_) => Step::Continue(self.in_phase(Phase::Copying)),
                Err(failure) => self.ended(Err(failed(failure, self.mode))),
            },
            Phase::Copying => match answer {
                Ok(_) => Step::Continue(self.in_phase(Phase::Placing)),
                Err(failure) => Step::Continue(
                    self.in_phase(
                        Phase::CleaningUp {
                            cause: failed(failure, self.mode),
                            report_cleanup: false,
                        },
                    ),
                ),
            },
            Phase::Placing => match answer {
                Ok(_) => match self.mode {
                    Mode::Move => Step::Continue(self.in_phase(Phase::RemovingSource)),
                    Mode::Copy => self.ended(Ok(())),
                },
                Err(failure) => Step::Continue(
                    self.in_phase(
                        Phase::CleaningUp {
                            cause: placing_failed(failure, self.overwrite, self.mode),
                            report_cleanup: true,
                        },
                    ),
                ),
            },
            Phase::RemovingSource => match answer {
                Ok(_) => self.ended(Ok(())),
                Err(failure) => self.ended(Err(RelocationError::CrossDeviceCopy(failure))),
            },
            Phase::CleaningUp { cause, report_cleanup } => match answer {
                Ok(_) => self.ended(Err(cause)),
                Err(failure) => if report_cleanup {
                    self.ended(Err(failed(failure, self.mode)))
                } else {
                    self.ended(Err(cause))
                },
            },
        }
    }

    /// The action to carry out now.
    pub fn action(&self) -> (r: Action)
        ensures
            r == self.pending(),
    {
        match &self.phase {
            Phase::EnsuringParent => Action::EnsureParent { dir: self.parent.clone() },
            Phase::Renaming => Action::RenameSource {
                from: self.from.clone(),
                to: self.to.clone(),
                overwrite: self.overwrite,
            },
            Phase::CreatingTemp => Action::CreateTemp { dir: self.parent.clone() },
            Phase::Copying => Action::CopyToTemp { from: self.from.clone() },
            Phase::Placing => Action::RenameTemp { to: self.to.clone(), overwrite: self.overwrite },
            Phase::RemovingSource => Action::RemoveSource { path: self.from.clone() },
            Phase::CleaningUp { .. } => Action::RemoveTemp,
        }
    }

    /// Takes the answer to the action and decides how to go on.
    pub fn step(self, answer: Result<(), IoFailure>) -> (r: Step)
        ensures
            r == self.next(answer),
    {
        let Relocation { from, to, parent, overwrite, mode, cross_device_code, phase } = self;
        let next_phase: Result<Phase, Result<(), RelocationError>> = match phase {
            Phase::EnsuringParent => match answer {
                Err(failure) if !failure.already_exists => Err(Err(RelocationError::Io(failure))),
                _ => match mode {
                    Mode::Move => Ok(Phase::Renaming),
                    Mode::Copy => Ok(Phase::CreatingTemp),
                },
            },
            Phase::Renaming => match answer {
                Ok(_) => Err(Ok(())),
                Err(failure) => if crosses_devices(&failure, cross_device_code) {
                    Ok(Phase::CreatingTemp)
                } else {
                    Err(Err(rename_error(failure, overwrite, None)))
                },
            },
            Phase::CreatingTemp => match answer {
                Ok(_) => Ok(Phase::Copying),
                Err(failure) => Err(Err(step_error(failure, mode))),
            },
            Phase::Copying => match answer {
                Ok(_) => Ok(Phase::Placing),
                Err(failure) => Ok(
                    Phase::CleaningUp { cause: step_error(failure, mode), report_cleanup: false },
                ),
            },
            Phase::Placing => match answer {
                Ok(_) => match mode {
                    Mode::Move => Ok(Phase::RemovingSource),
                    Mode::Copy => Err(Ok(())),
                },
                Err(failure) => Ok(
                    Phase::CleaningUp {
                        cause: rename_error(failure, overwrite, Some(mode)),
                        report_cleanup: true,
                    },
                ),
            },
            Phase::RemovingSource => match answer {
                Ok(_) => Err(Ok(())),
                Err(failure) => Err(Err(RelocationError::CrossDeviceCopy(failure))),
            },
            Phase::CleaningUp { cause, report_cleanup } => match answer {
                Ok(_) => Err(Err(cause)),
                Err(failure) => if report_cleanup {
                    Err(Err(step_error(failure, mode)))
                } else {
                    Err(Err(cause))
                },
            },
        };
        match next_phase {
            Ok(phase) => Step::Continue(
                Relocation { from, to, parent, overwrite, mode, cross_device_code, phase },
            ),
            Err(result) => Step::Finished(RelocationOutcome { from, to, result }),
        }
    }
}

/// Whether `failure` says that a rename would have crossed devices.
pub fn crosses_devices(failure: &IoFailure, cross_device_code: i32) -> (r: bool)
    ensures
        r == is_cross_device(*failure, cross_device_code),
{
    match failure.raw_os_error {
        Some(code) => code == cross_device_code,
        None => false,
    }
}

/// The error for an action that failed.
fn step_error(failure: IoFailure, mode: Mode) -> (r: RelocationError)
    ensures
        r == failed(failure, mode),
{
    match mode {
        Mode::Move => RelocationError::CrossDeviceCopy(failure),
        Mode::Copy => RelocationError::Io(failure),
    }
}

/// The error for a rename that failed: of the source where `copying` is
/// `None`, and else of the temporary file.
fn rename_error(failure: IoFailure, overwrite: bool, copying: Option<Mode>) -> (r: RelocationError)
    ensures
        r == match copying {
            Some(mode) => placing_failed(failure, overwrite, mode),
            None => renaming_failed(failure, overwrite),
        },
{
    if failure.already_exists && !overwrite {
        RelocationError::DestinationExists
    } else {
        match copying {
            Some(mode) => step_error(failure, mode),
            None => RelocationError::Io(failure),
        }
    }
}

/// Starts the relocation of `from` to `to`, whose parent directory is
/// `parent`.
pub fn start_with_parent(
    from: PathBuf,
    to: PathBuf,
    parent: Option<PathBuf>,
    overwrite: bool,
    mode: Mode,
    cross_device_code: i32,
) -> (r: Step)
    ensures
        r == begun(from, to, parent, overwrite, mode, cross_device_code),
{
    match parent {
        None => Step::Finished(
            RelocationOutcome { from, to, result: Err(RelocationError::RootRefusal) },
        ),
        Some(dir) => Step::Continue(
            Relocation {
                from,
                to,
                parent: dir,
                overwrite,
                mode,
                cross_device_code,
                phase: Phase::EnsuringParent,
            },
        ),
    }
}

/// Starts the relocation of `from` to `to`.
pub fn start(from: PathBuf, to: PathBuf, overwrite: bool, mode: Mode, cross_device_code: i32) -> (r:
    Step)
    ensures
        r == begun(from, to, path_parent(to), overwrite, mode, cross_device_code),
{
    let parent = parent_of(&to);
    start_with_parent(from, to, parent, overwrite, mode, cross_device_code)
}

/// Starts the move of `from` to `to`. Where their parent directories are on
/// different devices, which the operating system reports by the error number
/// `cross_device_code`, the move goes on as a copy, after which the source is
/// removed.
pub fn rename_creating_dirs(from: PathBuf, to: PathBuf, overwrite: bool, cross_device_code: i32) -> (r:
    Step)
    ensures
        r == begun(from, to, path_parent(to), overwrite, Mode::Move, cross_device_code),
{
    start(from, to, overwrite, Mode::Move, cross_device_code)
}

/// Starts the copy of `from` to `to`. A copy never renames the source, so
/// that no error number for a rename across devices is looked at; the
/// relocation holds zero for it.
pub fn copy_creating_dirs(from: PathBuf, to: PathBuf, overwrite: bool) -> (r: Step)
    ensures
        r == begun(from, to, path_parent(to), overwrite, Mode::Copy, 0),
{
    start(from, to, overwrite, Mode::Copy, 0)
}

/// What is to be done with the file `from`, whose final name is `to`: in a
/// dry run nothing, and else a copy or a move as `cfg` says.
pub open spec fn handled(cfg: Config, from: PathBuf, to: PathBuf, cross_device_code: i32) -> Step {
    if cfg.dry_run {
        Step::Finished(RelocationOutcome { from, to, result: Ok(()) })
    } else if cfg.copy {
        begun(from, to, path_parent(to), cfg.overwrite, Mode::Copy, 0)
    } else {
        begun(from, to, path_parent(to), cfg.overwrite, Mode::Move, cross_device_code)
    }
}

/// Starts what is to be done with the file `from`, whose final name is `to`.
pub fn handle_file(cfg: &Config, from: PathBuf, to: PathBuf, cross_device_code: i32) -> (r: Step)
    ensures
        r == handled(*cfg, from, to, cross_device_code),
{
    if !cfg.dry_run {
        if cfg.copy {
            copy_creating_dirs(from, to, cfg.overwrite)
        } else {
            rename_creating_dirs(from, to, cfg.overwrite, cross_device_code)
        }
    } else {
        Step::Finished(RelocationOutcome { from, to, result: Ok(()) })
    }
}

} // verus!
