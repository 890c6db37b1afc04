//! Persisting the cache so that a reader of the file sees an old version or a
//! new one whole, never a part of one.
//!
//! The whole cache is written to a temporary file beside the target, and the
//! temporary file is then renamed over the target. The steps are taken
//! elsewhere; here it is decided which step follows which outcome, what is
//! cleaned up, and what the caller is told.

use crate::cache::{Cache, CacheError};
use crate::stored::{is_persisted_form, CacheData};
use crate::error::RkitError;
use vstd::prelude::*;
use vstd::string::StringExecFns;

verus! {

/// The temporary file that belongs to `target`.
pub open spec fn temp_path_of(target: Seq<char>) -> Seq<char> {
    target + ".tmp"@
}

/// What is to be written, and where.
#[derive(Debug)]
pub struct SavePlan {
    /// The file that holds the cache in the end.
    pub target: String,
    /// The file that is written first.
    pub temp: String,
    /// The whole cache in its persisted form.
    pub data: CacheData,
}

/// The steps of a save, in their order.
#[derive(Clone, Copy, Debug, PartialEq, Eq, Structural)]
pub enum SaveStep {
    /// Make sure that the target's directory exists.
    CreateDir,
    /// Turn the data into text.
    Serialize,
    /// Write the text to the temporary file.
    WriteTemp,
    /// Rename the temporary file over the target.
    Rename,
}

/// Why a step failed.
#[derive(Debug)]
pub struct StepError {
    /// The path that the step worked on.
    pub path: String,
    /// The failure in words.
    pub reason: String,
}

/// What follows a step.
#[derive(Debug)]
pub enum SaveAction {
    /// Take this step next.
    Run(SaveStep),
    /// The save is over. Remove the temporary file first where that is asked
    /// for, then report the result.
    Finish { remove_temp: bool, result: Result<(), CacheError> },
}

/// The step that follows `step` when it succeeds, if any does.
pub open spec fn step_after(step: SaveStep) -> Option<SaveStep> {
    match step {
        SaveStep::CreateDir => Some(SaveStep::Serialize),
        SaveStep::Serialize => Some(SaveStep::WriteTemp),
        SaveStep::WriteTemp => Some(SaveStep::Rename),
        SaveStep::Rename => None,
    }
}

/// Whether a failure of `step` may leave a temporary file behind.
pub open spec fn leaves_temp(step: SaveStep) -> bool {
    step == SaveStep::WriteTemp || step == SaveStep::Rename
}

impl Cache {
    /// What has to be written to persist the cache as it stands: all of it,
    /// first to the temporary file, then under the cache's own path.
    pub fn save(&self) -> (plan: SavePlan)
        ensures
            plan.target@ == self.location(),
            plan.temp@ == temp_path_of(self.location()),
            is_persisted_form(plan.data, self@),
    {
        let target = self.cache_path().to_owned();
        let temp = self.cache_path().to_owned().concat(".tmp");
        SavePlan { target, temp, data: self.to_data() }
    }
}

/// The step a save begins with.
pub fn first_step() -> (step: SaveStep)
    ensures
        step == SaveStep::CreateDir,
{
    SaveStep::CreateDir
}

/// Decides what follows `step`, given how it ended.
///
/// After a success the next step is taken, and after the last the save has
/// succeeded. A failure ends the save with an error that names the cause; the
/// temporary file is removed exactly where the failed step may have left one.
pub fn after_step(step: SaveStep, outcome: Result<(), StepError>) -> (action: SaveAction)
    ensures
        match outcome {
            Ok(_) => match step_after(step) {
                Some(next) => action matches SaveAction::Run(s) && s == next,
                None => action matches SaveAction::Finish { remove_temp, result } && !remove_temp
                    && result is Ok,
            },
            Err(e) => {
                &&& action matches SaveAction::Finish { remove_temp, result }
                &&& remove_temp == leaves_temp(step)
                &&& match step {
                    SaveStep::CreateDir => result matches Err(
                        CacheError::DirectoryError(
                            RkitError::DirectoryCreationError { path, source },
                        ),
                    ) && path == e.path && source == e.reason,
                    SaveStep::Serialize => result matches Err(CacheError::ParseError(msg)) && msg
                        == e.reason,
                    SaveStep::WriteTemp => result matches Err(CacheError::IoError(msg)) && msg
                        == e.reason,
                    SaveStep::Rename => result matches Err(CacheError::IoError(msg)) && msg
                        == e.reason,
                }
            },
        },
{
    match outcome {
        Ok(_) => match step {
            SaveStep::CreateDir => SaveAction::Run(SaveStep::Serialize),
            SaveStep::Serialize => SaveAction::Run(SaveStep::WriteTemp),
            SaveStep::WriteTemp => SaveAction::Run(SaveStep::Rename),
            SaveStep::Rename => SaveAction::Finish { remove_temp: false, result: Ok(()) },
        },
        Err(e) => match step {
            SaveStep::CreateDir => SaveAction::Finish {
                remove_temp: false,
                result: Err(
                    CacheError::DirectoryError(
                        RkitError::DirectoryCreationError { path: e.path, source: e.reason },
                    ),
                ),
            },
            SaveStep::Serialize => SaveAction::Finish {
                remove_temp: false,
                result: Err(CacheError::ParseError(e.reason)),
            },
            SaveStep::WriteTemp => SaveAction::Finish {
                remove_temp: true,
                result: Err(CacheError::IoError(e.reason)),
            },
            SaveStep::Rename => SaveAction::Finish {
                remove_temp: true,
                result: Err(CacheError::IoError(e.reason)),
            },
        },
    }
}

} // verus!
