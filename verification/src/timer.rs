//! Classification of the running timer relative to one project.

use vstd::prelude::*;

verus! {

/// How the user's running timer relates to the project under evaluation.
#[derive(Clone, Copy, Debug, PartialEq, Eq, Structural)]
pub enum TimerStatus {
    /// A timer is running and belongs to the project.
    Running,
    /// No timer is running.
    NotRunning,
    /// A timer is running, but for a different project.
    RunningForOtherProject,
}

/// The status that follows from the project id of the running timer, if any.
pub open spec fn spec_classify(running_project_id: Option<i32>, project_id: i32) -> TimerStatus {
    match running_project_id {
        None => TimerStatus::NotRunning,
        Some(id) => if id == project_id {
            TimerStatus::Running
        } else {
            TimerStatus::RunningForOtherProject
        },
    }
}

/// Classifies the running timer, given by the id of the project it belongs
/// to (`None` when no timer runs), relative to the project `project_id`.
pub fn classify_timer(running_project_id: Option<i32>, project_id: i32) -> (status: TimerStatus)
    ensures
        status == spec_classify(running_project_id, project_id),
{
    match running_project_id {
        None => TimerStatus::NotRunning,
        Some(id) => {
            if id == project_id {
                TimerStatus::Running
            } else {
                TimerStatus::RunningForOtherProject
            }
        },
    }
}

} // verus!
