//! The desktop notification that a timer status calls for.

use vstd::prelude::*;
use vstd::string::StringExecFns;
use crate::registry::Project;
use crate::timer::TimerStatus;

verus! {

/// A desktop notification.
#[derive(Debug)]
pub struct Notification {
    /// The headline.
    pub summary: String,
    /// The text below the headline.
    pub body: String,
    /// The name of the sound that is played.
    pub sound: String,
}

/// What a notification says.
pub struct NotificationView {
    pub summary: Seq<char>,
    pub body: Seq<char>,
    pub sound: Seq<char>,
}

impl View for Notification {
    type V = NotificationView;

    open spec fn view(&self) -> NotificationView {
        NotificationView { summary: self.summary@, body: self.body@, sound: self.sound@ }
    }
}

/// The headline when no timer is running.
pub const SUMMARY_NOT_RUNNING: &'static str = "Timer not running";

/// The headline when the timer runs for another project.
pub const SUMMARY_OTHER_PROJECT: &'static str = "Timer running for other project";

/// What the body of a reminder says before the project's name.
pub const REMINDER: &'static str = "Start a timer for ";

/// The sound that is played with a notification.
pub const SOUND: &'static str = "Sosumi";

/// The headline for a status, for those that have one: none while the
/// timer runs for the project.
pub open spec fn spec_summary(status: TimerStatus) -> Option<Seq<char>> {
    match status {
        TimerStatus::Running => None,
        TimerStatus::NotRunning => Some(SUMMARY_NOT_RUNNING@),
        TimerStatus::RunningForOtherProject => Some(SUMMARY_OTHER_PROJECT@),
    }
}

/// The notification that reminds of the project named `name`, under the
/// headline `summary`.
pub open spec fn spec_reminder(summary: Seq<char>, name: Seq<char>) -> NotificationView {
    NotificationView { summary, body: REMINDER@ + name, sound: SOUND@ }
}

/// The notification that `status` calls for when a file of the project
/// named `name` has changed: none while the timer runs for the project, one
/// otherwise.
pub open spec fn spec_notification(status: TimerStatus, name: Seq<char>) -> Option<
    NotificationView,
> {
    match spec_summary(status) {
        None => None,
        Some(summary) => Some(spec_reminder(summary, name)),
    }
}

/// The views of an optional notification.
pub open spec fn notification_view(notification: Option<Notification>) -> Option<NotificationView> {
    match notification {
        None => None,
        Some(n) => Some(n@),
    }
}

/// The notification to show for `status` and `project`, if one is to be
/// shown.
pub fn notification_for(status: TimerStatus, project: &Project) -> (notification: Option<
    Notification,
>)
    ensures
        notification_view(notification) == spec_notification(status, project.name@),
        notification is None <==> status == TimerStatus::Running,
{
    let summary = match status {
        TimerStatus::Running => { return None; },
        TimerStatus::NotRunning => SUMMARY_NOT_RUNNING.to_owned(),
        TimerStatus::RunningForOtherProject => SUMMARY_OTHER_PROJECT.to_owned(),
    };
    let mut body = REMINDER.to_owned();
    body.append(project.name.as_str());
    Some(Notification { summary, body, sound: SOUND.to_owned() })
}

/// The notification that tries the desktop's notification surface out,
/// stamped with the text `now`.
pub fn test_notification(now: &str) -> (notification: Notification)
    ensures
        notification@ == (NotificationView {
            summary: "Test notification from clockhand"@,
            body: "This is a test notification at "@ + now@,
            sound: SOUND@,
        }),
{
    let mut body = "This is a test notification at ".to_owned();
    body.append(now);
    Notification {
        summary: "Test notification from clockhand".to_owned(),
        body,
        sound: SOUND.to_owned(),
    }
}

} // verus!
