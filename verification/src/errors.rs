//! The kinds of failure, and which of them end the process.

use vstd::prelude::*;
use vstd::string::StringExecFns;

verus! {

/// How to create a project descriptor, as a missing one is answered.
pub const DESCRIPTOR_STEPS: &'static str =
    "\n\n1. Create a file at this path with the following contents:\n   {\"harvest_project_id\": 12345, \"name\": \"My project\"}\n";

/// What can go wrong while projects are loaded and watched.
#[derive(Clone, Copy, Debug, PartialEq, Eq, Structural)]
pub enum ErrorKind {
    /// A project descriptor file is missing.
    ConfigNotFound,
    /// A project descriptor does not have the expected shape.
    ConfigMalformed,
    /// The path of a descriptor gives no directory that could be the
    /// project's root: neither the root directory nor one with a name.
    ProjectRootMissing,
    /// The time-tracking service could not be queried.
    RemoteQueryFailed,
    /// The desktop refused a notification.
    NotificationDeliveryFailed,
    /// The subscription to file changes is lost.
    WatchSubscriptionLost,
}

impl ErrorKind {
    /// Whether the process must stop on this failure. Failures at startup
    /// and the loss of the watch subscription are fatal; a failed query or
    /// notification is reported and the watch goes on.
    pub open spec fn spec_is_fatal(self) -> bool {
        !(self == ErrorKind::RemoteQueryFailed || self == ErrorKind::NotificationDeliveryFailed)
    }

    /// Whether the process must stop on this failure.
    pub fn is_fatal(&self) -> (fatal: bool)
        ensures
            fatal == self.spec_is_fatal(),
    {
        match self {
            ErrorKind::RemoteQueryFailed => false,
            ErrorKind::NotificationDeliveryFailed => false,
            _ => true,
        }
    }

    /// What the user is told of this failure. `subject` is the path of the
    /// descriptor for a failure at startup; the other failures do not speak
    /// of it. A missing descriptor is answered with how to create one.
    pub open spec fn spec_message(self, subject: Seq<char>) -> Seq<char> {
        match self {
            ErrorKind::ConfigNotFound => "didn't find the project config file at "@ + subject
                + DESCRIPTOR_STEPS@,
            ErrorKind::ConfigMalformed => "bad format for "@ + subject,
            ErrorKind::ProjectRootMissing => "failed to find the project directory of "@ + subject,
            ErrorKind::RemoteQueryFailed => "failed to query the running timer"@,
            ErrorKind::NotificationDeliveryFailed => "failed to show the notification"@,
            ErrorKind::WatchSubscriptionLost => "lost the subscription to file changes"@,
        }
    }

    /// What the user is told of this failure.
    pub fn message(&self, subject: &str) -> (text: String)
        ensures
            text@ == self.spec_message(subject@),
    {
        match self {
            ErrorKind::ConfigNotFound => {
                let mut text = "didn't find the project config file at ".to_owned();
                text.append(subject);
                text.append(DESCRIPTOR_STEPS);
                text
            },
            ErrorKind::ConfigMalformed => {
                let mut text = "bad format for ".to_owned();
                text.append(subject);
                text
            },
            ErrorKind::ProjectRootMissing => {
                let mut text = "failed to find the project directory of ".to_owned();
                text.append(subject);
                text
            },
            ErrorKind::RemoteQueryFailed => "failed to query the running timer".to_owned(),
            ErrorKind::NotificationDeliveryFailed => "failed to show the notification".to_owned(),
            ErrorKind::WatchSubscriptionLost => "lost the subscription to file changes".to_owned(),
        }
    }
}

} // verus!
