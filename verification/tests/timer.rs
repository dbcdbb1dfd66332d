use clockhand::errors::ErrorKind;
use clockhand::timer::{classify_timer, TimerStatus};

#[test]
fn no_running_timer_is_not_running() {
    assert_eq!(classify_timer(None, 42), TimerStatus::NotRunning);
}

#[test]
fn timer_of_the_project_is_running() {
    assert_eq!(classify_timer(Some(42), 42), TimerStatus::Running);
    assert_eq!(classify_timer(Some(-1), -1), TimerStatus::Running);
}

#[test]
fn timer_of_another_project_is_running_for_other_project() {
    assert_eq!(classify_timer(Some(42), 99), TimerStatus::RunningForOtherProject);
    assert_eq!(classify_timer(Some(0), 1), TimerStatus::RunningForOtherProject);
}

#[test]
fn startup_failures_and_a_lost_subscription_are_fatal() {
    assert!(ErrorKind::ConfigNotFound.is_fatal());
    assert!(ErrorKind::ConfigMalformed.is_fatal());
    assert!(ErrorKind::ProjectRootMissing.is_fatal());
    assert!(ErrorKind::WatchSubscriptionLost.is_fatal());
}

#[test]
fn failed_query_and_refused_notification_are_not_fatal() {
    assert!(!ErrorKind::RemoteQueryFailed.is_fatal());
    assert!(!ErrorKind::NotificationDeliveryFailed.is_fatal());
}
