//! The watch loop as a state machine: what to do on each event, and in which
//! state that leaves the loop.
//!
//! The loop that waits for events, queries the time-tracking service and
//! shows notifications runs elsewhere; it hands each event to
//! [`WatchLoop::step`] and performs the action that comes back.

use vstd::prelude::*;
use crate::debounce::{lemma_burst_fires_at_most_once, DebounceState, DEFAULT_INTERVAL_SECS};
use crate::errors::ErrorKind;
use crate::notification::{notification_for, spec_notification, Notification, NotificationView};
use crate::registry::{is_first_owner, is_unowned, Project, ProjectRegistry};
use crate::timer::{classify_timer, spec_classify, TimerStatus};

verus! {

/// What the `watch` command is given.
#[derive(Debug)]
pub struct WatchArgs {
    /// The paths of the project descriptors to watch.
    pub project_config_paths: Vec<String>,
    /// The interval, in seconds, at which notifications occur at most.
    pub interval: u64,
}

impl WatchArgs {
    /// The arguments for watching `project_config_paths` at the default
    /// interval.
    pub fn new(project_config_paths: Vec<String>) -> (args: WatchArgs)
        ensures
            args.project_config_paths == project_config_paths,
            args.interval == DEFAULT_INTERVAL_SECS,
    {
        WatchArgs { project_config_paths, interval: DEFAULT_INTERVAL_SECS }
    }
}

/// Where the loop stands between two events. A change that the cooldown
/// window drops leaves the loop idle.
#[derive(Clone, Copy, Debug, PartialEq, Eq, Structural)]
pub enum LoopState {
    /// Waiting for a file change.
    Idle,
    /// Waiting for the timer status of the project at this position in the
    /// registry.
    Checking { project: usize },
    /// The loop has ended.
    Stopped,
}

/// What can happen to the loop.
#[derive(Debug)]
pub enum LoopEvent {
    /// A file changed at the time `now`; `path` is its path, if the change
    /// came with one.
    FileChanged { path: Option<String>, now: u128 },
    /// The time-tracking service answered: the user's running timer
    /// belongs to the project with this identifier, or no timer is running.
    TimerQueried { running_project: Option<i32> },
    /// The time-tracking service could not be queried.
    QueryFailed,
    /// The desktop refused the notification.
    NotificationRefused,
    /// The subscription to file changes is lost.
    SubscriptionLost,
}

/// What the loop is to do after an event.
#[derive(Debug)]
pub enum LoopAction {
    /// The change came within the cooldown window and is dropped.
    Debounced,
    /// No project owns the changed file; the change is dropped.
    Unowned,
    /// Query the timer status for the project at this position.
    QueryTimer { project: usize },
    /// The timer runs for the project: there is nothing to show.
    OnTrack,
    /// Show this notification.
    Notify(Notification),
    /// Report this failure and go on.
    Report(ErrorKind),
    /// Report this failure and end the process.
    Exit(ErrorKind),
    /// The event has no meaning in the loop's state and is passed over.
    Unexpected,
}

/// An action, with the notification it may hold as a view.
pub enum ActionView {
    Debounced,
    Unowned,
    QueryTimer { project: usize },
    OnTrack,
    Notify(NotificationView),
    Report(ErrorKind),
    Exit(ErrorKind),
    Unexpected,
}

impl View for LoopAction {
    type V = ActionView;

    open spec fn view(&self) -> ActionView {
        match *self {
            LoopAction::Debounced => ActionView::Debounced,
            LoopAction::Unowned => ActionView::Unowned,
            LoopAction::QueryTimer { project } => ActionView::QueryTimer { project },
            LoopAction::OnTrack => ActionView::OnTrack,
            LoopAction::Notify(notification) => ActionView::Notify(notification@),
            LoopAction::Report(kind) => ActionView::Report(kind),
            LoopAction::Exit(kind) => ActionView::Exit(kind),
            LoopAction::Unexpected => ActionView::Unexpected,
        }
    }
}

/// The loop as contracts see it.
pub struct WatchLoopView {
    /// The registered projects, in order.
    pub projects: Seq<Project>,
    /// The shared cooldown window.
    pub debounce: DebounceState,
    /// Where the loop stands.
    pub state: LoopState,
}

/// The position of the first of `projects` that owns the file at `path`, if
/// the change came with a path and a project owns it.
pub open spec fn spec_owner(projects: Seq<Project>, path: Option<String>) -> Option<usize> {
    match path {
        None => None,
        Some(p) => if is_unowned(projects, p@) {
            None
        } else {
            Some(choose|index: usize| is_first_owner(projects, p@, index as int))
        },
    }
}

impl WatchLoopView {
    /// A loop that waits for a project's timer status waits for a
    /// registered project.
    pub open spec fn wf(self) -> bool {
        self.state matches LoopState::Checking { project } ==> project < self.projects.len()
    }

    /// The loop in another state, all else the same.
    pub open spec fn moved_to(self, state: LoopState) -> WatchLoopView {
        WatchLoopView { state, ..self }
    }

    /// What a file change at `now` leads to while the loop is idle. A
    /// change within the cooldown window is dropped. Any other change
    /// restarts the window, whether or not a project owns the file; if one
    /// does, its timer status is asked for.
    pub open spec fn on_file_changed(self, path: Option<String>, now: u128) -> (
        WatchLoopView,
        ActionView,
    ) {
        if !self.debounce.accepts(now) {
            (self, ActionView::Debounced)
        } else {
            let debounce = self.debounce.after(now);
            match spec_owner(self.projects, path) {
                None => (WatchLoopView { debounce, ..self }, ActionView::Unowned),
                Some(project) => (
                    WatchLoopView { debounce, state: LoopState::Checking { project }, ..self },
                    ActionView::QueryTimer { project },
                ),
            }
        }
    }

    /// What the answer of the time-tracking service leads to while the loop
    /// waits for the status of the project at `project`: back to idle, with
    /// a notification unless the timer runs for that project.
    pub open spec fn on_timer_queried(self, project: usize, running_project: Option<i32>) -> (
        WatchLoopView,
        ActionView,
    ) {
        let owner = self.projects[project as int];
        let status = spec_classify(running_project, owner.harvest_project_id);
        let action = match spec_notification(status, owner.name@) {
            None => ActionView::OnTrack,
            Some(notification) => ActionView::Notify(notification),
        };
        (self.moved_to(LoopState::Idle), action)
    }

    /// The loop after `event`, and the action that `event` calls for.
    pub open spec fn spec_step(self, event: LoopEvent) -> (WatchLoopView, ActionView) {
        match (self.state, event) {
            (LoopState::Stopped, _) => (self, ActionView::Unexpected),
            (_, LoopEvent::SubscriptionLost) => (
                self.moved_to(LoopState::Stopped),
                ActionView::Exit(ErrorKind::WatchSubscriptionLost),
            ),
            (_, LoopEvent::NotificationRefused) => (
                self,
                ActionView::Report(ErrorKind::NotificationDeliveryFailed),
            ),
            (LoopState::Idle, LoopEvent::FileChanged { path, now }) => self.on_file_changed(
                path,
                now,
            ),
            (
                LoopState::Checking { project },
                LoopEvent::TimerQueried { running_project },
            ) => self.on_timer_queried(project, running_project),
            (LoopState::Checking { project }, LoopEvent::QueryFailed) => (
                self.moved_to(LoopState::Idle),
                ActionView::Report(ErrorKind::RemoteQueryFailed),
            ),
            _ => (self, ActionView::Unexpected),
        }
    }
}

/// The watch loop: the registered projects, the shared cooldown window and
/// the state between two events.
#[derive(Debug)]
pub struct WatchLoop {
    registry: ProjectRegistry,
    debounce: DebounceState,
    state: LoopState,
}

impl View for WatchLoop {
    type V = WatchLoopView;

    closed spec fn view(&self) -> WatchLoopView {
        WatchLoopView {
            projects: self.registry.projects@,
            debounce: self.debounce,
            state: self.state,
        }
    }
}

impl WatchLoop {
    #[verifier::type_invariant]
    spec fn checks_a_registered_project(self) -> bool {
        self@.wf()
    }

    /// An idle loop over the projects of `registry` that lets the first
    /// change through and then at most one every `interval_secs` seconds.
    pub fn new(registry: ProjectRegistry, interval_secs: u64) -> (watch: WatchLoop)
        ensures
            watch@.projects == registry.projects@,
            watch@.debounce.last_fired is None,
            watch@.debounce.interval == interval_secs * crate::debounce::NANOS_PER_SECOND,
            watch@.state == LoopState::Idle,
            watch@.wf(),
    {
        WatchLoop { registry, debounce: DebounceState::new(interval_secs), state: LoopState::Idle }
    }

    /// Where the loop stands.
    pub fn state(&self) -> (state: LoopState)
        ensures
            state == self@.state,
            self@.wf(),
    {
        proof {
            use_type_invariant(self);
        }
        self.state
    }

    /// The shared cooldown window.
    pub fn debounce(&self) -> (debounce: DebounceState)
        ensures
            debounce == self@.debounce,
    {
        self.debounce
    }

    /// The registered projects.
    pub fn registry(&self) -> (registry: &ProjectRegistry)
        ensures
            registry.projects@ == self@.projects,
    {
        &self.registry
    }

    /// Takes `event` in: moves the loop to its next state and says what is
    /// to be done.
    pub fn step(&mut self, event: LoopEvent) -> (action: LoopAction)
        ensures
            (final(self)@, action@) == old(self)@.spec_step(event),
            final(self)@.projects == old(self)@.projects,
            final(self)@.wf(),
    {
        proof {
            use_type_invariant(&*self);
        }
        match self.state {
            LoopState::Stopped => LoopAction::Unexpected,
            LoopState::Idle => match event {
                LoopEvent::SubscriptionLost => {
                    self.state = LoopState::Stopped;
                    LoopAction::Exit(ErrorKind::WatchSubscriptionLost)
                },
                LoopEvent::NotificationRefused => LoopAction::Report(
                    ErrorKind::NotificationDeliveryFailed,
                ),
                LoopEvent::FileChanged { path, now } => {
                    let mut debounce = self.debounce;
                    if !debounce.accept(now) {
                        LoopAction::Debounced
                    } else {
                        self.debounce = debounce;
                        let owner = match &path {
                            None => None,
                            Some(p) => self.registry.position(p.as_str()),
                        };
                        match owner {
                            None => LoopAction::Unowned,
                            Some(project) => {
                                self.state = LoopState::Checking { project };
                                LoopAction::QueryTimer { project }
                            },
                        }
                    }
                },
                _ => LoopAction::Unexpected,
            },
            LoopState::Checking { project } => match event {
                LoopEvent::SubscriptionLost => {
                    self.state = LoopState::Stopped;
                    LoopAction::Exit(ErrorKind::WatchSubscriptionLost)
                },
                LoopEvent::NotificationRefused => LoopAction::Report(
                    ErrorKind::NotificationDeliveryFailed,
                ),
                LoopEvent::TimerQueried { running_project } => {
                    let owner = &self.registry.projects[project];
                    let status = classify_timer(running_project, owner.harvest_project_id);
                    let shown = notification_for(status, owner);
                    self.state = LoopState::Idle;
                    match shown {
                        None => LoopAction::OnTrack,
                        Some(notification) => LoopAction::Notify(notification),
                    }
                },
                LoopEvent::QueryFailed => {
                    self.state = LoopState::Idle;
                    LoopAction::Report(ErrorKind::RemoteQueryFailed)
                },
                _ => LoopAction::Unexpected,
            },
        }
    }
}

/// A file change as the loop takes it in.
pub struct FileChange {
    /// The path of the changed file, if the change came with one.
    pub path: Option<String>,
    /// When the change came.
    pub now: u128,
}

/// The times of `changes`, in order.
pub open spec fn times(changes: Seq<FileChange>) -> Seq<u128> {
    changes.map_values(|change: FileChange| change.now)
}

impl WatchLoopView {
    /// How many timer queries `changes` lead to, when they come in order and
    /// each query is answered before the next change is taken in.
    pub open spec fn checks(self, changes: Seq<FileChange>) -> nat
        decreases changes.len(),
    {
        if changes.len() == 0 {
            0
        } else {
            let (next, action) = self.moved_to(LoopState::Idle).on_file_changed(
                changes[0].path,
                changes[0].now,
            );
            let first: nat = if action is QueryTimer {
                1
            } else {
                0
            };
            first + next.checks(changes.drop_first())
        }
    }
}

/// No more timer queries are made than changes are let through the
/// cooldown window.
pub proof fn lemma_checks_only_what_fires(watch: WatchLoopView, changes: Seq<FileChange>)
    ensures
        watch.checks(changes) <= watch.debounce.accepted(times(changes)),
    decreases changes.len(),
{
    if changes.len() > 0 {
        let (next, action) = watch.moved_to(LoopState::Idle).on_file_changed(
            changes[0].path,
            changes[0].now,
        );
        assert(times(changes)[0] == changes[0].now);
        assert(times(changes).drop_first() == times(changes.drop_first()));
        assert(next.debounce == watch.debounce.after(changes[0].now));
        lemma_checks_only_what_fires(next, changes.drop_first());
    }
}

/// Changes that come no more than the interval apart lead to at most one
/// timer query, whatever their number, their paths and the state of the
/// loop before them.
pub proof fn lemma_burst_is_checked_at_most_once(watch: WatchLoopView, changes: Seq<FileChange>)
    requires
        forall|i: int, j: int|
            0 <= i < j < changes.len() ==> changes[j].now - changes[i].now
                <= watch.debounce.interval,
    ensures
        watch.checks(changes) <= 1,
{
    lemma_checks_only_what_fires(watch, changes);
    assert forall|i: int, j: int| 0 <= i < j < times(changes).len() implies times(changes)[j]
        - times(changes)[i] <= watch.debounce.interval by {
        assert(times(changes)[i] == changes[i].now && times(changes)[j] == changes[j].now);
    }
    lemma_burst_fires_at_most_once(watch.debounce, times(changes));
}

/// A change of a file that no registered project owns leads to no timer
/// query and no notification, and leaves the loop in its state.
pub proof fn lemma_unowned_change_checks_nothing(
    watch: WatchLoopView,
    path: Option<String>,
    now: u128,
)
    requires
        path matches Some(p) ==> is_unowned(watch.projects, p@),
    ensures
        !(watch.spec_step(LoopEvent::FileChanged { path, now }).1 is QueryTimer),
        !(watch.spec_step(LoopEvent::FileChanged { path, now }).1 is Notify),
        watch.spec_step(LoopEvent::FileChanged { path, now }).0.state == watch.state,
{
}

/// The answer to a timer query leads to no notification when the timer
/// runs for the project that was asked about, and to exactly one otherwise;
/// either way the loop is idle again.
pub proof fn lemma_notifies_unless_running(
    watch: WatchLoopView,
    project: usize,
    running_project: Option<i32>,
)
    requires
        watch.state == (LoopState::Checking { project }),
    ensures
        ({
            let (next, action) = watch.spec_step(LoopEvent::TimerQueried { running_project });
            let owner = watch.projects[project as int];
            let status = spec_classify(running_project, owner.harvest_project_id);
            &&& next.state == LoopState::Idle
            &&& status == TimerStatus::Running ==> action == ActionView::OnTrack
            &&& status != TimerStatus::Running ==> action == ActionView::Notify(
                spec_notification(status, owner.name@)->0,
            )
        }),
{
}

} // verus!
