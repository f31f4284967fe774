//! The scheduler: which tasks an event starts, and how a run goes on.

use crate::clock::elapsed_minutes;
use crate::clock::has_day;
use crate::clock::minutes_between;
use crate::clock::ClockReading;
use crate::clock::Timestamp;
use crate::clock::Weekday;
use crate::cloudflare::ClientView;
use crate::cloudflare::CloudflareClient;
use crate::pushover::Notification;
use crate::pushover::NotificationView;
use crate::pushover::PushoverClient;
use crate::smtp::EmailView;
use crate::smtp::ReceivedEmail;
use crate::task::copy_opt_context;
use crate::task::notifies;
use crate::task::opt_bytes;
use crate::task::task_views;
use crate::task::NotifyWhen;
use crate::task::NtfyContext;
use crate::task::NtfyContextView;
use crate::task::Task;
use crate::task::TaskView;
use crate::task::TriggerType;
use crate::task::TriggerView;
use crate::text::cat2;
use crate::text::cat3;
use crate::text::cat4;
use crate::text::cat6;
use crate::text::contains;
use crate::text::copy_text;
use crate::text::law_containing_is_standing_in;
use crate::text::lowercase;
use crate::text::opt_text;
use crate::text::same_text;
use crate::text::stands_in;
use crate::text::text_contains;
use crate::text::texts;
use crate::text::to_lowercase;
use crate::variables::law_variables_are_read;
use crate::variables::reads_as;
use crate::variables::substitute_variables;
use crate::variables::substituted;
use crate::variables::text_of;
use vstd::prelude::*;

verus! {

// ---------------------------------------------------------------------------
// Types
// ---------------------------------------------------------------------------

/// What the scheduler is told.
pub enum SchedulerCommand {
    UpdateTasks(Vec<Task>),
    EmailReceived(ReceivedEmail),
    NtfyReceived { topic: String, title: String, message: String, tags: String },
    RunStartupTasks,
    /// Runs the task with an identifier at once.
    RunTask(u128),
    Shutdown,
}

/// The scheduler: the tasks, and what their runs need.
pub struct Scheduler {
    pub tasks: Vec<Task>,
    pub pushover: Option<PushoverClient>,
    pub cloudflare: Option<CloudflareClient>,
    pub master_password: Option<String>,
    pub password_salt: Option<Vec<u8>>,
}

pub struct SchedulerView {
    pub tasks: Seq<TaskView>,
    /// The application token and the user key.
    pub pushover: Option<(Seq<char>, Seq<char>)>,
    pub cloudflare: Option<ClientView>,
    pub master_password: Option<Seq<char>>,
    pub password_salt: Option<Seq<u8>>,
}

impl View for Scheduler {
    type V = SchedulerView;

    open spec fn view(&self) -> SchedulerView {
        SchedulerView {
            tasks: task_views(self.tasks@),
            pushover: match self.pushover {
                Some(client) => Some((client.app_token@, client.user_key@)),
                None => None,
            },
            cloudflare: match self.cloudflare {
                Some(client) => Some(client@),
                None => None,
            },
            master_password: opt_text(self.master_password),
            password_salt: opt_bytes(self.password_salt),
        }
    }
}

/// A task that is to be run, and what the log says before.
#[derive(Debug)]
pub struct Started {
    pub task: Task,
    pub log: Option<String>,
}

pub struct StartedView {
    pub task: TaskView,
    pub log: Option<Seq<char>>,
}

impl View for Started {
    type V = StartedView;

    open spec fn view(&self) -> StartedView {
        StartedView { task: self.task@, log: opt_text(self.log) }
    }
}

/// The contents of a list of started tasks.
pub open spec fn started_views(list: Seq<Started>) -> Seq<StartedView> {
    Seq::new(list.len(), |i: int| list[i]@)
}

/// Those tasks that are wanted, in their order, as they are to be run.
pub open spec fn picked(
    tasks: Seq<TaskView>,
    wanted: spec_fn(TaskView) -> bool,
    shape: spec_fn(TaskView) -> StartedView,
) -> Seq<StartedView> {
    tasks.filter(wanted).map_values(shape)
}

/// One more task is picked if it is wanted.
proof fn lemma_picked_step(
    tasks: Seq<TaskView>,
    i: int,
    wanted: spec_fn(TaskView) -> bool,
    shape: spec_fn(TaskView) -> StartedView,
)
    requires
        0 <= i < tasks.len(),
    ensures
        picked(tasks.take(i + 1), wanted, shape) == if wanted(tasks[i]) {
            picked(tasks.take(i), wanted, shape).push(shape(tasks[i]))
        } else {
            picked(tasks.take(i), wanted, shape)
        },
{
    reveal(Seq::filter);
    assert(tasks.take(i + 1).drop_last() =~= tasks.take(i));
    let before = tasks.take(i).filter(wanted);
    assert(before.push(tasks[i]).map_values(shape) =~= before.map_values(shape).push(
        shape(tasks[i]),
    ));
}

/// Nothing is picked from nothing.
proof fn lemma_picked_none(
    tasks: Seq<TaskView>,
    wanted: spec_fn(TaskView) -> bool,
    shape: spec_fn(TaskView) -> StartedView,
)
    ensures
        picked(tasks.take(0), wanted, shape) == Seq::<StartedView>::empty(),
{
    reveal(Seq::filter);
    assert(tasks.take(0).filter(wanted) =~= Seq::<TaskView>::empty());
    assert(picked(tasks.take(0), wanted, shape) =~= Seq::<StartedView>::empty());
}

/// What is picked is the shape of a task that is wanted.
proof fn lemma_picked_source(
    tasks: Seq<TaskView>,
    wanted: spec_fn(TaskView) -> bool,
    shape: spec_fn(TaskView) -> StartedView,
    k: int,
)
    requires
        0 <= k < picked(tasks, wanted, shape).len(),
    ensures
        exists|i: int|
            0 <= i < tasks.len() && wanted(#[trigger] tasks[i]) && picked(
                tasks,
                wanted,
                shape,
            )[k] == shape(tasks[i]),
{
    let kept = tasks.filter(wanted);
    assert(kept.contains(kept[k]));
    tasks.lemma_filter_contains_rev(wanted, kept[k]);
    tasks.lemma_filter_pred(wanted, k);
    let i = choose|i: int| 0 <= i < tasks.len() && tasks[i] == kept[k];
    assert(wanted(tasks[i]));
}

// ---------------------------------------------------------------------------
// Triggers
// ---------------------------------------------------------------------------

/// A task as it is.
pub open spec fn unchanged() -> spec_fn(TaskView) -> StartedView {
    |t: TaskView| StartedView { task: t, log: None }
}

/// Whether a task runs when the service starts.
pub open spec fn starts_up(task: TaskView) -> bool {
    task.enabled && task.trigger is Startup
}

/// The tasks that run when the service starts.
pub open spec fn startup_tasks(tasks: Seq<TaskView>) -> Seq<StartedView> {
    picked(tasks, |t: TaskView| starts_up(t), unchanged())
}

/// Whether the clock stands at the start of a minute of the day, and the task was
/// not started on this day.
pub open spec fn is_due(task: TaskView, hour: u8, minute: u8, clock: ClockReading) -> bool {
    clock.minute_of_day() == hour * 60 + minute && task.last_triggered_date != Some(clock.day)
        && clock.second == 0
}

/// Whether the clock starts a task.
pub open spec fn fires(task: TaskView, clock: ClockReading) -> bool {
    task.enabled && match task.trigger {
        TriggerView::Time { hour, minute } => is_due(task, hour, minute, clock),
        TriggerView::DaysOfWeek { days, hour, minute } => days.contains(clock.weekday) && is_due(
            task,
            hour,
            minute,
            clock,
        ),
        TriggerView::Interval { minutes } => match task.interval_last_run {
            Some(last) => elapsed_minutes(clock.now, last) >= minutes,
            None => true,
        },
        _ => false,
    }
}

/// A task that the clock has started.
pub open spec fn marked(task: TaskView, clock: ClockReading) -> TaskView {
    TaskView {
        last_triggered_date: Some(clock.day),
        interval_last_run: Some(clock.now),
        ..task
    }
}

/// The tasks that the clock starts.
pub open spec fn timed_tasks(tasks: Seq<TaskView>, clock: ClockReading) -> Seq<StartedView> {
    picked(
        tasks,
        |t: TaskView| fires(t, clock),
        |t: TaskView| StartedView { task: marked(t, clock), log: None },
    )
}

/// The tasks after the clock has started those that it starts.
pub open spec fn after_tick(tasks: Seq<TaskView>, clock: ClockReading) -> Seq<TaskView> {
    Seq::new(
        tasks.len(),
        |i: int|
            if fires(tasks[i], clock) {
                marked(tasks[i], clock)
            } else {
                tasks[i]
            },
    )
}

/// The task that is to run at once: the first with the identifier, whatever its
/// trigger and whether it is enabled or not.
pub open spec fn demanded_task(tasks: Seq<TaskView>, id: u128) -> Option<StartedView> {
    match find_task(tasks, id, 0) {
        Some(i) => Some(StartedView { task: tasks[i], log: None }),
        None => None,
    }
}

/// Whether a pattern is met: an empty one always is, another one where its
/// lower case stands in the lower case of the text.
pub open spec fn pattern_met(
    pattern: Seq<char>,
    lowered_pattern: Seq<char>,
    lowered_text: Seq<char>,
) -> bool {
    pattern.len() == 0 || contains(lowered_text, lowered_pattern)
}

/// Whether a message starts a task.
pub open spec fn email_starts(task: TaskView, email: EmailView) -> bool {
    task.enabled && match task.trigger {
        TriggerView::Email { from_pattern, subject_pattern, body_pattern } => {
            &&& pattern_met(from_pattern, lowercase(from_pattern), lowercase(email.from))
            &&& pattern_met(subject_pattern, lowercase(subject_pattern), lowercase(email.subject))
            &&& pattern_met(body_pattern, lowercase(body_pattern), lowercase(email.body))
        },
        _ => false,
    }
}

/// The tasks that a message starts.
pub open spec fn email_tasks(tasks: Seq<TaskView>, email: EmailView) -> Seq<StartedView> {
    picked(
        tasks,
        |t: TaskView| email_starts(t, email),
        |t: TaskView|
            StartedView { task: t, log: Some("Email trigger matched for task: "@ + t.name) },
    )
}

/// Whether a message on a topic starts a task.
pub open spec fn ntfy_starts(task: TaskView, context: NtfyContextView) -> bool {
    task.enabled && match task.trigger {
        TriggerView::Ntfy { topic, title_pattern, message_pattern, .. } => {
            &&& topic == context.topic
            &&& pattern_met(title_pattern, lowercase(title_pattern), lowercase(context.title))
            &&& pattern_met(message_pattern, lowercase(message_pattern), lowercase(context.message))
        },
        _ => false,
    }
}

/// The tasks that a message on a topic starts, with the message as their context.
pub open spec fn ntfy_tasks(tasks: Seq<TaskView>, context: NtfyContextView) -> Seq<StartedView> {
    picked(
        tasks,
        |t: TaskView| ntfy_starts(t, context),
        |t: TaskView|
            StartedView {
                task: TaskView { ntfy_context: Some(context), ..t },
                log: Some("ntfy trigger matched for task: "@ + t.name),
            },
    )
}

/// Whether a pattern is met, given the lower case of both texts.
pub fn is_pattern_met(pattern: &str, lowered_pattern: &str, lowered_text: &str) -> (r: bool)
    ensures
        r == pattern_met(pattern@, lowered_pattern@, lowered_text@),
{
    pattern.is_empty() || text_contains(lowered_text, lowered_pattern)
}

/// Whether a pattern is met by a text whose lower case is given.
fn meets(pattern: &str, lowered_text: &str) -> (r: bool)
    ensures
        r == pattern_met(pattern@, lowercase(pattern@), lowered_text@),
{
    let lowered = to_lowercase(pattern);
    is_pattern_met(pattern, lowered.as_str(), lowered_text)
}

impl Task {
    /// Whether the clock stands at the start of a minute of the day, and the task
    /// was not started on this day.
    fn is_due(&self, hour: u8, minute: u8, clock: &ClockReading) -> (r: bool)
        ensures
            r == is_due(self@, hour, minute, *clock),
    {
        let current: u64 = clock.hour as u64 * 60 + clock.minute as u64;
        let wanted: u64 = hour as u64 * 60 + minute as u64;
        let new_day = match self.last_triggered_date {
            Some(day) => day != clock.day,
            None => true,
        };
        current == wanted && new_day && clock.second == 0
    }

    /// Whether the clock starts the task.
    pub fn fires(&self, clock: &ClockReading) -> (r: bool)
        ensures
            r == fires(self@, *clock),
    {
        if !self.enabled {
            return false;
        }
        match &self.trigger {
            TriggerType::Time { hour, minute } => self.is_due(*hour, *minute, clock),
            TriggerType::DaysOfWeek { days, hour, minute } => has_day(days, clock.weekday)
                && self.is_due(*hour, *minute, clock),
            TriggerType::Interval { minutes } => match self.interval_last_run {
                Some(last) => {
                    let elapsed: i64 = minutes_between(clock.now, last);
                    elapsed >= 0 && elapsed as u64 >= *minutes
                },
                None => true,
            },
            _ => false,
        }
    }
}

/// The list that has grown by one started task.
proof fn lemma_started_push(list: Seq<Started>, s: Started)
    ensures
        started_views(list.push(s)) == started_views(list).push(s@),
{
    assert(started_views(list.push(s)) =~= started_views(list).push(s@));
}

impl Scheduler {
    pub fn new(
        tasks: Vec<Task>,
        pushover: Option<PushoverClient>,
        cloudflare: Option<CloudflareClient>,
        master_password: Option<String>,
        password_salt: Option<Vec<u8>>,
    ) -> (r: Self)
        ensures
            r.tasks == tasks,
            r.pushover == pushover,
            r.cloudflare == cloudflare,
            r.master_password == master_password,
            r.password_salt == password_salt,
    {
        Scheduler { tasks, pushover, cloudflare, master_password, password_salt }
    }

    /// The tasks that run when the service starts.
    pub fn run_startup_tasks(&self) -> (r: Vec<Started>)
        ensures
            started_views(r@) == startup_tasks(self@.tasks),
    {
        let mut r: Vec<Started> = Vec::new();
        let ghost all = self@.tasks;
        let ghost wanted = |t: TaskView| starts_up(t);
        let mut i: usize = 0;
        proof {
            lemma_picked_none(all, wanted, unchanged());
        }
        assert(started_views(r@) =~= Seq::<StartedView>::empty());
        while i < self.tasks.len()
            invariant
                all == task_views(self.tasks@),
                wanted == (|t: TaskView| starts_up(t)),
                i <= self.tasks@.len(),
                started_views(r@) == picked(all.take(i as int), wanted, unchanged()),
            decreases self.tasks@.len() - i,
        {
            proof {
                lemma_picked_step(all, i as int, wanted, unchanged());
            }
            let task = &self.tasks[i];
            let is_startup = match task.trigger {
                TriggerType::Startup => true,
                _ => false,
            };
            if task.enabled && is_startup {
                let started = Started { task: task.clone(), log: None };
                proof {
                    lemma_started_push(r@, started);
                }
                r.push(started);
            }
            i = i + 1;
        }
        assert(all.take(self.tasks@.len() as int) =~= all);
        r
    }

    /// The task that is to run at once, if there is one with the identifier.
    pub fn run_task_now(&self, id: u128) -> (r: Option<Started>)
        ensures
            match r {
                Some(started) => demanded_task(self@.tasks, id) == Some(started@),
                None => demanded_task(self@.tasks, id) is None,
            },
    {
        match index_of_task(&self.tasks, id) {
            Some(i) => Some(Started { task: self.tasks[i].clone(), log: None }),
            None => None,
        }
    }

    /// Starts what the clock starts, and takes note of it in the tasks.
    pub fn check_time_triggers(&mut self, clock: &ClockReading) -> (r: Vec<Started>)
        ensures
            started_views(r@) == timed_tasks(old(self)@.tasks, *clock),
            final(self)@ == (SchedulerView {
                tasks: after_tick(old(self)@.tasks, *clock),
                ..old(self)@
            }),
    {
        let mut r: Vec<Started> = Vec::new();
        let ghost start = self@;
        let ghost all = self@.tasks;
        let ghost wanted = |t: TaskView| fires(t, *clock);
        let ghost shape = |t: TaskView| StartedView { task: marked(t, *clock), log: None };
        let mut i: usize = 0;
        proof {
            lemma_picked_none(all, wanted, shape);
        }
        assert(started_views(r@) =~= Seq::<StartedView>::empty());
        while i < self.tasks.len()
            invariant
                all == start.tasks,
                wanted == (|t: TaskView| fires(t, *clock)),
                shape == (|t: TaskView| StartedView { task: marked(t, *clock), log: None }),
                i <= self.tasks@.len(),
                self.tasks@.len() == all.len(),
                forall|j: int|
                    0 <= j < i ==> #[trigger] self.tasks@[j]@ == after_tick(all, *clock)[j],
                forall|j: int| i <= j < all.len() ==> #[trigger] self.tasks@[j]@ == all[j],
                self@ == (SchedulerView { tasks: self@.tasks, ..start }),
                started_views(r@) == picked(all.take(i as int), wanted, shape),
            decreases self.tasks@.len() - i,
        {
            proof {
                lemma_picked_step(all, i as int, wanted, shape);
            }
            assert(self.tasks@[i as int]@ == all[i as int]);
            if self.tasks[i].fires(clock) {
                let mut task = self.tasks[i].clone();
                task.last_triggered_date = Some(clock.day);
                task.interval_last_run = Some(clock.now);
                let started = Started { task: task.clone(), log: None };
                proof {
                    lemma_started_push(r@, started);
                }
                r.push(started);
                self.tasks.set(i, task);
            }
            i = i + 1;
        }
        assert(all.take(all.len() as int) =~= all);
        assert(self@.tasks =~= after_tick(all, *clock));
        r
    }

    /// The tasks that a message starts.
    pub fn handle_email(&self, email: &ReceivedEmail) -> (r: Vec<Started>)
        ensures
            started_views(r@) == email_tasks(self@.tasks, email@),
    {
        let from = to_lowercase(email.from.as_str());
        let subject = to_lowercase(email.subject.as_str());
        let body = to_lowercase(email.body.as_str());
        let mut r: Vec<Started> = Vec::new();
        let ghost all = self@.tasks;
        let ghost wanted = |t: TaskView| email_starts(t, email@);
        let ghost shape = |t: TaskView|
            StartedView { task: t, log: Some("Email trigger matched for task: "@ + t.name) };
        let mut i: usize = 0;
        proof {
            lemma_picked_none(all, wanted, shape);
        }
        assert(started_views(r@) =~= Seq::<StartedView>::empty());
        while i < self.tasks.len()
            invariant
                all == task_views(self.tasks@),
                wanted == (|t: TaskView| email_starts(t, email@)),
                shape == (|t: TaskView|
                    StartedView {
                        task: t,
                        log: Some("Email trigger matched for task: "@ + t.name),
                    }),
                from@ == lowercase(email@.from),
                subject@ == lowercase(email@.subject),
                body@ == lowercase(email@.body),
                i <= self.tasks@.len(),
                started_views(r@) == picked(all.take(i as int), wanted, shape),
            decreases self.tasks@.len() - i,
        {
            proof {
                lemma_picked_step(all, i as int, wanted, shape);
            }
            let task = &self.tasks[i];
            let matched = match &task.trigger {
                TriggerType::Email { from_pattern, subject_pattern, body_pattern } => {
                    task.enabled && meets(from_pattern.as_str(), from.as_str()) && meets(
                        subject_pattern.as_str(),
                        subject.as_str(),
                    ) && meets(body_pattern.as_str(), body.as_str())
                },
                _ => false,
            };
            if matched {
                let started = Started {
                    task: task.clone(),
                    log: Some(cat2("Email trigger matched for task: ", task.name.as_str())),
                };
                proof {
                    lemma_started_push(r@, started);
                }
                r.push(started);
            }
            i = i + 1;
        }
        assert(all.take(self.tasks@.len() as int) =~= all);
        r
    }

    /// The tasks that a message on a topic starts.
    pub fn handle_ntfy(&self, context: &NtfyContext) -> (r: Vec<Started>)
        ensures
            started_views(r@) == ntfy_tasks(self@.tasks, context@),
    {
        let title = to_lowercase(context.title.as_str());
        let message = to_lowercase(context.message.as_str());
        let mut r: Vec<Started> = Vec::new();
        let ghost all = self@.tasks;
        let ghost wanted = |t: TaskView| ntfy_starts(t, context@);
        let ghost shape = |t: TaskView|
            StartedView {
                task: TaskView { ntfy_context: Some(context@), ..t },
                log: Some("ntfy trigger matched for task: "@ + t.name),
            };
        let mut i: usize = 0;
        proof {
            lemma_picked_none(all, wanted, shape);
        }
        assert(started_views(r@) =~= Seq::<StartedView>::empty());
        while i < self.tasks.len()
            invariant
                all == task_views(self.tasks@),
                wanted == (|t: TaskView| ntfy_starts(t, context@)),
                shape == (|t: TaskView|
                    StartedView {
                        task: TaskView { ntfy_context: Some(context@), ..t },
                        log: Some("ntfy trigger matched for task: "@ + t.name),
                    }),
                title@ == lowercase(context@.title),
                message@ == lowercase(context@.message),
                i <= self.tasks@.len(),
                started_views(r@) == picked(all.take(i as int), wanted, shape),
            decreases self.tasks@.len() - i,
        {
            proof {
                lemma_picked_step(all, i as int, wanted, shape);
            }
            let task = &self.tasks[i];
            let matched = match &task.trigger {
                TriggerType::Ntfy { topic, title_pattern, message_pattern, .. } => {
                    task.enabled && same_text(topic.as_str(), context.topic.as_str()) && meets(
                        title_pattern.as_str(),
                        title.as_str(),
                    ) && meets(message_pattern.as_str(), message.as_str())
                },
                _ => false,
            };
            if matched {
                let mut copy = task.clone();
                copy.ntfy_context = Some(context.clone());
                let log = cat2("ntfy trigger matched for task: ", task.name.as_str());
                let started = Started { task: copy, log: Some(log) };
                proof {
                    lemma_started_push(r@, started);
                }
                r.push(started);
            }
            i = i + 1;
        }
        assert(all.take(self.tasks@.len() as int) =~= all);
        r
    }
}

/// What happens to the scheduler.
pub enum SchedulerEvent {
    /// A second has passed; the clock says this.
    Tick(ClockReading),
    /// A command, or `None` where no more will come.
    Command(Option<SchedulerCommand>),
}

/// What the scheduler does then.
#[derive(Debug)]
pub enum SchedulerStep {
    /// It runs these tasks, one after the other.
    Run(Vec<Started>),
    Stop,
}

pub enum SchedulerStepView {
    Run(Seq<StartedView>),
    Stop,
}

impl View for SchedulerStep {
    type V = SchedulerStepView;

    open spec fn view(&self) -> SchedulerStepView {
        match *self {
            SchedulerStep::Run(list) => SchedulerStepView::Run(started_views(list@)),
            SchedulerStep::Stop => SchedulerStepView::Stop,
        }
    }
}

/// What the scheduler does on an event, and its tasks afterwards.
pub open spec fn scheduler_step(tasks: Seq<TaskView>, event: SchedulerEvent) -> (
    Seq<TaskView>,
    SchedulerStepView,
) {
    match event {
        SchedulerEvent::Tick(clock) => (
            after_tick(tasks, clock),
            SchedulerStepView::Run(timed_tasks(tasks, clock)),
        ),
        SchedulerEvent::Command(Some(command)) => match command {
            SchedulerCommand::UpdateTasks(new_tasks) => (
                task_views(new_tasks@),
                SchedulerStepView::Run(Seq::empty()),
            ),
            SchedulerCommand::EmailReceived(email) => (
                tasks,
                SchedulerStepView::Run(email_tasks(tasks, email@)),
            ),
            SchedulerCommand::NtfyReceived { topic, title, message, tags } => (
                tasks,
                SchedulerStepView::Run(
                    ntfy_tasks(
                        tasks,
                        NtfyContextView {
                            topic: topic@,
                            title: title@,
                            message: message@,
                            tags: tags@,
                        },
                    ),
                ),
            ),
            SchedulerCommand::RunStartupTasks => (
                tasks,
                SchedulerStepView::Run(startup_tasks(tasks)),
            ),
            SchedulerCommand::RunTask(id) => (
                tasks,
                SchedulerStepView::Run(
                    match demanded_task(tasks, id) {
                        Some(started) => seq![started],
                        None => Seq::empty(),
                    },
                ),
            ),
            SchedulerCommand::Shutdown => (tasks, SchedulerStepView::Stop),
        },
        SchedulerEvent::Command(None) => (tasks, SchedulerStepView::Stop),
    }
}

impl Scheduler {
    /// What the scheduler does on an event.
    pub fn run(&mut self, event: SchedulerEvent) -> (r: SchedulerStep)
        ensures
            (final(self)@.tasks, r@) == scheduler_step(old(self)@.tasks, event),
            final(self)@ == (SchedulerView { tasks: final(self)@.tasks, ..old(self)@ }),
    {
        match event {
            SchedulerEvent::Tick(clock) => SchedulerStep::Run(self.check_time_triggers(&clock)),
            SchedulerEvent::Command(Some(SchedulerCommand::UpdateTasks(new_tasks))) => {
                self.tasks = new_tasks;
                let none: Vec<Started> = Vec::new();
                assert(started_views(none@) =~= Seq::<StartedView>::empty());
                SchedulerStep::Run(none)
            },
            SchedulerEvent::Command(Some(SchedulerCommand::EmailReceived(email))) => {
                SchedulerStep::Run(self.handle_email(&email))
            },
            SchedulerEvent::Command(
                Some(SchedulerCommand::NtfyReceived { topic, title, message, tags }),
            ) => {
                let context = NtfyContext { topic, title, message, tags };
                SchedulerStep::Run(self.handle_ntfy(&context))
            },
            SchedulerEvent::Command(Some(SchedulerCommand::RunStartupTasks)) => {
                SchedulerStep::Run(self.run_startup_tasks())
            },
            SchedulerEvent::Command(Some(SchedulerCommand::RunTask(id))) => {
                let mut list: Vec<Started> = Vec::new();
                assert(started_views(list@) =~= Seq::<StartedView>::empty());
                if let Some(started) = self.run_task_now(id) {
                    proof {
                        lemma_started_push(list@, started);
                        assert(Seq::<StartedView>::empty().push(started@) =~= seq![started@]);
                    }
                    list.push(started);
                }
                SchedulerStep::Run(list)
            },
            SchedulerEvent::Command(Some(SchedulerCommand::Shutdown)) => SchedulerStep::Stop,
            SchedulerEvent::Command(None) => SchedulerStep::Stop,
        }
    }
}

// ---------------------------------------------------------------------------
// Runs
// ---------------------------------------------------------------------------

/// How deep a chain of tasks may go.
pub const MAX_CHAIN_DEPTH: u8 = 10;

/// A run of a task: the task, how many runs led to it, and the public address
/// that was known when it began.
#[derive(Debug)]
pub struct Execution {
    pub task: Task,
    pub depth: u8,
    pub public_ip: Option<String>,
}

impl Execution {
    /// A run within the limit for chains.
    pub open spec fn wf(self) -> bool {
        self.depth <= MAX_CHAIN_DEPTH
    }
}

/// The start of a run.
#[derive(Debug)]
pub enum ExecutionStart {
    /// The run does not begin; the log says why.
    Refused(String),
    /// The log says that the run begins.
    Begun { log: String, run: Execution },
}

/// Whether and how a run begins.
pub open spec fn begins(
    task: TaskView,
    depth: u8,
    public_ip: Option<Seq<char>>,
    start: ExecutionStart,
) -> bool {
    match start {
        ExecutionStart::Refused(log) => depth > MAX_CHAIN_DEPTH && log@
            == "Chain depth exceeded for task '"@ + task.name + "' -- aborting chain"@,
        ExecutionStart::Begun { log, run } => {
            &&& depth <= MAX_CHAIN_DEPTH
            &&& log@ == "Executing task: "@ + task.name
            &&& run.task@ == task
            &&& run.depth == depth
            &&& opt_text(run.public_ip) == public_ip
        },
    }
}

/// Whether a result is a success.
pub open spec fn succeeded(result: Result<bool, String>) -> bool {
    result == Ok::<bool, String>(true)
}

/// The error of a result.
pub open spec fn error_of(result: Result<bool, String>) -> Option<Seq<char>> {
    match result {
        Ok(_) => None,
        Err(e) => Some(e@),
    }
}

/// The notification about a result, if the task asks for one.
pub open spec fn notification_of(
    task: TaskView,
    public_ip: Option<Seq<char>>,
    success: bool,
    error: Option<Seq<char>>,
) -> Option<NotificationView> {
    if task.pushover_enabled && notifies(task.notify_when, success) {
        let (title, message) = if success {
            (task.pushover_title_success, task.pushover_message_success)
        } else {
            (task.pushover_title_failure, task.pushover_message_failure)
        };
        let text = substituted(message, task.ntfy_context, public_ip);
        Some(
            NotificationView {
                title: substituted(title, task.ntfy_context, public_ip),
                message: match error {
                    Some(e) => text + ": "@ + e,
                    None => text,
                },
                priority: task.pushover_priority,
                sound: substituted(task.pushover_sound, task.ntfy_context, public_ip),
            },
        )
    } else {
        None
    }
}

/// The index from `from` on of the first task with an identifier.
pub open spec fn find_task(tasks: Seq<TaskView>, id: u128, from: int) -> Option<int>
    decreases tasks.len() - from,
{
    if from < 0 || from >= tasks.len() {
        None
    } else if tasks[from].id == id {
        Some(from)
    } else {
        find_task(tasks, id, from + 1)
    }
}

/// The tasks after a run: the one that ran knows its result.
pub open spec fn recorded(
    tasks: Seq<TaskView>,
    ran: TaskView,
    success: bool,
    error: Option<Seq<char>>,
    now: Timestamp,
) -> Seq<TaskView> {
    match find_task(tasks, ran.id, 0) {
        Some(i) => tasks.update(
            i,
            TaskView {
                last_run: Some(now),
                last_result: Some(success),
                last_error: error,
                ntfy_context: ran.ntfy_context,
                ..tasks[i]
            },
        ),
        None => tasks,
    }
}

/// The task that a run leads to, with the context of the run.
pub open spec fn chained(tasks: Seq<TaskView>, ran: TaskView, success: bool) -> Option<TaskView> {
    let id = if success {
        ran.on_success_task_id
    } else {
        ran.on_failure_task_id
    };
    match id {
        Some(id) => match find_task(tasks, id, 0) {
            Some(i) => Some(TaskView { ntfy_context: ran.ntfy_context, ..tasks[i] }),
            None => None,
        },
        None => None,
    }
}

/// The run that a run at a depth leads to, once its result has been noted: the task, and the
/// depth that it runs at.
pub open spec fn next_run(
    tasks: Seq<TaskView>,
    ran: TaskView,
    depth: u8,
    success: bool,
    error: Option<Seq<char>>,
    now: Timestamp,
) -> Option<(TaskView, int)> {
    match chained(recorded(tasks, ran, success, error, now), ran, success) {
        Some(task) => Some((task, depth + 1)),
        None => None,
    }
}

/// What the log says at the end of a run.
pub open spec fn completed_log(name: Seq<char>, success: bool, error: Option<Seq<char>>) -> Seq<
    char,
> {
    "Task '"@ + name + "' completed: "@ + (if success {
        "SUCCESS"@
    } else {
        "FAILURE"@
    }) + (match error {
        Some(e) => " - "@ + e,
        None => ""@,
    })
}

/// What the log says of the next task of a chain.
pub open spec fn chain_log(success: bool, next: Option<TaskView>) -> Seq<Seq<char>> {
    match next {
        Some(task) => seq![
            "Chaining to "@ + (if success {
                "success"@
            } else {
                "failure"@
            }) + " task: "@ + task.name,
        ],
        None => Seq::empty(),
    }
}

/// The end of a run: what the log says, and the task that comes next, with its
/// depth.
#[derive(Debug)]
pub struct Finished {
    pub log: Vec<String>,
    pub next: Option<(Task, u8)>,
}

/// The index of the first task with an identifier.
pub(crate) fn index_of_task(tasks: &Vec<Task>, id: u128) -> (r: Option<usize>)
    ensures
        match r {
            Some(i) => i < tasks@.len() && find_task(task_views(tasks@), id, 0) == Some(i as int),
            None => find_task(task_views(tasks@), id, 0) is None,
        },
{
    let mut i: usize = 0;
    while i < tasks.len()
        invariant
            i <= tasks@.len(),
            find_task(task_views(tasks@), id, 0) == find_task(task_views(tasks@), id, i as int),
        decreases tasks@.len() - i,
    {
        if tasks[i].id == id {
            return Some(i);
        }
        i = i + 1;
    }
    None
}

/// Whether and how a run begins at a depth of a chain.
pub fn execute_task_with_depth(task: Task, chain_depth: u8, public_ip: Option<String>) -> (r:
    ExecutionStart)
    ensures
        begins(task@, chain_depth, opt_text(public_ip), r),
{
    if chain_depth > MAX_CHAIN_DEPTH {
        ExecutionStart::Refused(
            cat3("Chain depth exceeded for task '", task.name.as_str(), "' -- aborting chain"),
        )
    } else {
        ExecutionStart::Begun {
            log: cat2("Executing task: ", task.name.as_str()),
            run: Execution { task, depth: chain_depth, public_ip },
        }
    }
}

impl Scheduler {
    /// How the run of a task that an event started begins.
    pub fn execute_task(&self, task: Task, public_ip: Option<String>) -> (r: ExecutionStart)
        ensures
            begins(task@, 0, opt_text(public_ip), r),
    {
        execute_task_with_depth(task, 0, public_ip)
    }

    /// The notification about the result of a run, if the task asks for one and
    /// there are credentials to send it with. The public address is the one that
    /// is saved when the notification is made.
    pub fn notification(
        &self,
        run: &Execution,
        public_ip: Option<&str>,
        result: &Result<bool, String>,
    ) -> (r: Option<Notification>)
        ensures
            match r {
                Some(n) => self.pushover is Some && notification_of(
                    run.task@,
                    text_of(public_ip),
                    succeeded(*result),
                    error_of(*result),
                ) == Some(n@),
                None => self.pushover is None || notification_of(
                    run.task@,
                    text_of(public_ip),
                    succeeded(*result),
                    error_of(*result),
                ) is None,
            },
    {
        let success = match result {
            Ok(s) => *s,
            Err(_) => false,
        };
        let has_client = match &self.pushover {
            Some(_) => true,
            None => false,
        };
        if !has_client || !run.task.pushover_enabled || !run.task.should_notify(success) {
            return None;
        }
        let ntfy: Option<&NtfyContext> = match &run.task.ntfy_context {
            Some(c) => Some(c),
            None => None,
        };
        let (title, message) = if success {
            (
                run.task.pushover_title_success.as_str(),
                run.task.pushover_message_success.as_str(),
            )
        } else {
            (
                run.task.pushover_title_failure.as_str(),
                run.task.pushover_message_failure.as_str(),
            )
        };
        let title = substitute_variables(title, ntfy, public_ip);
        let text = substitute_variables(message, ntfy, public_ip);
        let message = match result {
            Ok(_) => text,
            Err(e) => cat3(text.as_str(), ": ", e.as_str()),
        };
        Some(
            Notification {
                title,
                message,
                priority: run.task.pushover_priority,
                sound: substitute_variables(run.task.pushover_sound.as_str(), ntfy, public_ip),
            },
        )
    }

    /// Ends a run: the task that ran learns its result, and the task that comes
    /// next gets the context of the run.
    pub fn finish(&mut self, run: Execution, result: Result<bool, String>, now: Timestamp) -> (r:
        Finished)
        requires
            run.wf(),
        ensures
            final(self)@ == (SchedulerView {
                tasks: recorded(
                    old(self)@.tasks,
                    run.task@,
                    succeeded(result),
                    error_of(result),
                    now,
                ),
                ..old(self)@
            }),
            match r.next {
                Some((task, depth)) => chained(
                    final(self)@.tasks,
                    run.task@,
                    succeeded(result),
                ) == Some(task@) && depth == run.depth + 1,
                None => chained(final(self)@.tasks, run.task@, succeeded(result)) is None,
            },
            ({
                let next = next_run(
                    old(self)@.tasks,
                    run.task@,
                    run.depth,
                    succeeded(result),
                    error_of(result),
                    now,
                );
                match r.next {
                    Some((task, depth)) => next == Some((task@, depth as int)),
                    None => next is None,
                }
            }),
            texts(r.log@) == seq![
                completed_log(run.task@.name, succeeded(result), error_of(result)),
            ] + chain_log(
                succeeded(result),
                chained(final(self)@.tasks, run.task@, succeeded(result)),
            ),
    {
        let ghost start = self@;
        let success = match &result {
            Ok(s) => *s,
            Err(_) => false,
        };
        let error: Option<String> = match &result {
            Ok(_) => None,
            Err(e) => Some(e.clone()),
        };
        let mut log: Vec<String> = Vec::new();
        let word = if success {
            "SUCCESS"
        } else {
            "FAILURE"
        };
        let reason = match &error {
            Some(e) => cat2(" - ", e.as_str()),
            None => copy_text(""),
        };
        log.push(
            cat6(
                "Task '",
                run.task.name.as_str(),
                "' completed: ",
                word,
                reason.as_str(),
                "",
            ),
        );
        proof {
            reveal_strlit("");
            let line = completed_log(run.task@.name, success, error_of(result));
            assert(log@[0]@ =~= line);
            assert(texts(log@) =~= seq![line]);
        }
        if let Some(i) = index_of_task(&self.tasks, run.task.id) {
            let mut task = self.tasks[i].clone();
            task.last_run = Some(now);
            task.last_result = Some(success);
            task.last_error = error;
            task.ntfy_context = copy_opt_context(&run.task.ntfy_context);
            self.tasks.set(i, task);
        }
        proof {
            assert(self@.tasks =~= recorded(
                start.tasks,
                run.task@,
                success,
                error_of(result),
                now,
            ));
        }
        let id = if success {
            run.task.on_success_task_id
        } else {
            run.task.on_failure_task_id
        };
        let found = match id {
            Some(id) => index_of_task(&self.tasks, id),
            None => None,
        };
        let ghost first = texts(log@);
        match found {
            Some(i) => {
                let mut next = self.tasks[i].clone();
                next.ntfy_context = copy_opt_context(&run.task.ntfy_context);
                let word = if success {
                    "success"
                } else {
                    "failure"
                };
                log.push(cat4("Chaining to ", word, " task: ", next.name.as_str()));
                assert(texts(log@) =~= first + chain_log(
                    success,
                    chained(self@.tasks, run.task@, success),
                ));
                Finished { log, next: Some((next, run.depth + 1)) }
            },
            None => {
                assert(texts(log@) =~= first + chain_log(
                    success,
                    chained(self@.tasks, run.task@, success),
                ));
                Finished { log, next: None }
            },
        }
    }
}

// ---------------------------------------------------------------------------
// Laws
// ---------------------------------------------------------------------------

/// The tasks that a step runs.
pub open spec fn runs_of(step: SchedulerStepView) -> Seq<StartedView> {
    match step {
        SchedulerStepView::Run(list) => list,
        SchedulerStepView::Stop => Seq::empty(),
    }
}

/// Unless a task is demanded by its identifier, the scheduler starts only tasks that
/// are enabled, and never one that runs on demand.
pub proof fn law_only_enabled_tasks_start(tasks: Seq<TaskView>, event: SchedulerEvent, k: int)
    requires
        0 <= k < runs_of(scheduler_step(tasks, event).1).len(),
        !(event matches SchedulerEvent::Command(Some(SchedulerCommand::RunTask(_)))),
    ensures
        ({
            let task = runs_of(scheduler_step(tasks, event).1)[k].task;
            task.enabled && !(task.trigger is OnDemand)
        }),
{
    match event {
        SchedulerEvent::Tick(clock) => {
            lemma_picked_source(
                tasks,
                |t: TaskView| fires(t, clock),
                |t: TaskView| StartedView { task: marked(t, clock), log: None },
                k,
            );
        },
        SchedulerEvent::Command(Some(SchedulerCommand::EmailReceived(email))) => {
            lemma_picked_source(
                tasks,
                |t: TaskView| email_starts(t, email@),
                |t: TaskView|
                    StartedView {
                        task: t,
                        log: Some("Email trigger matched for task: "@ + t.name),
                    },
                k,
            );
        },
        SchedulerEvent::Command(
            Some(SchedulerCommand::NtfyReceived { topic, title, message, tags }),
        ) => {
            let context = NtfyContextView {
                topic: topic@,
                title: title@,
                message: message@,
                tags: tags@,
            };
            lemma_picked_source(
                tasks,
                |t: TaskView| ntfy_starts(t, context),
                |t: TaskView|
                    StartedView {
                        task: TaskView { ntfy_context: Some(context), ..t },
                        log: Some("ntfy trigger matched for task: "@ + t.name),
                    },
                k,
            );
        },
        SchedulerEvent::Command(Some(SchedulerCommand::RunStartupTasks)) => {
            lemma_picked_source(tasks, |t: TaskView| starts_up(t), unchanged(), k);
        },
        _ => {},
    }
}

/// Any task can be run at once: a task that is demanded by its identifier starts,
/// whatever its trigger, and no other one does.
pub proof fn law_a_demanded_task_starts(tasks: Seq<TaskView>, i: int)
    requires
        0 <= i < tasks.len(),
        forall|j: int| 0 <= j < i ==> tasks[j].id != tasks[i].id,
    ensures
        ({
            let event = SchedulerEvent::Command(Some(SchedulerCommand::RunTask(tasks[i].id)));
            runs_of(scheduler_step(tasks, event).1) == seq![
                StartedView { task: tasks[i], log: None },
            ]
        }),
{
    lemma_find_first(tasks, tasks[i].id, 0, i);
}

/// A task with a time of day, or with days and a time, starts at most once on a
/// day: the clock that has started it does not start it again while the day
/// lasts.
pub proof fn law_daily_tasks_start_once_a_day(
    tasks: Seq<TaskView>,
    clock: ClockReading,
    later: ClockReading,
    i: int,
)
    requires
        0 <= i < tasks.len(),
        tasks[i].trigger is Time || tasks[i].trigger is DaysOfWeek,
        fires(tasks[i], clock),
        later.day == clock.day,
    ensures
        !fires(after_tick(tasks, clock)[i], later),
{
}

/// A task with an interval waits: after the clock has started it, it does not
/// start again before the minutes have passed.
pub proof fn law_interval_is_kept(
    tasks: Seq<TaskView>,
    clock: ClockReading,
    later: ClockReading,
    i: int,
    minutes: u64,
)
    requires
        0 <= i < tasks.len(),
        tasks[i].trigger == (TriggerView::Interval { minutes }),
        fires(tasks[i], clock),
    ensures
        fires(after_tick(tasks, clock)[i], later) <==> elapsed_minutes(later.now, clock.now)
            >= minutes,
{
}

/// The clock leaves a task alone that it does not start.
pub proof fn law_other_tasks_keep_their_marks(
    tasks: Seq<TaskView>,
    clock: ClockReading,
    i: int,
)
    requires
        0 <= i < tasks.len(),
        !fires(tasks[i], clock),
    ensures
        after_tick(tasks, clock).len() == tasks.len(),
        after_tick(tasks, clock)[i] == tasks[i],
{
}

/// A task without patterns starts on every message.
pub proof fn law_empty_patterns_meet_every_message(task: TaskView, email: EmailView)
    requires
        task.enabled,
        task.trigger matches TriggerView::Email { from_pattern, subject_pattern, body_pattern }
            && from_pattern.len() == 0 && subject_pattern.len() == 0 && body_pattern.len() == 0,
    ensures
        email_starts(task, email),
{
}

/// Whether runs begin one after the other as a chain does: each at a depth one
/// more than the one before, and none after one that did not begin.
pub open spec fn is_chain(
    tasks: Seq<TaskView>,
    addresses: Seq<Option<Seq<char>>>,
    starts: Seq<ExecutionStart>,
) -> bool {
    forall|i: int|
        0 <= i < starts.len() ==> begins(tasks[i], i as u8, addresses[i], #[trigger] starts[i]) && (
        i + 1 < starts.len() ==> starts[i] is Begun)
}

/// A chain ends: at most eleven runs begin, and the twelfth is refused.
pub proof fn law_chains_end(
    tasks: Seq<TaskView>,
    addresses: Seq<Option<Seq<char>>>,
    starts: Seq<ExecutionStart>,
)
    requires
        is_chain(tasks, addresses, starts),
    ensures
        starts.len() <= 12,
        starts.len() == 12 ==> starts[11] is Refused,
{
    if starts.len() >= 12 {
        assert(begins(tasks[11], 11, addresses[11], starts[11]));
    }
}

/// The context of a run goes on to the task that it leads to.
pub proof fn law_context_propagates(tasks: Seq<TaskView>, ran: TaskView, success: bool)
    ensures
        chained(tasks, ran, success) matches Some(next) ==> next.ntfy_context == ran.ntfy_context,
{
}

/// The first task with an identifier is the one that is found.
proof fn lemma_find_first(tasks: Seq<TaskView>, id: u128, from: int, i: int)
    requires
        0 <= from <= i < tasks.len(),
        tasks[i].id == id,
        forall|j: int| from <= j < i ==> tasks[j].id != id,
    ensures
        find_task(tasks, id, from) == Some(i),
    decreases i - from,
{
    if from < i {
        lemma_find_first(tasks, id, from + 1, i);
    }
}

/// The index that is found is that of a task with the identifier; where none is
/// found, no task has it.
pub proof fn lemma_find_task(tasks: Seq<TaskView>, id: u128, from: int)
    requires
        0 <= from,
    ensures
        match find_task(tasks, id, from) {
            Some(i) => from <= i < tasks.len() && tasks[i].id == id,
            None => forall|j: int| from <= j < tasks.len() ==> tasks[j].id != id,
        },
    decreases tasks.len() - from,
{
    if from < tasks.len() && tasks[from].id != id {
        lemma_find_task(tasks, id, from + 1);
    }
}

/// A run changes nothing but what its own task remembers of it: the tasks stay the
/// same in number and order, and every other one stays as it is.
pub proof fn law_a_run_changes_its_own_task_only(
    tasks: Seq<TaskView>,
    ran: TaskView,
    success: bool,
    error: Option<Seq<char>>,
    now: Timestamp,
    i: int,
)
    requires
        0 <= i < tasks.len(),
    ensures
        recorded(tasks, ran, success, error, now).len() == tasks.len(),
        recorded(tasks, ran, success, error, now)[i].id == tasks[i].id,
        tasks[i].id != ran.id ==> recorded(tasks, ran, success, error, now)[i] == tasks[i],
{
    lemma_find_task(tasks, ran.id, 0);
}

/// What is picked from two lists is what is picked from each, in this order.
proof fn lemma_picked_add(
    a: Seq<TaskView>,
    b: Seq<TaskView>,
    wanted: spec_fn(TaskView) -> bool,
    shape: spec_fn(TaskView) -> StartedView,
)
    ensures
        picked(a + b, wanted, shape) == picked(a, wanted, shape) + picked(b, wanted, shape),
{
    Seq::<TaskView>::filter_distributes_over_add(a, b, wanted);
    assert(picked(a + b, wanted, shape) =~= picked(a, wanted, shape) + picked(b, wanted, shape));
}

/// What is picked from one task is that task or nothing.
proof fn lemma_picked_one(
    task: TaskView,
    wanted: spec_fn(TaskView) -> bool,
    shape: spec_fn(TaskView) -> StartedView,
)
    ensures
        picked(seq![task], wanted, shape) == if wanted(task) {
            seq![shape(task)]
        } else {
            Seq::<StartedView>::empty()
        },
{
    let one = seq![task];
    lemma_picked_none(one, wanted, shape);
    lemma_picked_step(one, 0, wanted, shape);
    assert(one.take(1) =~= one);
    assert(Seq::<StartedView>::empty().push(shape(task)) =~= seq![shape(task)]);
}

/// The scheduler goes through its tasks one by one and in their order: what an event
/// starts, and what it makes of the tasks, is what it starts and makes of the first
/// ones, and behind that what it starts and makes of the others.
pub proof fn law_tasks_are_gone_through_in_order(
    a: Seq<TaskView>,
    b: Seq<TaskView>,
    event: SchedulerEvent,
)
    requires
        !(event matches SchedulerEvent::Command(Some(SchedulerCommand::RunTask(_)))),
        !(event matches SchedulerEvent::Command(Some(SchedulerCommand::UpdateTasks(_)))),
    ensures
        runs_of(scheduler_step(a + b, event).1) == runs_of(scheduler_step(a, event).1) + runs_of(
            scheduler_step(b, event).1,
        ),
        scheduler_step(a + b, event).0 == scheduler_step(a, event).0 + scheduler_step(b, event).0,
{
    match event {
        SchedulerEvent::Tick(clock) => {
            lemma_picked_add(
                a,
                b,
                |t: TaskView| fires(t, clock),
                |t: TaskView| StartedView { task: marked(t, clock), log: None },
            );
            assert(after_tick(a + b, clock) =~= after_tick(a, clock) + after_tick(b, clock));
        },
        SchedulerEvent::Command(Some(SchedulerCommand::EmailReceived(email))) => {
            lemma_picked_add(
                a,
                b,
                |t: TaskView| email_starts(t, email@),
                |t: TaskView|
                    StartedView {
                        task: t,
                        log: Some("Email trigger matched for task: "@ + t.name),
                    },
            );
        },
        SchedulerEvent::Command(
            Some(SchedulerCommand::NtfyReceived { topic, title, message, tags }),
        ) => {
            let context = NtfyContextView {
                topic: topic@,
                title: title@,
                message: message@,
                tags: tags@,
            };
            lemma_picked_add(
                a,
                b,
                |t: TaskView| ntfy_starts(t, context),
                |t: TaskView|
                    StartedView {
                        task: TaskView { ntfy_context: Some(context), ..t },
                        log: Some("ntfy trigger matched for task: "@ + t.name),
                    },
            );
        },
        SchedulerEvent::Command(Some(SchedulerCommand::RunStartupTasks)) => {
            lemma_picked_add(a, b, |t: TaskView| starts_up(t), unchanged());
        },
        _ => {
            assert(Seq::<StartedView>::empty() + Seq::<StartedView>::empty()
                =~= Seq::<StartedView>::empty());
        },
    }
}

/// What the clock makes of one task.
proof fn lemma_clock_and_one(task: TaskView, clock: ClockReading)
    ensures
        ({
            let step = scheduler_step(seq![task], SchedulerEvent::Tick(clock));
            if fires(task, clock) {
                step.0 == seq![marked(task, clock)] && runs_of(step.1) == seq![
                    StartedView { task: marked(task, clock), log: None },
                ]
            } else {
                step.0 == seq![task] && runs_of(step.1) == Seq::<StartedView>::empty()
            }
        }),
{
    lemma_picked_one(
        task,
        |t: TaskView| fires(t, clock),
        |t: TaskView| StartedView { task: marked(t, clock), log: None },
    );
    assert(after_tick(seq![task], clock) =~= if fires(task, clock) {
        seq![marked(task, clock)]
    } else {
        seq![task]
    });
}

/// Where the clock starts a task, the task that runs and the task that stays are the
/// task with this day and this instant noted; where it does not, the task stays as it
/// is.
pub proof fn law_the_clock_notes_what_it_starts(task: TaskView, clock: ClockReading)
    ensures
        ({
            let step = scheduler_step(seq![task], SchedulerEvent::Tick(clock));
            let noted = TaskView {
                last_triggered_date: Some(clock.day),
                interval_last_run: Some(clock.now),
                ..task
            };
            ||| runs_of(step.1).len() == 0 && step.0 == seq![task]
            ||| runs_of(step.1) == seq![StartedView { task: noted, log: None }] && step.0 == seq![
                noted,
            ]
        }),
{
    lemma_clock_and_one(task, clock);
}

/// A task with a time of day is started by a clock reading if and only if it is
/// enabled, was not started on this day, and the clock shows its hour and its minute
/// and no seconds.
pub proof fn law_a_time_of_day_starts(task: TaskView, hour: u8, minute: u8, clock: ClockReading)
    requires
        task.trigger == (TriggerView::Time { hour, minute }),
        hour < 24 && minute < 60,
        clock.hour < 24 && clock.minute < 60,
    ensures
        runs_of(scheduler_step(seq![task], SchedulerEvent::Tick(clock)).1).len() == 1 <==> (
        task.enabled && task.last_triggered_date != Some(clock.day) && clock.hour == hour
            && clock.minute == minute && clock.second == 0),
{
    lemma_clock_and_one(task, clock);
}

/// A task with days and a time is started by a clock reading if and only if it is
/// enabled, was not started on this day, this day of the week is among its days, and
/// the clock shows its hour and its minute and no seconds.
pub proof fn law_days_and_a_time_start(
    task: TaskView,
    days: Seq<Weekday>,
    hour: u8,
    minute: u8,
    clock: ClockReading,
)
    requires
        task.trigger == (TriggerView::DaysOfWeek { days, hour, minute }),
        hour < 24 && minute < 60,
        clock.hour < 24 && clock.minute < 60,
    ensures
        runs_of(scheduler_step(seq![task], SchedulerEvent::Tick(clock)).1).len() == 1 <==> (
        task.enabled && task.last_triggered_date != Some(clock.day) && (exists|k: int|
            0 <= k < days.len() && #[trigger] days[k] == clock.weekday) && clock.hour == hour
            && clock.minute == minute && clock.second == 0),
{
    lemma_clock_and_one(task, clock);
}

/// A task with an interval of at least a minute is started by a clock reading if and
/// only if it is enabled and the clock never started it, or did so at least so many
/// minutes ago.
pub proof fn law_an_interval_starts(task: TaskView, minutes: u64, clock: ClockReading)
    requires
        task.trigger == (TriggerView::Interval { minutes }),
        minutes >= 1,
    ensures
        runs_of(scheduler_step(seq![task], SchedulerEvent::Tick(clock)).1).len() == 1 <==> (
        task.enabled && match task.interval_last_run {
            None => true,
            Some(last) => (clock.now.secs - last.secs) * 1_000_000_000 + (clock.now.nanos
                - last.nanos) >= minutes * 60_000_000_000,
        }),
{
    lemma_clock_and_one(task, clock);
}

/// The clock starts no task that waits for a message, for the start of the service or
/// for a demand.
pub proof fn law_the_clock_starts_no_other_task(task: TaskView, clock: ClockReading)
    requires
        task.trigger is Email || task.trigger is Ntfy || task.trigger is Startup
            || task.trigger is OnDemand,
    ensures
        runs_of(scheduler_step(seq![task], SchedulerEvent::Tick(clock)).1).len() == 0,
{
    lemma_clock_and_one(task, clock);
}

/// A mail starts a task if and only if the task is enabled and waits for mails, and
/// each of its three patterns is empty or stands, in lower case, in the lower case of
/// the part it is for: the sender, the subject, the body. The task that runs is the
/// task itself, and the log names it.
pub proof fn law_a_mail_starts(task: TaskView, email: ReceivedEmail)
    ensures
        ({
            let event = SchedulerEvent::Command(Some(SchedulerCommand::EmailReceived(email)));
            let step = scheduler_step(seq![task], event);
            &&& step.0 == seq![task]
            &&& runs_of(step.1).len() == 0 || runs_of(step.1) == seq![
                StartedView { task, log: Some("Email trigger matched for task: "@ + task.name) },
            ]
            &&& runs_of(step.1).len() == 1 <==> (task.enabled && (task.trigger matches
                TriggerView::Email { from_pattern, subject_pattern, body_pattern } && (
            from_pattern.len() == 0 || stands_in(lowercase(from_pattern), lowercase(email.from@)))
                && (subject_pattern.len() == 0 || stands_in(
                lowercase(subject_pattern),
                lowercase(email.subject@),
            )) && (body_pattern.len() == 0 || stands_in(
                lowercase(body_pattern),
                lowercase(email.body@),
            ))))
        }),
{
    lemma_picked_one(
        task,
        |t: TaskView| email_starts(t, email@),
        |t: TaskView|
            StartedView { task: t, log: Some("Email trigger matched for task: "@ + t.name) },
    );
    if let TriggerView::Email { from_pattern, subject_pattern, body_pattern } = task.trigger {
        law_containing_is_standing_in(lowercase(email.from@), lowercase(from_pattern));
        law_containing_is_standing_in(lowercase(email.subject@), lowercase(subject_pattern));
        law_containing_is_standing_in(lowercase(email.body@), lowercase(body_pattern));
    }
}

/// Whatever task a mail starts among many, each of its patterns that is not empty
/// stands, in lower case, in the lower case of the part it is for. So a mail whose
/// subject does not hold a pattern starts no task with that pattern for the subject,
/// whatever its other parts say; likewise for the sender and the body.
pub proof fn law_no_mail_starts_past_a_pattern(
    tasks: Seq<TaskView>,
    email: ReceivedEmail,
    k: int,
    from_pattern: Seq<char>,
    subject_pattern: Seq<char>,
    body_pattern: Seq<char>,
)
    requires
        ({
            let event = SchedulerEvent::Command(Some(SchedulerCommand::EmailReceived(email)));
            let runs = runs_of(scheduler_step(tasks, event).1);
            0 <= k < runs.len() && runs[k].task.trigger == (TriggerView::Email {
                from_pattern,
                subject_pattern,
                body_pattern,
            })
        }),
    ensures
        from_pattern.len() > 0 ==> stands_in(lowercase(from_pattern), lowercase(email.from@)),
        subject_pattern.len() > 0 ==> stands_in(
            lowercase(subject_pattern),
            lowercase(email.subject@),
        ),
        body_pattern.len() > 0 ==> stands_in(lowercase(body_pattern), lowercase(email.body@)),
{
    lemma_picked_source(
        tasks,
        |t: TaskView| email_starts(t, email@),
        |t: TaskView|
            StartedView { task: t, log: Some("Email trigger matched for task: "@ + t.name) },
        k,
    );
    law_containing_is_standing_in(lowercase(email.from@), lowercase(from_pattern));
    law_containing_is_standing_in(lowercase(email.subject@), lowercase(subject_pattern));
    law_containing_is_standing_in(lowercase(email.body@), lowercase(body_pattern));
}

/// A message on a topic starts a task if and only if the task is enabled and waits for
/// messages on this very topic, and each of its two patterns is empty or stands, in
/// lower case, in the lower case of the part it is for: the title, the text. The task
/// that runs has the whole message as its context, the log names it, and the task that
/// stays is as it was.
pub proof fn law_a_message_starts(
    task: TaskView,
    topic: String,
    title: String,
    message: String,
    tags: String,
)
    ensures
        ({
            let event = SchedulerEvent::Command(
                Some(SchedulerCommand::NtfyReceived { topic, title, message, tags }),
            );
            let step = scheduler_step(seq![task], event);
            &&& step.0 == seq![task]
            &&& runs_of(step.1).len() <= 1
            &&& runs_of(step.1).len() == 1 ==> {
                let run = runs_of(step.1)[0];
                &&& run.log == Some("ntfy trigger matched for task: "@ + task.name)
                &&& run.task == (TaskView { ntfy_context: run.task.ntfy_context, ..task })
                &&& run.task.ntfy_context matches Some(c) && c.topic == topic@ && c.title == title@
                    && c.message == message@ && c.tags == tags@
            }
            &&& runs_of(step.1).len() == 1 <==> (task.enabled && (task.trigger matches
                TriggerView::Ntfy { topic: awaited, title_pattern, message_pattern, .. } && awaited
                == topic@ && (title_pattern.len() == 0 || stands_in(
                lowercase(title_pattern),
                lowercase(title@),
            )) && (message_pattern.len() == 0 || stands_in(
                lowercase(message_pattern),
                lowercase(message@),
            ))))
        }),
{
    let context = NtfyContextView {
        topic: topic@,
        title: title@,
        message: message@,
        tags: tags@,
    };
    lemma_picked_one(
        task,
        |t: TaskView| ntfy_starts(t, context),
        |t: TaskView|
            StartedView {
                task: TaskView { ntfy_context: Some(context), ..t },
                log: Some("ntfy trigger matched for task: "@ + t.name),
            },
    );
    if let TriggerView::Ntfy { title_pattern, message_pattern, .. } = task.trigger {
        law_containing_is_standing_in(lowercase(title@), lowercase(title_pattern));
        law_containing_is_standing_in(lowercase(message@), lowercase(message_pattern));
    }
}

/// The start of the service starts a task if and only if the task is enabled and waits
/// for it; it runs as it is.
pub proof fn law_the_service_starts(task: TaskView)
    ensures
        ({
            let event = SchedulerEvent::Command(Some(SchedulerCommand::RunStartupTasks));
            let step = scheduler_step(seq![task], event);
            &&& step.0 == seq![task]
            &&& runs_of(step.1) == if task.enabled && task.trigger is Startup {
                seq![StartedView { task, log: None }]
            } else {
                Seq::<StartedView>::empty()
            }
        }),
{
    lemma_picked_one(task, |t: TaskView| starts_up(t), unchanged());
}

/// A demand for an identifier that no task has starts nothing, and no demand changes a
/// task.
pub proof fn law_a_demand_for_no_task_starts_nothing(tasks: Seq<TaskView>, id: u128)
    ensures
        ({
            let event = SchedulerEvent::Command(Some(SchedulerCommand::RunTask(id)));
            let step = scheduler_step(tasks, event);
            &&& step.0 == tasks
            &&& (forall|i: int| 0 <= i < tasks.len() ==> (#[trigger] tasks[i]).id != id) ==> runs_of(
                step.1,
            ).len() == 0
        }),
{
    lemma_find_task(tasks, id, 0);
}

/// New tasks take the place of the old ones, and none of them is run for that.
pub proof fn law_new_tasks_take_the_place(tasks: Seq<TaskView>, new_tasks: Vec<Task>)
    ensures
        ({
            let event = SchedulerEvent::Command(Some(SchedulerCommand::UpdateTasks(new_tasks)));
            let step = scheduler_step(tasks, event);
            &&& step.0.len() == new_tasks@.len()
            &&& forall|i: int| 0 <= i < new_tasks@.len() ==> #[trigger] step.0[i] == new_tasks@[i]@
            &&& step.1 is Run
            &&& runs_of(step.1).len() == 0
        }),
{
}

/// The scheduler stops where it is shut down or no command can come any more, and for
/// no other reason; its tasks stay as they are.
pub proof fn law_only_a_shutdown_stops(tasks: Seq<TaskView>, event: SchedulerEvent)
    ensures
        scheduler_step(tasks, event).1 is Stop <==> (event == SchedulerEvent::Command(None)
            || event == SchedulerEvent::Command(Some(SchedulerCommand::Shutdown))),
        scheduler_step(tasks, event).1 is Stop ==> scheduler_step(tasks, event).0 == tasks,
{
}

/// A run begins if and only if at most ten runs led to it. It is a run of the task that
/// was given, with the address that was given, and the log names the task either way.
pub proof fn law_a_run_begins(
    task: TaskView,
    depth: u8,
    public_ip: Option<Seq<char>>,
    start: ExecutionStart,
)
    requires
        begins(task, depth, public_ip, start),
    ensures
        start is Begun <==> depth <= 10,
        start matches ExecutionStart::Refused(log) ==> log@ == "Chain depth exceeded for task '"@
            + task.name + "' -- aborting chain"@,
        start matches ExecutionStart::Begun { log, run } ==> log@ == "Executing task: "@ + task.name
            && run.task@ == task && run.depth == depth && (match run.public_ip {
            Some(ip) => public_ip == Some(ip@),
            None => public_ip is None,
        }),
{
}

/// A notification is made if and only if the task wants one, and wants one for such a
/// result: for successes, for failures or for both.
pub proof fn law_a_notification_is_made(
    task: TaskView,
    public_ip: Option<Seq<char>>,
    success: bool,
    error: Option<Seq<char>>,
)
    ensures
        notification_of(task, public_ip, success, error) is Some <==> (task.pushover_enabled && (
        task.notify_when == NotifyWhen::Both || (task.notify_when == NotifyWhen::Success && success)
            || (task.notify_when == NotifyWhen::Failure && !success))),
{
}

/// A notification has the texts that the task has for such a result, with the values of
/// their variables, its priority and its sound. The error of a run that broke off
/// stands behind the text.
pub proof fn law_a_notification_tells_the_result(
    task: TaskView,
    public_ip: Option<Seq<char>>,
    success: bool,
    error: Option<Seq<char>>,
    text: Seq<char>,
)
    requires
        notification_of(task, public_ip, success, error) is Some,
        notification_of(task, public_ip, success, error)->0.message == match error {
            Some(e) => text + ": "@ + e,
            None => text,
        },
    ensures
        ({
            let n = notification_of(task, public_ip, success, error)->0;
            let c = task.ntfy_context;
            &&& success ==> reads_as(task.pushover_title_success, n.title, c, public_ip)
            &&& success ==> reads_as(task.pushover_message_success, text, c, public_ip)
            &&& !success ==> reads_as(task.pushover_title_failure, n.title, c, public_ip)
            &&& !success ==> reads_as(task.pushover_message_failure, text, c, public_ip)
            &&& reads_as(task.pushover_sound, n.sound, c, public_ip)
            &&& n.priority == task.pushover_priority
        }),
{
    let c = task.ntfy_context;
    law_variables_are_read(task.pushover_title_success, c, public_ip);
    law_variables_are_read(task.pushover_message_success, c, public_ip);
    law_variables_are_read(task.pushover_title_failure, c, public_ip);
    law_variables_are_read(task.pushover_message_failure, c, public_ip);
    law_variables_are_read(task.pushover_sound, c, public_ip);
    let wanted = substituted(
        if success {
            task.pushover_message_success
        } else {
            task.pushover_message_failure
        },
        c,
        public_ip,
    );
    if let Some(e) = error {
        let n = notification_of(task, public_ip, success, error)->0;
        let tail = ": "@ + e;
        assert(text + ": "@ + e =~= text + tail);
        assert(wanted + ": "@ + e =~= wanted + tail);
        assert(text.len() == wanted.len());
        assert(text =~= wanted) by {
            assert forall|i: int| 0 <= i < text.len() implies text[i] == wanted[i] by {
                assert((text + tail)[i] == (wanted + tail)[i]);
            }
        }
    }
}

/// A message in a notification ends with the error, where there is one.
pub proof fn law_a_notification_ends_with_the_error(
    task: TaskView,
    public_ip: Option<Seq<char>>,
    success: bool,
    error: Seq<char>,
)
    requires
        notification_of(task, public_ip, success, Some(error)) is Some,
    ensures
        notification_of(task, public_ip, success, None) is Some,
        notification_of(task, public_ip, success, Some(error))->0.message == notification_of(
            task,
            public_ip,
            success,
            None,
        )->0.message + ": "@ + error,
{
}

/// A result is a success if and only if the run came to its end and found what it was
/// to find; an error is kept as it is.
pub proof fn law_results_are_told_apart(result: Result<bool, String>)
    ensures
        succeeded(result) <==> (result matches Ok(found) && found),
        result matches Err(e) ==> error_of(result) == Some(e@),
        result is Ok ==> error_of(result) is None,
{
}

/// After a run, the first task with its identifier knows when it ran, whether it
/// succeeded, its error and its context, and is otherwise as it was.
pub proof fn law_a_run_is_noted(
    tasks: Seq<TaskView>,
    ran: TaskView,
    success: bool,
    error: Option<Seq<char>>,
    now: Timestamp,
    i: int,
)
    requires
        0 <= i < tasks.len(),
        tasks[i].id == ran.id,
        forall|j: int| 0 <= j < i ==> (#[trigger] tasks[j]).id != ran.id,
    ensures
        ({
            let after = recorded(tasks, ran, success, error, now);
            &&& after[i].last_run == Some(now)
            &&& after[i].last_result == Some(success)
            &&& after[i].last_error == error
            &&& after[i].ntfy_context == ran.ntfy_context
            &&& after[i] == (TaskView {
                last_run: after[i].last_run,
                last_result: after[i].last_result,
                last_error: after[i].last_error,
                ntfy_context: after[i].ntfy_context,
                ..tasks[i]
            })
            &&& forall|j: int| 0 <= j < tasks.len() && j != i ==> #[trigger] after[j] == tasks[j]
        }),
{
    lemma_find_first(tasks, ran.id, 0, i);
}

/// A success leads to the first task with the identifier that the task that ran has for
/// successes, a failure to the one for failures; the task that comes next is that task
/// but for the context, which is that of the run.
pub proof fn law_a_run_leads_on(tasks: Seq<TaskView>, ran: TaskView, success: bool, i: int)
    requires
        0 <= i < tasks.len(),
        success ==> ran.on_success_task_id == Some(tasks[i].id),
        !success ==> ran.on_failure_task_id == Some(tasks[i].id),
        forall|j: int| 0 <= j < i ==> (#[trigger] tasks[j]).id != tasks[i].id,
    ensures
        chained(tasks, ran, success) == Some(
            TaskView { ntfy_context: ran.ntfy_context, ..tasks[i] },
        ),
{
    lemma_find_first(tasks, tasks[i].id, 0, i);
}

/// A run leads to no task where the one that ran has none for such a result, or where
/// no task has that identifier.
pub proof fn law_a_run_leads_nowhere(tasks: Seq<TaskView>, ran: TaskView, success: bool)
    requires
        success ==> (ran.on_success_task_id matches Some(id) ==> forall|j: int|
            0 <= j < tasks.len() ==> (#[trigger] tasks[j]).id != id),
        !success ==> (ran.on_failure_task_id matches Some(id) ==> forall|j: int|
            0 <= j < tasks.len() ==> (#[trigger] tasks[j]).id != id),
    ensures
        chained(tasks, ran, success) is None,
{
    let id = if success {
        ran.on_success_task_id
    } else {
        ran.on_failure_task_id
    };
    if let Some(id) = id {
        lemma_find_task(tasks, id, 0);
    }
}

/// The log says of a run how it ended, and why it broke off, and names the task that it
/// leads to.
pub proof fn law_the_log_tells_the_result(name: Seq<char>, error: Seq<char>, next: TaskView)
    ensures
        completed_log(name, true, None) == "Task '"@ + name + "' completed: SUCCESS"@,
        completed_log(name, false, None) == "Task '"@ + name + "' completed: FAILURE"@,
        completed_log(name, false, Some(error)) == "Task '"@ + name + "' completed: FAILURE - "@
            + error,
        chain_log(true, Some(next)) == seq!["Chaining to success task: "@ + next.name],
        chain_log(false, Some(next)) == seq!["Chaining to failure task: "@ + next.name],
        chain_log(true, None).len() == 0,
        chain_log(false, None).len() == 0,
{
    reveal_strlit("' completed: ");
    reveal_strlit("SUCCESS");
    reveal_strlit("FAILURE");
    reveal_strlit(" - ");
    reveal_strlit("");
    reveal_strlit("' completed: SUCCESS");
    reveal_strlit("' completed: FAILURE");
    reveal_strlit("' completed: FAILURE - ");
    reveal_strlit("Chaining to ");
    reveal_strlit("success");
    reveal_strlit("failure");
    reveal_strlit(" task: ");
    reveal_strlit("Chaining to success task: ");
    reveal_strlit("Chaining to failure task: ");
    assert(completed_log(name, true, None) =~= "Task '"@ + name + "' completed: SUCCESS"@);
    assert(completed_log(name, false, None) =~= "Task '"@ + name + "' completed: FAILURE"@);
    assert(completed_log(name, false, Some(error)) =~= "Task '"@ + name
        + "' completed: FAILURE - "@ + error);
    assert(chain_log(true, Some(next))[0] =~= "Chaining to success task: "@ + next.name);
    assert(chain_log(false, Some(next))[0] =~= "Chaining to failure task: "@ + next.name);
}

/// A run that begins is within the limit for chains, and so can be ended; the task that it
/// leads to then begins or is refused.
pub proof fn law_runs_that_begin_can_end(
    task: TaskView,
    depth: u8,
    public_ip: Option<Seq<char>>,
    start: ExecutionStart,
)
    requires
        begins(task, depth, public_ip, start),
    ensures
        start matches ExecutionStart::Begun { run, .. } ==> run.wf() && run.depth < 255,
{
}

/// What is said of a scheduler is said of its parts, each of them by itself.
pub proof fn law_schedulers_are_seen_whole(s: Scheduler)
    ensures
        s@.tasks == task_views(s.tasks@),
        match s.pushover {
            Some(client) => s@.pushover == Some((client.app_token@, client.user_key@)),
            None => s@.pushover is None,
        },
        match s.cloudflare {
            Some(client) => s@.cloudflare matches Some(c) && c.token == client.token@ && c.email
                == opt_text(client.email),
            None => s@.cloudflare is None,
        },
        match s.master_password {
            Some(password) => s@.master_password == Some(password@),
            None => s@.master_password is None,
        },
        match s.password_salt {
            Some(salt) => s@.password_salt == Some(salt@),
            None => s@.password_salt is None,
        },
{
}

/// What is said of a mail is said of its sender, its subject and its body.
pub proof fn law_mails_are_seen_whole(email: ReceivedEmail)
    ensures
        email@.from == email.from@,
        email@.subject == email.subject@,
        email@.body == email.body@,
{
}

/// A run leads to the first task with the identifier that the task that ran has for such a
/// result, one deeper in the chain and with the context of the run; to none where there is no
/// such task.
pub proof fn law_chains_go_deeper(
    tasks: Seq<TaskView>,
    ran: TaskView,
    depth: u8,
    success: bool,
    error: Option<Seq<char>>,
    now: Timestamp,
    i: int,
    id: u128,
)
    requires
        if success {
            ran.on_success_task_id == Some(id)
        } else {
            ran.on_failure_task_id == Some(id)
        },
    ensures
        (0 <= i < tasks.len() && tasks[i].id == id && (forall|j: int|
            0 <= j < i ==> (#[trigger] tasks[j]).id != id)) ==> (next_run(
            tasks,
            ran,
            depth,
            success,
            error,
            now,
        ) matches Some((task, deeper)) && deeper == depth + 1 && task.id == id && task.name
            == tasks[i].name && task.task_type == tasks[i].task_type && task.ntfy_context
            == ran.ntfy_context),
        (forall|j: int| 0 <= j < tasks.len() ==> (#[trigger] tasks[j]).id != id) ==> next_run(
            tasks,
            ran,
            depth,
            success,
            error,
            now,
        ) is None,
{
    let after = recorded(tasks, ran, success, error, now);
    lemma_find_task(tasks, ran.id, 0);
    lemma_find_task(after, id, 0);
    assert(after.len() == tasks.len());
    assert forall|j: int| 0 <= j < tasks.len() implies (#[trigger] after[j]).id == tasks[j].id by {
        law_a_run_changes_its_own_task_only(tasks, ran, success, error, now, j);
    }
    if 0 <= i < tasks.len() && tasks[i].id == id && (forall|j: int|
        0 <= j < i ==> (#[trigger] tasks[j]).id != id) {
        assert forall|j: int| 0 <= j < i implies (#[trigger] after[j]).id != id by {
            assert(tasks[j].id != id);
        }
        lemma_find_first(after, id, 0, i);
    }
    if forall|j: int| 0 <= j < tasks.len() ==> (#[trigger] tasks[j]).id != id {
        if let Some(k) = find_task(after, id, 0) {
            assert(after[k].id == id);
            assert(tasks[k].id != id);
        }
    }
}

} // verus!
