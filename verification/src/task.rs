//! Tasks: what starts them, what they do, and whom they tell.

use crate::clock::weekday_name;
use crate::clock::Timestamp;
use crate::clock::Weekday;
use crate::number::decimal;
use crate::number::decimal_text;
use crate::number::law_two_digits;
use crate::number::two_digits;
use crate::number::two_digits_text;
use crate::text::cat2;
use crate::text::cat3;
use crate::text::cat4;
use crate::text::cat6;
use crate::text::cat7;
use crate::text::copy_text;
use crate::text::join;
use crate::text::join_texts;
use crate::text::law_trim_end_of_takes_all;
use crate::text::opt_text;
use crate::text::texts;
use crate::text::trim_end_of;
use crate::text::trim_end_of_text;
use vstd::prelude::*;
use vstd::slice::slice_to_vec;

verus! {

// ---------------------------------------------------------------------------
// Types
// ---------------------------------------------------------------------------

/// The message that started a task, as its texts can quote it.
#[derive(Debug)]
pub struct NtfyContext {
    pub topic: String,
    pub title: String,
    pub message: String,
    /// The tags of the message, separated by commas.
    pub tags: String,
}

pub struct NtfyContextView {
    pub topic: Seq<char>,
    pub title: Seq<char>,
    pub message: Seq<char>,
    pub tags: Seq<char>,
}

/// What starts a task.
#[derive(Debug, PartialEq)]
pub enum TriggerType {
    Time { hour: u8, minute: u8 },
    DaysOfWeek { days: Vec<Weekday>, hour: u8, minute: u8 },
    Interval { minutes: u64 },
    Email { from_pattern: String, subject_pattern: String, body_pattern: String },
    Ntfy { server: String, topic: String, title_pattern: String, message_pattern: String },
    Startup,
    OnDemand,
}

pub enum TriggerView {
    Time { hour: u8, minute: u8 },
    DaysOfWeek { days: Seq<Weekday>, hour: u8, minute: u8 },
    Interval { minutes: u64 },
    Email { from_pattern: Seq<char>, subject_pattern: Seq<char>, body_pattern: Seq<char> },
    Ntfy {
        server: Seq<char>,
        topic: Seq<char>,
        title_pattern: Seq<char>,
        message_pattern: Seq<char>,
    },
    Startup,
    OnDemand,
}

/// Which way a task talks to an ntfy server.
#[derive(Debug, Clone, Copy, PartialEq, Eq, Structural)]
pub enum NtfyAction {
    Publish,
    Subscribe,
}

/// What a task does to a list of addresses.
#[derive(Debug, Clone, Copy, PartialEq, Eq, Structural)]
pub enum IpListAction {
    Add,
    Remove,
    ReplaceAll,
}

/// What a task does.
#[derive(Debug, PartialEq)]
pub enum TaskType {
    HttpGet { url: String },
    HttpPost { url: String, body: String, headers: String },
    Command { command: String, args: String, working_dir: String },
    PathCheck { path: String, check_file_exists: bool, file_path: String },
    FileChanged { file_path: String, baseline_hash: Option<String> },
    Ntfy {
        server: String,
        topic: String,
        title: String,
        message: String,
        priority: String,
        tags: String,
        action: NtfyAction,
        subscribe_timeout_secs: u64,
    },
    GetPublicIp,
    CloudflareDnsUpdate {
        zone_id: String,
        record_name: String,
        record_type: String,
        record_id: String,
        content: String,
        proxied: bool,
        ttl: u32,
        api_token_plain: Option<String>,
        api_email_plain: Option<String>,
        api_token_encrypted: Option<Vec<u8>>,
        api_email_encrypted: Option<Vec<u8>>,
    },
    CloudflareIpListUpdate {
        account_id: String,
        list_id: String,
        list_name: String,
        ip: String,
        comment: String,
        action: IpListAction,
        api_token_plain: Option<String>,
        api_email_plain: Option<String>,
        api_token_encrypted: Option<Vec<u8>>,
        api_email_encrypted: Option<Vec<u8>>,
    },
}

pub enum TaskTypeView {
    HttpGet { url: Seq<char> },
    HttpPost { url: Seq<char>, body: Seq<char>, headers: Seq<char> },
    Command { command: Seq<char>, args: Seq<char>, working_dir: Seq<char> },
    PathCheck { path: Seq<char>, check_file_exists: bool, file_path: Seq<char> },
    FileChanged { file_path: Seq<char>, baseline_hash: Option<Seq<char>> },
    Ntfy {
        server: Seq<char>,
        topic: Seq<char>,
        title: Seq<char>,
        message: Seq<char>,
        priority: Seq<char>,
        tags: Seq<char>,
        action: NtfyAction,
        subscribe_timeout_secs: u64,
    },
    GetPublicIp,
    CloudflareDnsUpdate {
        zone_id: Seq<char>,
        record_name: Seq<char>,
        record_type: Seq<char>,
        record_id: Seq<char>,
        content: Seq<char>,
        proxied: bool,
        ttl: u32,
        api_token_plain: Option<Seq<char>>,
        api_email_plain: Option<Seq<char>>,
        api_token_encrypted: Option<Seq<u8>>,
        api_email_encrypted: Option<Seq<u8>>,
    },
    CloudflareIpListUpdate {
        account_id: Seq<char>,
        list_id: Seq<char>,
        list_name: Seq<char>,
        ip: Seq<char>,
        comment: Seq<char>,
        action: IpListAction,
        api_token_plain: Option<Seq<char>>,
        api_email_plain: Option<Seq<char>>,
        api_token_encrypted: Option<Seq<u8>>,
        api_email_encrypted: Option<Seq<u8>>,
    },
}

/// After which results a task sends a notification.
#[derive(Debug, Clone, Copy, PartialEq, Eq, Structural)]
pub enum NotifyWhen {
    Success,
    Failure,
    Both,
}

/// A task, with what is known of its last run.
#[derive(Debug)]
pub struct Task {
    /// The identifier, as the number that a UUID stands for.
    pub id: u128,
    pub name: String,
    pub enabled: bool,
    pub trigger: TriggerType,
    pub task_type: TaskType,
    pub notify_when: NotifyWhen,
    pub pushover_enabled: bool,
    pub pushover_title_success: String,
    pub pushover_message_success: String,
    pub pushover_title_failure: String,
    pub pushover_message_failure: String,
    pub pushover_priority: i8,
    pub pushover_sound: String,
    pub last_run: Option<Timestamp>,
    pub last_result: Option<bool>,
    pub last_error: Option<String>,
    /// The day on which the clock last started the task.
    pub last_triggered_date: Option<i32>,
    /// When the clock last started the task.
    pub interval_last_run: Option<Timestamp>,
    pub on_success_task_id: Option<u128>,
    pub on_failure_task_id: Option<u128>,
    pub ntfy_context: Option<NtfyContext>,
}

pub struct TaskView {
    pub id: u128,
    pub name: Seq<char>,
    pub enabled: bool,
    pub trigger: TriggerView,
    pub task_type: TaskTypeView,
    pub notify_when: NotifyWhen,
    pub pushover_enabled: bool,
    pub pushover_title_success: Seq<char>,
    pub pushover_message_success: Seq<char>,
    pub pushover_title_failure: Seq<char>,
    pub pushover_message_failure: Seq<char>,
    pub pushover_priority: i8,
    pub pushover_sound: Seq<char>,
    pub last_run: Option<Timestamp>,
    pub last_result: Option<bool>,
    pub last_error: Option<Seq<char>>,
    pub last_triggered_date: Option<i32>,
    pub interval_last_run: Option<Timestamp>,
    pub on_success_task_id: Option<u128>,
    pub on_failure_task_id: Option<u128>,
    pub ntfy_context: Option<NtfyContextView>,
}

// ---------------------------------------------------------------------------
// Views
// ---------------------------------------------------------------------------

/// The bytes of an optional byte string.
pub open spec fn opt_bytes(bytes: Option<Vec<u8>>) -> Option<Seq<u8>> {
    match bytes {
        Some(b) => Some(b@),
        None => None,
    }
}

/// The contents of an optional message context.
pub open spec fn opt_context(context: Option<NtfyContext>) -> Option<NtfyContextView> {
    match context {
        Some(c) => Some(c@),
        None => None,
    }
}

/// The contents of a list of tasks.
pub open spec fn task_views(tasks: Seq<Task>) -> Seq<TaskView> {
    Seq::new(tasks.len(), |i: int| tasks[i]@)
}

impl View for NtfyContext {
    type V = NtfyContextView;

    open spec fn view(&self) -> NtfyContextView {
        NtfyContextView {
            topic: self.topic@,
            title: self.title@,
            message: self.message@,
            tags: self.tags@,
        }
    }
}

impl View for TriggerType {
    type V = TriggerView;

    open spec fn view(&self) -> TriggerView {
        match *self {
            TriggerType::Time { hour, minute } => TriggerView::Time { hour, minute },
            TriggerType::DaysOfWeek { days, hour, minute } => TriggerView::DaysOfWeek {
                days: days@,
                hour,
                minute,
            },
            TriggerType::Interval { minutes } => TriggerView::Interval { minutes },
            TriggerType::Email { from_pattern, subject_pattern, body_pattern } => {
                TriggerView::Email {
                    from_pattern: from_pattern@,
                    subject_pattern: subject_pattern@,
                    body_pattern: body_pattern@,
                }
            },
            TriggerType::Ntfy { server, topic, title_pattern, message_pattern } => {
                TriggerView::Ntfy {
                    server: server@,
                    topic: topic@,
                    title_pattern: title_pattern@,
                    message_pattern: message_pattern@,
                }
            },
            TriggerType::Startup => TriggerView::Startup,
            TriggerType::OnDemand => TriggerView::OnDemand,
        }
    }
}

impl View for TaskType {
    type V = TaskTypeView;

    open spec fn view(&self) -> TaskTypeView {
        match *self {
            TaskType::HttpGet { url } => TaskTypeView::HttpGet { url: url@ },
            TaskType::HttpPost { url, body, headers } => TaskTypeView::HttpPost {
                url: url@,
                body: body@,
                headers: headers@,
            },
            TaskType::Command { command, args, working_dir } => TaskTypeView::Command {
                command: command@,
                args: args@,
                working_dir: working_dir@,
            },
            TaskType::PathCheck { path, check_file_exists, file_path } => TaskTypeView::PathCheck {
                path: path@,
                check_file_exists,
                file_path: file_path@,
            },
            TaskType::FileChanged { file_path, baseline_hash } => TaskTypeView::FileChanged {
                file_path: file_path@,
                baseline_hash: opt_text(baseline_hash),
            },
            TaskType::Ntfy {
                server,
                topic,
                title,
                message,
                priority,
                tags,
                action,
                subscribe_timeout_secs,
            } => TaskTypeView::Ntfy {
                server: server@,
                topic: topic@,
                title: title@,
                message: message@,
                priority: priority@,
                tags: tags@,
                action,
                subscribe_timeout_secs,
            },
            TaskType::GetPublicIp => TaskTypeView::GetPublicIp,
            TaskType::CloudflareDnsUpdate {
                zone_id,
                record_name,
                record_type,
                record_id,
                content,
                proxied,
                ttl,
                api_token_plain,
                api_email_plain,
                api_token_encrypted,
                api_email_encrypted,
            } => TaskTypeView::CloudflareDnsUpdate {
                zone_id: zone_id@,
                record_name: record_name@,
                record_type: record_type@,
                record_id: record_id@,
                content: content@,
                proxied,
                ttl,
                api_token_plain: opt_text(api_token_plain),
                api_email_plain: opt_text(api_email_plain),
                api_token_encrypted: opt_bytes(api_token_encrypted),
                api_email_encrypted: opt_bytes(api_email_encrypted),
            },
            TaskType::CloudflareIpListUpdate {
                account_id,
                list_id,
                list_name,
                ip,
                comment,
                action,
                api_token_plain,
                api_email_plain,
                api_token_encrypted,
                api_email_encrypted,
            } => TaskTypeView::CloudflareIpListUpdate {
                account_id: account_id@,
                list_id: list_id@,
                list_name: list_name@,
                ip: ip@,
                comment: comment@,
                action,
                api_token_plain: opt_text(api_token_plain),
                api_email_plain: opt_text(api_email_plain),
                api_token_encrypted: opt_bytes(api_token_encrypted),
                api_email_encrypted: opt_bytes(api_email_encrypted),
            },
        }
    }
}

impl View for Task {
    type V = TaskView;

    open spec fn view(&self) -> TaskView {
        TaskView {
            id: self.id,
            name: self.name@,
            enabled: self.enabled,
            trigger: self.trigger@,
            task_type: self.task_type@,
            notify_when: self.notify_when,
            pushover_enabled: self.pushover_enabled,
            pushover_title_success: self.pushover_title_success@,
            pushover_message_success: self.pushover_message_success@,
            pushover_title_failure: self.pushover_title_failure@,
            pushover_message_failure: self.pushover_message_failure@,
            pushover_priority: self.pushover_priority,
            pushover_sound: self.pushover_sound@,
            last_run: self.last_run,
            last_result: self.last_result,
            last_error: opt_text(self.last_error),
            last_triggered_date: self.last_triggered_date,
            interval_last_run: self.interval_last_run,
            on_success_task_id: self.on_success_task_id,
            on_failure_task_id: self.on_failure_task_id,
            ntfy_context: opt_context(self.ntfy_context),
        }
    }
}

// ---------------------------------------------------------------------------
// Copies
// ---------------------------------------------------------------------------

/// A copy of an optional text.
pub fn copy_opt_text(text: &Option<String>) -> (r: Option<String>)
    ensures
        opt_text(r) == opt_text(*text),
{
    match text {
        Some(s) => Some(s.clone()),
        None => None,
    }
}

/// A copy of an optional byte string.
pub fn copy_opt_bytes(bytes: &Option<Vec<u8>>) -> (r: Option<Vec<u8>>)
    ensures
        opt_bytes(r) == opt_bytes(*bytes),
{
    match bytes {
        Some(b) => Some(slice_to_vec(b.as_slice())),
        None => None,
    }
}

/// A copy of an optional message context.
pub fn copy_opt_context(context: &Option<NtfyContext>) -> (r: Option<NtfyContext>)
    ensures
        opt_context(r) == opt_context(*context),
{
    match context {
        Some(c) => Some(c.clone()),
        None => None,
    }
}

impl Clone for NtfyContext {
    fn clone(&self) -> (r: Self)
        ensures
            r@ == self@,
    {
        NtfyContext {
            topic: self.topic.clone(),
            title: self.title.clone(),
            message: self.message.clone(),
            tags: self.tags.clone(),
        }
    }
}

impl Clone for TriggerType {
    fn clone(&self) -> (r: Self)
        ensures
            r@ == self@,
    {
        match self {
            TriggerType::Time { hour, minute } => TriggerType::Time {
                hour: *hour,
                minute: *minute,
            },
            TriggerType::DaysOfWeek { days, hour, minute } => TriggerType::DaysOfWeek {
                days: slice_to_vec(days.as_slice()),
                hour: *hour,
                minute: *minute,
            },
            TriggerType::Interval { minutes } => TriggerType::Interval { minutes: *minutes },
            TriggerType::Email { from_pattern, subject_pattern, body_pattern } => {
                TriggerType::Email {
                    from_pattern: from_pattern.clone(),
                    subject_pattern: subject_pattern.clone(),
                    body_pattern: body_pattern.clone(),
                }
            },
            TriggerType::Ntfy { server, topic, title_pattern, message_pattern } => {
                TriggerType::Ntfy {
                    server: server.clone(),
                    topic: topic.clone(),
                    title_pattern: title_pattern.clone(),
                    message_pattern: message_pattern.clone(),
                }
            },
            TriggerType::Startup => TriggerType::Startup,
            TriggerType::OnDemand => TriggerType::OnDemand,
        }
    }
}

impl Clone for TaskType {
    fn clone(&self) -> (r: Self)
        ensures
            r@ == self@,
    {
        match self {
            TaskType::HttpGet { url } => TaskType::HttpGet { url: url.clone() },
            TaskType::HttpPost { url, body, headers } => TaskType::HttpPost {
                url: url.clone(),
                body: body.clone(),
                headers: headers.clone(),
            },
            TaskType::Command { command, args, working_dir } => TaskType::Command {
                command: command.clone(),
                args: args.clone(),
                working_dir: working_dir.clone(),
            },
            TaskType::PathCheck { path, check_file_exists, file_path } => TaskType::PathCheck {
                path: path.clone(),
                check_file_exists: *check_file_exists,
                file_path: file_path.clone(),
            },
            TaskType::FileChanged { file_path, baseline_hash } => TaskType::FileChanged {
                file_path: file_path.clone(),
                baseline_hash: copy_opt_text(baseline_hash),
            },
            TaskType::Ntfy {
                server,
                topic,
                title,
                message,
                priority,
                tags,
                action,
                subscribe_timeout_secs,
            } => TaskType::Ntfy {
                server: server.clone(),
                topic: topic.clone(),
                title: title.clone(),
                message: message.clone(),
                priority: priority.clone(),
                tags: tags.clone(),
                action: *action,
                subscribe_timeout_secs: *subscribe_timeout_secs,
            },
            TaskType::GetPublicIp => TaskType::GetPublicIp,
            TaskType::CloudflareDnsUpdate {
                zone_id,
                record_name,
                record_type,
                record_id,
                content,
                proxied,
                ttl,
                api_token_plain,
                api_email_plain,
                api_token_encrypted,
                api_email_encrypted,
            } => TaskType::CloudflareDnsUpdate {
                zone_id: zone_id.clone(),
                record_name: record_name.clone(),
                record_type: record_type.clone(),
                record_id: record_id.clone(),
                content: content.clone(),
                proxied: *proxied,
                ttl: *ttl,
                api_token_plain: copy_opt_text(api_token_plain),
                api_email_plain: copy_opt_text(api_email_plain),
                api_token_encrypted: copy_opt_bytes(api_token_encrypted),
                api_email_encrypted: copy_opt_bytes(api_email_encrypted),
            },
            TaskType::CloudflareIpListUpdate {
                account_id,
                list_id,
                list_name,
                ip,
                comment,
                action,
                api_token_plain,
                api_email_plain,
                api_token_encrypted,
                api_email_encrypted,
            } => TaskType::CloudflareIpListUpdate {
                account_id: account_id.clone(),
                list_id: list_id.clone(),
                list_name: list_name.clone(),
                ip: ip.clone(),
                comment: comment.clone(),
                action: *action,
                api_token_plain: copy_opt_text(api_token_plain),
                api_email_plain: copy_opt_text(api_email_plain),
                api_token_encrypted: copy_opt_bytes(api_token_encrypted),
                api_email_encrypted: copy_opt_bytes(api_email_encrypted),
            },
        }
    }
}

impl Clone for Task {
    fn clone(&self) -> (r: Self)
        ensures
            r@ == self@,
    {
        Task {
            id: self.id,
            name: self.name.clone(),
            enabled: self.enabled,
            trigger: self.trigger.clone(),
            task_type: self.task_type.clone(),
            notify_when: self.notify_when,
            pushover_enabled: self.pushover_enabled,
            pushover_title_success: self.pushover_title_success.clone(),
            pushover_message_success: self.pushover_message_success.clone(),
            pushover_title_failure: self.pushover_title_failure.clone(),
            pushover_message_failure: self.pushover_message_failure.clone(),
            pushover_priority: self.pushover_priority,
            pushover_sound: self.pushover_sound.clone(),
            last_run: self.last_run,
            last_result: self.last_result,
            last_error: copy_opt_text(&self.last_error),
            last_triggered_date: self.last_triggered_date,
            interval_last_run: self.interval_last_run,
            on_success_task_id: self.on_success_task_id,
            on_failure_task_id: self.on_failure_task_id,
            ntfy_context: copy_opt_context(&self.ntfy_context),
        }
    }
}

/// A copy of a list of tasks.
pub fn copy_tasks(tasks: &Vec<Task>) -> (r: Vec<Task>)
    ensures
        task_views(r@) == task_views(tasks@),
{
    let mut r: Vec<Task> = Vec::new();
    let mut i: usize = 0;
    while i < tasks.len()
        invariant
            i <= tasks@.len(),
            r@.len() == i,
            forall|j: int| 0 <= j < i ==> r@[j]@ == tasks@[j]@,
        decreases tasks@.len() - i,
    {
        r.push(tasks[i].clone());
        i = i + 1;
    }
    assert(task_views(r@) =~= task_views(tasks@));
    r
}

// ---------------------------------------------------------------------------
// New tasks
// ---------------------------------------------------------------------------

/// Whether a number is the number of a UUID of version 4: the version stands in
/// bits 76 to 79, the variant in bits 62 and 63.
pub open spec fn is_random_uuid(id: u128) -> bool {
    (id >> 76) & 0xF == 4 && (id >> 62) & 0x3 == 2
}

/// `uuid::Uuid::new_v4`: a random UUID, of which only the version and the
/// variant are known beforehand.
#[verifier::external_body]
pub(crate) fn new_id() -> (id: u128)
    ensures
        is_random_uuid(id),
{
    uuid::Uuid::new_v4().as_u128()
}

impl Default for NtfyAction {
    fn default() -> (r: Self)
        ensures
            r == NtfyAction::Publish,
    {
        NtfyAction::Publish
    }
}

impl Default for NotifyWhen {
    fn default() -> (r: Self)
        ensures
            r == NotifyWhen::Both,
    {
        NotifyWhen::Both
    }
}

impl Default for NtfyContext {
    fn default() -> (r: Self)
        ensures
            r.topic@.len() == 0,
            r.title@.len() == 0,
            r.message@.len() == 0,
            r.tags@.len() == 0,
    {
        NtfyContext {
            topic: String::new(),
            title: String::new(),
            message: String::new(),
            tags: String::new(),
        }
    }
}

/// A new task: enabled, daily at midnight, fetching an address yet to be given,
/// with a notification after every run.
pub open spec fn new_task(id: u128) -> TaskView {
    TaskView {
        id,
        name: "New Task"@,
        enabled: true,
        trigger: TriggerView::Time { hour: 0, minute: 0 },
        task_type: TaskTypeView::HttpGet { url: Seq::empty() },
        notify_when: NotifyWhen::Both,
        pushover_enabled: true,
        pushover_title_success: "Task Success"@,
        pushover_message_success: "Task completed successfully"@,
        pushover_title_failure: "Task Failed"@,
        pushover_message_failure: "Task failed to complete"@,
        pushover_priority: 0,
        pushover_sound: "pushover"@,
        last_run: None,
        last_result: None,
        last_error: None,
        last_triggered_date: None,
        interval_last_run: None,
        on_success_task_id: None,
        on_failure_task_id: None,
        ntfy_context: None,
    }
}

impl Default for Task {
    fn default() -> (r: Self)
        ensures
            r@ == new_task(r.id),
            is_random_uuid(r.id),
    {
        Task::with_id(new_id())
    }
}

// ---------------------------------------------------------------------------
// Summaries
// ---------------------------------------------------------------------------

/// Whether a task with this setting tells about a result.
pub open spec fn notifies(when: NotifyWhen, success: bool) -> bool {
    match when {
        NotifyWhen::Success => success,
        NotifyWhen::Failure => !success,
        NotifyWhen::Both => true,
    }
}

/// A time of day, as in `08:05`.
pub open spec fn time_of_day(hour: u8, minute: u8) -> Seq<char> {
    two_digits(hour as nat) + ":"@ + two_digits(minute as nat)
}

/// The names of days.
pub open spec fn day_names(days: Seq<Weekday>) -> Seq<Seq<char>> {
    Seq::new(days.len(), |i: int| weekday_name(days[i]))
}

/// One part of a filter, unless the pattern is empty.
pub open spec fn filter_part(label: Seq<char>, pattern: Seq<char>) -> Seq<Seq<char>> {
    if pattern.len() == 0 {
        Seq::empty()
    } else {
        seq![label + pattern]
    }
}

/// What the trigger of a task is, in one line.
pub open spec fn trigger_summary(trigger: TriggerView) -> Seq<char> {
    match trigger {
        TriggerView::Time { hour, minute } => "Daily at "@ + time_of_day(hour, minute),
        TriggerView::DaysOfWeek { days, hour, minute } => join(day_names(days), ", "@) + " at "@
            + time_of_day(hour, minute),
        TriggerView::Interval { minutes } => "Every "@ + decimal(minutes as nat) + " minute"@ + (
        if minutes == 1 {
            ""@
        } else {
            "s"@
        }),
        TriggerView::Email { from_pattern, subject_pattern, body_pattern } => {
            let parts = filter_part("from: "@, from_pattern) + filter_part(
                "subject: "@,
                subject_pattern,
            ) + filter_part("body: "@, body_pattern);
            if parts.len() == 0 {
                "Email (any)"@
            } else {
                "Email ("@ + join(parts, ", "@) + ")"@
            }
        },
        TriggerView::Ntfy { server, topic, title_pattern, message_pattern } => {
            let parts = filter_part("title: "@, title_pattern) + filter_part(
                "msg: "@,
                message_pattern,
            );
            let filter = if parts.len() == 0 {
                "any"@
            } else {
                join(parts, ", "@)
            };
            "ntfy "@ + trim_end_of(server, '/') + "/"@ + topic + " ("@ + filter + ")"@
        },
        TriggerView::Startup => "On service startup"@,
        TriggerView::OnDemand => "On demand (chained)"@,
    }
}

/// What a task does, in one line.
pub open spec fn task_summary(task_type: TaskTypeView) -> Seq<char> {
    match task_type {
        TaskTypeView::HttpGet { url } => "HTTP GET "@ + url,
        TaskTypeView::HttpPost { url, .. } => "HTTP POST "@ + url,
        TaskTypeView::Command { command, .. } => "CMD: "@ + command,
        TaskTypeView::PathCheck { path, .. } => "Path: "@ + path,
        TaskTypeView::FileChanged { file_path, .. } => "File: "@ + file_path,
        TaskTypeView::Ntfy { server, topic, action, .. } => {
            let word = match action {
                NtfyAction::Publish => "PUB"@,
                NtfyAction::Subscribe => "SUB"@,
            };
            "ntfy "@ + word + " "@ + server + "/"@ + topic
        },
        TaskTypeView::GetPublicIp => "Get Public IP"@,
        TaskTypeView::CloudflareDnsUpdate { zone_id, record_name, record_type, .. } => {
            "Cloudflare "@ + record_type + " "@ + record_name + " (zone: "@ + zone_id + ")"@
        },
        TaskTypeView::CloudflareIpListUpdate { account_id, list_name, ip, .. } => {
            "Cloudflare IP List "@ + list_name + " "@ + ip + " (account: "@ + account_id + ")"@
        },
    }
}

/// A time of day.
fn time_of_day_text(hour: u8, minute: u8) -> (r: String)
    ensures
        r@ == time_of_day(hour, minute),
{
    let h = two_digits_text(hour as u64);
    let m = two_digits_text(minute as u64);
    cat3(h.as_str(), ":", m.as_str())
}

/// Adds one part of a filter to a list, unless the pattern is empty.
fn push_filter_part(parts: &mut Vec<String>, label: &str, pattern: &str)
    ensures
        texts(final(parts)@) == texts(old(parts)@) + filter_part(label@, pattern@),
{
    let ghost before = texts(parts@);
    if !pattern.is_empty() {
        parts.push(cat2(label, pattern));
        assert(texts(parts@) =~= before + filter_part(label@, pattern@));
    } else {
        assert(texts(parts@) =~= before + filter_part(label@, pattern@));
    }
}

impl Task {
    /// A new task with a given identifier.
    pub fn with_id(id: u128) -> (r: Self)
        ensures
            r@ == new_task(id),
    {
        Task {
            id,
            name: copy_text("New Task"),
            enabled: true,
            trigger: TriggerType::Time { hour: 0, minute: 0 },
            task_type: TaskType::HttpGet { url: String::new() },
            notify_when: NotifyWhen::Both,
            pushover_enabled: true,
            pushover_title_success: copy_text("Task Success"),
            pushover_message_success: copy_text("Task completed successfully"),
            pushover_title_failure: copy_text("Task Failed"),
            pushover_message_failure: copy_text("Task failed to complete"),
            pushover_priority: 0,
            pushover_sound: copy_text("pushover"),
            last_run: None,
            last_result: None,
            last_error: None,
            last_triggered_date: None,
            interval_last_run: None,
            on_success_task_id: None,
            on_failure_task_id: None,
            ntfy_context: None,
        }
    }

    /// Whether the task tells about a result.
    pub fn should_notify(&self, success: bool) -> (r: bool)
        ensures
            r == notifies(self.notify_when, success),
    {
        match self.notify_when {
            NotifyWhen::Success => success,
            NotifyWhen::Failure => !success,
            NotifyWhen::Both => true,
        }
    }

    /// What the trigger of the task is, in one line.
    pub fn trigger_summary(&self) -> (r: String)
        ensures
            r@ == trigger_summary(self@.trigger),
    {
        match &self.trigger {
            TriggerType::Time { hour, minute } => {
                let time = time_of_day_text(*hour, *minute);
                cat2("Daily at ", time.as_str())
            },
            TriggerType::DaysOfWeek { days, hour, minute } => {
                let mut names: Vec<String> = Vec::new();
                let mut i: usize = 0;
                while i < days.len()
                    invariant
                        i <= days@.len(),
                        names@.len() == i,
                        forall|j: int| 0 <= j < i ==> names@[j]@ == weekday_name(days@[j]),
                    decreases days@.len() - i,
                {
                    names.push(days[i].name());
                    i = i + 1;
                }
                assert(texts(names@) =~= day_names(days@));
                let list = join_texts(&names, ", ");
                let time = time_of_day_text(*hour, *minute);
                cat3(list.as_str(), " at ", time.as_str())
            },
            TriggerType::Interval { minutes } => {
                let count = decimal_text(*minutes);
                cat4(
                    "Every ",
                    count.as_str(),
                    " minute",
                    if *minutes == 1 {
                        ""
                    } else {
                        "s"
                    },
                )
            },
            TriggerType::Email { from_pattern, subject_pattern, body_pattern } => {
                let mut parts: Vec<String> = Vec::new();
                assert(texts(parts@) =~= Seq::<Seq<char>>::empty());
                push_filter_part(&mut parts, "from: ", from_pattern.as_str());
                push_filter_part(&mut parts, "subject: ", subject_pattern.as_str());
                push_filter_part(&mut parts, "body: ", body_pattern.as_str());
                assert(texts(parts@) =~= filter_part("from: "@, from_pattern@) + filter_part(
                    "subject: "@,
                    subject_pattern@,
                ) + filter_part("body: "@, body_pattern@));
                if parts.len() == 0 {
                    copy_text("Email (any)")
                } else {
                    let list = join_texts(&parts, ", ");
                    cat3("Email (", list.as_str(), ")")
                }
            },
            TriggerType::Ntfy { server, topic, title_pattern, message_pattern } => {
                let mut parts: Vec<String> = Vec::new();
                assert(texts(parts@) =~= Seq::<Seq<char>>::empty());
                push_filter_part(&mut parts, "title: ", title_pattern.as_str());
                push_filter_part(&mut parts, "msg: ", message_pattern.as_str());
                assert(texts(parts@) =~= filter_part("title: "@, title_pattern@) + filter_part(
                    "msg: "@,
                    message_pattern@,
                ));
                let filter = if parts.len() == 0 {
                    copy_text("any")
                } else {
                    join_texts(&parts, ", ")
                };
                let base = trim_end_of_text(server.as_str(), '/');
                cat7("ntfy ", base.as_str(), "/", topic.as_str(), " (", filter.as_str(), ")")
            },
            TriggerType::Startup => copy_text("On service startup"),
            TriggerType::OnDemand => copy_text("On demand (chained)"),
        }
    }

    /// What the task does, in one line.
    pub fn task_summary(&self) -> (r: String)
        ensures
            r@ == task_summary(self@.task_type),
    {
        match &self.task_type {
            TaskType::HttpGet { url } => cat2("HTTP GET ", url.as_str()),
            TaskType::HttpPost { url, .. } => cat2("HTTP POST ", url.as_str()),
            TaskType::Command { command, .. } => cat2("CMD: ", command.as_str()),
            TaskType::PathCheck { path, .. } => cat2("Path: ", path.as_str()),
            TaskType::FileChanged { file_path, .. } => cat2("File: ", file_path.as_str()),
            TaskType::Ntfy { server, topic, action, .. } => {
                let word = match action {
                    NtfyAction::Publish => "PUB",
                    NtfyAction::Subscribe => "SUB",
                };
                cat6("ntfy ", word, " ", server.as_str(), "/", topic.as_str())
            },
            TaskType::GetPublicIp => copy_text("Get Public IP"),
            TaskType::CloudflareDnsUpdate { zone_id, record_name, record_type, .. } => cat7(
                "Cloudflare ",
                record_type.as_str(),
                " ",
                record_name.as_str(),
                " (zone: ",
                zone_id.as_str(),
                ")",
            ),
            TaskType::CloudflareIpListUpdate { account_id, list_name, ip, .. } => cat7(
                "Cloudflare IP List ",
                list_name.as_str(),
                " ",
                ip.as_str(),
                " (account: ",
                account_id.as_str(),
                ")",
            ),
        }
    }
}

// ---------------------------------------------------------------------------
// Laws
// ---------------------------------------------------------------------------

/// What is said of a task is said of its parts, each of them by itself.
pub proof fn law_tasks_are_seen_whole(task: Task, tasks: Vec<Task>, i: int)
    ensures
        task@.id == task.id,
        task@.name == task.name@,
        task@.enabled == task.enabled,
        task@.trigger == task.trigger@,
        task@.task_type == task.task_type@,
        task@.notify_when == task.notify_when,
        task@.pushover_enabled == task.pushover_enabled,
        task@.pushover_title_success == task.pushover_title_success@,
        task@.pushover_message_success == task.pushover_message_success@,
        task@.pushover_title_failure == task.pushover_title_failure@,
        task@.pushover_message_failure == task.pushover_message_failure@,
        task@.pushover_priority == task.pushover_priority,
        task@.pushover_sound == task.pushover_sound@,
        task@.last_run == task.last_run,
        task@.last_result == task.last_result,
        match task.last_error {
            Some(e) => task@.last_error == Some(e@),
            None => task@.last_error is None,
        },
        task@.last_triggered_date == task.last_triggered_date,
        task@.interval_last_run == task.interval_last_run,
        task@.on_success_task_id == task.on_success_task_id,
        task@.on_failure_task_id == task.on_failure_task_id,
        match task.ntfy_context {
            Some(c) => task@.ntfy_context matches Some(v) && v.topic == c.topic@ && v.title
                == c.title@ && v.message == c.message@ && v.tags == c.tags@,
            None => task@.ntfy_context is None,
        },
        task_views(tasks@).len() == tasks@.len(),
        0 <= i < tasks@.len() ==> task_views(tasks@)[i] == tasks@[i]@,
{
}

/// What is said of a trigger is said of its parts, each of them by itself.
pub proof fn law_triggers_are_seen_whole(trigger: TriggerType)
    ensures
        match trigger {
            TriggerType::Time { hour, minute } => trigger@ matches TriggerView::Time {
                hour: h,
                minute: m,
            } && h == hour && m == minute,
            TriggerType::DaysOfWeek { days, hour, minute } => trigger@ matches
                TriggerView::DaysOfWeek { days: d, hour: h, minute: m } && d == days@ && h == hour
                && m == minute,
            TriggerType::Interval { minutes } => trigger@ matches TriggerView::Interval {
                minutes: m,
            } && m == minutes,
            TriggerType::Email { from_pattern, subject_pattern, body_pattern } => trigger@ matches
                TriggerView::Email { from_pattern: f, subject_pattern: s, body_pattern: b } && f
                == from_pattern@ && s == subject_pattern@ && b == body_pattern@,
            TriggerType::Ntfy { server, topic, title_pattern, message_pattern } => trigger@ matches
                TriggerView::Ntfy { server: s, topic: t, title_pattern: n, message_pattern: m } && s
                == server@ && t == topic@ && n == title_pattern@ && m == message_pattern@,
            TriggerType::Startup => trigger@ is Startup,
            TriggerType::OnDemand => trigger@ is OnDemand,
        },
{
}

/// What is said of what a task does is said of its parts, each of them by itself.
pub proof fn law_actions_are_seen_whole(action: TaskType)
    ensures
        match action {
            TaskType::HttpGet { url } => action@ matches TaskTypeView::HttpGet { url: u } && u
                == url@,
            TaskType::HttpPost { url, body, headers } => action@ matches TaskTypeView::HttpPost {
                url: u,
                body: b,
                headers: h,
            } && u == url@ && b == body@ && h == headers@,
            TaskType::Command { command, args, working_dir } => action@ matches
                TaskTypeView::Command { command: c, args: a, working_dir: d } && c == command@ && a
                == args@ && d == working_dir@,
            TaskType::PathCheck { path, check_file_exists, file_path } => action@ matches
                TaskTypeView::PathCheck { path: p, check_file_exists: c, file_path: f } && p
                == path@ && c == check_file_exists && f == file_path@,
            TaskType::FileChanged { file_path, baseline_hash } => action@ matches
                TaskTypeView::FileChanged { file_path: f, baseline_hash: b } && f == file_path@ && (
            match baseline_hash {
                Some(h) => b == Some(h@),
                None => b is None,
            }),
            TaskType::Ntfy {
                server,
                topic,
                title,
                message,
                priority,
                tags,
                action: way,
                subscribe_timeout_secs,
            } => action@ matches TaskTypeView::Ntfy {
                server: s,
                topic: t,
                title: n,
                message: m,
                priority: p,
                tags: g,
                action: a,
                subscribe_timeout_secs: secs,
            } && s == server@ && t == topic@ && n == title@ && m == message@ && p == priority@ && g
                == tags@ && a == way && secs == subscribe_timeout_secs,
            TaskType::GetPublicIp => action@ is GetPublicIp,
            TaskType::CloudflareDnsUpdate {
                zone_id,
                record_name,
                record_type,
                record_id,
                content,
                proxied,
                ttl,
                ..
            } => action@ matches TaskTypeView::CloudflareDnsUpdate {
                zone_id: z,
                record_name: n,
                record_type: t,
                record_id: i,
                content: c,
                proxied: p,
                ttl: l,
                ..
            } && z == zone_id@ && n == record_name@ && t == record_type@ && i == record_id@ && c
                == content@ && p == proxied && l == ttl,
            TaskType::CloudflareIpListUpdate {
                account_id,
                list_id,
                list_name,
                ip,
                comment,
                action: way,
                ..
            } => action@ matches TaskTypeView::CloudflareIpListUpdate {
                account_id: a,
                list_id: i,
                list_name: n,
                ip: p,
                comment: c,
                action: w,
                ..
            } && a == account_id@ && i == list_id@ && n == list_name@ && p == ip@ && c == comment@
                && w == way,
        },
{
}

/// A new task is enabled, runs daily at midnight, fetches an address yet to be given,
/// notifies of every result, and has never run.
pub proof fn law_new_tasks_are_ready(id: u128)
    ensures
        ({
            let t = new_task(id);
            &&& t.id == id
            &&& t.name == "New Task"@
            &&& t.enabled
            &&& t.trigger matches TriggerView::Time { hour, minute } && hour == 0 && minute == 0
            &&& t.task_type matches TaskTypeView::HttpGet { url } && url.len() == 0
            &&& t.notify_when == NotifyWhen::Both
            &&& t.pushover_enabled
            &&& t.pushover_title_success == "Task Success"@
            &&& t.pushover_message_success == "Task completed successfully"@
            &&& t.pushover_title_failure == "Task Failed"@
            &&& t.pushover_message_failure == "Task failed to complete"@
            &&& t.pushover_priority == 0
            &&& t.pushover_sound == "pushover"@
            &&& t.last_run is None && t.last_result is None && t.last_error is None
            &&& t.last_triggered_date is None && t.interval_last_run is None
            &&& t.on_success_task_id is None && t.on_failure_task_id is None
            &&& t.ntfy_context is None
        }),
{
}

/// A task tells about a result if and only if it tells about both, or about such results.
pub proof fn law_results_are_told_when_wanted(when: NotifyWhen, success: bool)
    ensures
        notifies(when, success) <==> (when == NotifyWhen::Both || (when == NotifyWhen::Success
            && success) || (when == NotifyWhen::Failure && !success)),
{
}

/// What a trigger is told as: a time of day, days with a time, a number of minutes, or the
/// patterns of a message with a word before each, those that are empty left out.
pub proof fn law_triggers_are_told(
    hour: u8,
    minute: u8,
    days: Seq<Weekday>,
    names: Seq<Seq<char>>,
    minutes: u64,
)
    requires
        hour < 100 && minute < 100,
        names.len() == days.len(),
        forall|i: int| 0 <= i < days.len() ==> #[trigger] names[i] == weekday_name(days[i]),
    ensures
        ({
            let time = seq![
                ('0' as int + hour / 10) as char,
                ('0' as int + hour % 10) as char,
                ':',
                ('0' as int + minute / 10) as char,
                ('0' as int + minute % 10) as char,
            ];
            &&& trigger_summary(TriggerView::Time { hour, minute }) == "Daily at "@ + time
            &&& trigger_summary(TriggerView::DaysOfWeek { days, hour, minute }) == join(names, ", "@)
                + " at "@ + time
        }),
        minutes == 1 ==> trigger_summary(TriggerView::Interval { minutes }) == "Every "@ + decimal(1)
            + " minute"@,
        minutes != 1 ==> trigger_summary(TriggerView::Interval { minutes }) == "Every "@ + decimal(
            minutes as nat,
        ) + " minutes"@,
        trigger_summary(TriggerView::Startup) == "On service startup"@,
        trigger_summary(TriggerView::OnDemand) == "On demand (chained)"@,
{
    law_two_digits(hour as nat);
    law_two_digits(minute as nat);
    reveal_strlit(":");
    reveal_strlit("");
    reveal_strlit("s");
    reveal_strlit(" minute");
    reveal_strlit(" minutes");
    let time = seq![
        ('0' as int + hour / 10) as char,
        ('0' as int + hour % 10) as char,
        ':',
        ('0' as int + minute / 10) as char,
        ('0' as int + minute % 10) as char,
    ];
    assert(time_of_day(hour, minute) =~= time);
    assert(day_names(days) =~= names);
    let every = "Every "@ + decimal(minutes as nat);
    assert(every + " minute"@ + ""@ =~= every + " minute"@);
    assert(every + " minute"@ + "s"@ =~= every + " minutes"@);
}

/// What a trigger that waits for mails or messages is told as: its patterns, each with a
/// word before it, those that are empty left out.
pub proof fn law_patterns_are_told(
    from: Seq<char>,
    subject: Seq<char>,
    body: Seq<char>,
    server: Seq<char>,
    slashes: Seq<char>,
    topic: Seq<char>,
    title: Seq<char>,
    message: Seq<char>,
)
    requires
        server.len() > 0 ==> server.last() != '/',
        forall|i: int| 0 <= i < slashes.len() ==> #[trigger] slashes[i] == '/',
    ensures
        ({
            let none = Seq::<Seq<char>>::empty();
            let mail = (if from.len() > 0 {
                seq!["from: "@ + from]
            } else {
                none
            }) + (if subject.len() > 0 {
                seq!["subject: "@ + subject]
            } else {
                none
            }) + (if body.len() > 0 {
                seq!["body: "@ + body]
            } else {
                none
            });
            let words = (if title.len() > 0 {
                seq!["title: "@ + title]
            } else {
                none
            }) + (if message.len() > 0 {
                seq!["msg: "@ + message]
            } else {
                none
            });
            let told = trigger_summary(
                TriggerView::Email {
                    from_pattern: from,
                    subject_pattern: subject,
                    body_pattern: body,
                },
            );
            let said = trigger_summary(
                TriggerView::Ntfy {
                    server: server + slashes,
                    topic,
                    title_pattern: title,
                    message_pattern: message,
                },
            );
            &&& from.len() == 0 && subject.len() == 0 && body.len() == 0 ==> told == "Email (any)"@
            &&& !(from.len() == 0 && subject.len() == 0 && body.len() == 0) ==> told == "Email ("@
                + join(mail, ", "@) + ")"@
            &&& title.len() == 0 && message.len() == 0 ==> said == "ntfy "@ + server + "/"@ + topic
                + " ("@ + "any"@ + ")"@
            &&& !(title.len() == 0 && message.len() == 0) ==> said == "ntfy "@ + server + "/"@
                + topic + " ("@ + join(words, ", "@) + ")"@
        }),
{
    let whole = server + slashes;
    let k = law_trim_end_of_takes_all(whole, '/');
    let n = server.len() as int;
    if k < n {
        assert(whole[n - 1] == server.last());
    }
    if k > n {
        assert(whole[k - 1] == slashes[k - 1 - n]);
    }
    assert(whole.take(n) =~= server);
}

/// What a task does is told by a word and what it is done to.
pub proof fn law_actions_are_told(task_type: TaskTypeView)
    ensures
        task_type matches TaskTypeView::HttpGet { url } ==> task_summary(task_type) == "HTTP GET "@
            + url,
        task_type matches TaskTypeView::HttpPost { url, .. } ==> task_summary(task_type)
            == "HTTP POST "@ + url,
        task_type matches TaskTypeView::Command { command, .. } ==> task_summary(task_type)
            == "CMD: "@ + command,
        task_type matches TaskTypeView::PathCheck { path, .. } ==> task_summary(task_type)
            == "Path: "@ + path,
        task_type matches TaskTypeView::FileChanged { file_path, .. } ==> task_summary(task_type)
            == "File: "@ + file_path,
        task_type matches TaskTypeView::Ntfy { server, topic, action, .. } ==> task_summary(
            task_type,
        ) == (if action == NtfyAction::Publish {
            "ntfy PUB "@
        } else {
            "ntfy SUB "@
        }) + server + "/"@ + topic,
        task_type is GetPublicIp ==> task_summary(task_type) == "Get Public IP"@,
        task_type matches TaskTypeView::CloudflareDnsUpdate {
            zone_id,
            record_name,
            record_type,
            ..
        } ==> task_summary(task_type) == "Cloudflare "@ + record_type + " "@ + record_name
            + " (zone: "@ + zone_id + ")"@,
        task_type matches TaskTypeView::CloudflareIpListUpdate { account_id, list_name, ip, .. }
            ==> task_summary(task_type) == "Cloudflare IP List "@ + list_name + " "@ + ip
            + " (account: "@ + account_id + ")"@,
{
    reveal_strlit("ntfy ");
    reveal_strlit("PUB");
    reveal_strlit("SUB");
    reveal_strlit(" ");
    reveal_strlit("ntfy PUB ");
    reveal_strlit("ntfy SUB ");
    assert("ntfy "@ + "PUB"@ + " "@ =~= "ntfy PUB "@);
    assert("ntfy "@ + "SUB"@ + " "@ =~= "ntfy SUB "@);
}

} // verus!
