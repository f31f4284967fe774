//! What the windows of the application say and offer: labels, the kinds of
//! triggers and tasks with what they start from, and what is asked of the service.

use crate::clock::has_day;
use crate::clock::Weekday;
use crate::hash::hex_digit;
use crate::number::decimal;
use crate::number::decimal_text;
use crate::scheduler::find_task;
use crate::scheduler::index_of_task;
use crate::scheduler::lemma_find_task;
use crate::task::task_summary;
use crate::task::task_views;
use crate::task::trigger_summary;
use crate::task::IpListAction;
use crate::task::NotifyWhen;
use crate::task::NtfyAction;
use crate::task::Task;
use crate::task::TaskType;
use crate::task::TaskTypeView;
use crate::task::TaskView;
use crate::task::TriggerType;
use crate::task::TriggerView;
use crate::text::before_bytes;
use crate::text::byte_len;
use crate::text::cat2;
use crate::text::cat3;
use crate::text::cat5;
use crate::text::copy_text;
use crate::text::cuts_at;
use crate::text::law_cuts_take_nothing_away;
use crate::text::lossy;
use crate::text::text_before_bytes;
use crate::text::text_from_utf8_lossy;
use crate::text::texts;
use crate::text::trim;
use crate::text::trim_text;
use crate::variables::text_of;
use vstd::arithmetic::div_mod::lemma_div_denominator;
use vstd::arithmetic::power::lemma_pow0;
use vstd::arithmetic::power::lemma_pow1;
use vstd::arithmetic::power::lemma_pow_adds;
use vstd::arithmetic::power::lemma_pow_positive;
use vstd::arithmetic::power::pow;
use vstd::prelude::*;
use vstd::utf8::encode_utf8;

verus! {

// ---------------------------------------------------------------------------
// Kinds of triggers
// ---------------------------------------------------------------------------

/// A kind of trigger.
#[derive(Debug, Clone, Copy, PartialEq, Eq, Structural)]
pub enum TriggerKind {
    Time,
    DaysOfWeek,
    Interval,
    Email,
    Ntfy,
    Startup,
    OnDemand,
}

/// The kind of a trigger.
pub open spec fn kind_of_trigger(trigger: TriggerView) -> TriggerKind {
    match trigger {
        TriggerView::Time { .. } => TriggerKind::Time,
        TriggerView::DaysOfWeek { .. } => TriggerKind::DaysOfWeek,
        TriggerView::Interval { .. } => TriggerKind::Interval,
        TriggerView::Email { .. } => TriggerKind::Email,
        TriggerView::Ntfy { .. } => TriggerKind::Ntfy,
        TriggerView::Startup => TriggerKind::Startup,
        TriggerView::OnDemand => TriggerKind::OnDemand,
    }
}

/// The name of a kind of trigger.
pub open spec fn trigger_kind_name(kind: TriggerKind) -> Seq<char> {
    match kind {
        TriggerKind::Time => "Specific Time"@,
        TriggerKind::DaysOfWeek => "Days of Week"@,
        TriggerKind::Interval => "Interval"@,
        TriggerKind::Email => "Email"@,
        TriggerKind::Ntfy => "ntfy.sh"@,
        TriggerKind::Startup => "Startup"@,
        TriggerKind::OnDemand => "On Demand"@,
    }
}

/// What a trigger of a kind starts from when it is chosen.
pub open spec fn first_trigger(kind: TriggerKind) -> TriggerView {
    match kind {
        TriggerKind::Time => TriggerView::Time { hour: 0, minute: 0 },
        TriggerKind::DaysOfWeek => TriggerView::DaysOfWeek {
            days: Seq::empty(),
            hour: 0,
            minute: 0,
        },
        TriggerKind::Interval => TriggerView::Interval { minutes: 60 },
        TriggerKind::Email => TriggerView::Email {
            from_pattern: Seq::empty(),
            subject_pattern: Seq::empty(),
            body_pattern: Seq::empty(),
        },
        TriggerKind::Ntfy => TriggerView::Ntfy {
            server: "https://ntfy.sh"@,
            topic: Seq::empty(),
            title_pattern: Seq::empty(),
            message_pattern: Seq::empty(),
        },
        TriggerKind::Startup => TriggerView::Startup,
        TriggerKind::OnDemand => TriggerView::OnDemand,
    }
}

/// An empty text.
fn empty_text() -> (r: String)
    ensures
        r@ == Seq::<char>::empty(),
{
    let r = String::new();
    assert(r@ =~= Seq::<char>::empty());
    r
}

impl TriggerKind {
    /// The kind of a trigger.
    pub fn of(trigger: &TriggerType) -> (r: Self)
        ensures
            r == kind_of_trigger(trigger@),
    {
        match trigger {
            TriggerType::Time { .. } => TriggerKind::Time,
            TriggerType::DaysOfWeek { .. } => TriggerKind::DaysOfWeek,
            TriggerType::Interval { .. } => TriggerKind::Interval,
            TriggerType::Email { .. } => TriggerKind::Email,
            TriggerType::Ntfy { .. } => TriggerKind::Ntfy,
            TriggerType::Startup => TriggerKind::Startup,
            TriggerType::OnDemand => TriggerKind::OnDemand,
        }
    }

    /// The kinds of triggers, as they are offered.
    pub fn all() -> (r: Vec<TriggerKind>)
        ensures
            r@ == seq![
                TriggerKind::Time,
                TriggerKind::DaysOfWeek,
                TriggerKind::Interval,
                TriggerKind::Email,
                TriggerKind::Ntfy,
                TriggerKind::Startup,
                TriggerKind::OnDemand,
            ],
    {
        vec![
            TriggerKind::Time,
            TriggerKind::DaysOfWeek,
            TriggerKind::Interval,
            TriggerKind::Email,
            TriggerKind::Ntfy,
            TriggerKind::Startup,
            TriggerKind::OnDemand,
        ]
    }

    /// The name of the kind.
    pub fn name(&self) -> (r: String)
        ensures
            r@ == trigger_kind_name(*self),
    {
        match self {
            TriggerKind::Time => copy_text("Specific Time"),
            TriggerKind::DaysOfWeek => copy_text("Days of Week"),
            TriggerKind::Interval => copy_text("Interval"),
            TriggerKind::Email => copy_text("Email"),
            TriggerKind::Ntfy => copy_text("ntfy.sh"),
            TriggerKind::Startup => copy_text("Startup"),
            TriggerKind::OnDemand => copy_text("On Demand"),
        }
    }

    /// What a trigger of the kind starts from.
    pub fn first(&self) -> (r: TriggerType)
        ensures
            r@ == first_trigger(*self),
    {
        match self {
            TriggerKind::Time => TriggerType::Time { hour: 0, minute: 0 },
            TriggerKind::DaysOfWeek => {
                let days: Vec<Weekday> = Vec::new();
                TriggerType::DaysOfWeek { days, hour: 0, minute: 0 }
            },
            TriggerKind::Interval => TriggerType::Interval { minutes: 60 },
            TriggerKind::Email => TriggerType::Email {
                from_pattern: empty_text(),
                subject_pattern: empty_text(),
                body_pattern: empty_text(),
            },
            TriggerKind::Ntfy => TriggerType::Ntfy {
                server: copy_text("https://ntfy.sh"),
                topic: empty_text(),
                title_pattern: empty_text(),
                message_pattern: empty_text(),
            },
            TriggerKind::Startup => TriggerType::Startup,
            TriggerKind::OnDemand => TriggerType::OnDemand,
        }
    }
}

/// Every day but one.
pub open spec fn other_than(day: Weekday) -> spec_fn(Weekday) -> bool {
    |d: Weekday| d != day
}

/// Days after a day was checked or unchecked.
pub open spec fn with_day(days: Seq<Weekday>, day: Weekday, checked: bool) -> Seq<Weekday> {
    if checked {
        if days.contains(day) {
            days
        } else {
            days.push(day)
        }
    } else {
        days.filter(other_than(day))
    }
}

/// Checks or unchecks a day.
pub fn set_day(days: &mut Vec<Weekday>, day: Weekday, checked: bool)
    ensures
        final(days)@ == with_day(old(days)@, day, checked),
{
    if checked {
        if !has_day(days, day) {
            days.push(day);
        }
    } else {
        let ghost all = days@;
        let ghost other = other_than(day);
        let mut kept: Vec<Weekday> = Vec::new();
        let mut i: usize = 0;
        proof {
            reveal(Seq::filter);
            assert(all.take(0).filter(other) =~= Seq::<Weekday>::empty());
        }
        while i < days.len()
            invariant
                days@ == all,
                other == other_than(day),
                i <= all.len(),
                kept@ == all.take(i as int).filter(other),
            decreases all.len() - i,
        {
            proof {
                reveal(Seq::filter);
                assert(all.take(i + 1).drop_last() =~= all.take(i as int));
            }
            if days[i] != day {
                kept.push(days[i]);
            }
            i = i + 1;
        }
        assert(all.take(all.len() as int) =~= all);
        *days = kept;
    }
}

// ---------------------------------------------------------------------------
// Kinds of tasks
// ---------------------------------------------------------------------------

/// A kind of task.
#[derive(Debug, Clone, Copy, PartialEq, Eq, Structural)]
pub enum TaskKind {
    HttpGet,
    HttpPost,
    Command,
    PathCheck,
    FileChanged,
    Ntfy,
    GetPublicIp,
    CloudflareDnsUpdate,
    CloudflareIpListUpdate,
}

/// The kind of what a task does.
pub open spec fn kind_of_task(task_type: TaskTypeView) -> TaskKind {
    match task_type {
        TaskTypeView::HttpGet { .. } => TaskKind::HttpGet,
        TaskTypeView::HttpPost { .. } => TaskKind::HttpPost,
        TaskTypeView::Command { .. } => TaskKind::Command,
        TaskTypeView::PathCheck { .. } => TaskKind::PathCheck,
        TaskTypeView::FileChanged { .. } => TaskKind::FileChanged,
        TaskTypeView::Ntfy { .. } => TaskKind::Ntfy,
        TaskTypeView::GetPublicIp => TaskKind::GetPublicIp,
        TaskTypeView::CloudflareDnsUpdate { .. } => TaskKind::CloudflareDnsUpdate,
        TaskTypeView::CloudflareIpListUpdate { .. } => TaskKind::CloudflareIpListUpdate,
    }
}

/// The name of a kind of task.
pub open spec fn task_kind_name(kind: TaskKind) -> Seq<char> {
    match kind {
        TaskKind::HttpGet => "HTTP GET"@,
        TaskKind::HttpPost => "HTTP POST"@,
        TaskKind::Command => "Command"@,
        TaskKind::PathCheck => "Path Check"@,
        TaskKind::FileChanged => "File Changed"@,
        TaskKind::Ntfy => "ntfy.sh"@,
        TaskKind::GetPublicIp => "Get Public IP"@,
        TaskKind::CloudflareDnsUpdate => "Cloudflare DNS"@,
        TaskKind::CloudflareIpListUpdate => "Cloudflare IP List"@,
    }
}

/// What a task of a kind starts from when it is chosen.
pub open spec fn first_task(kind: TaskKind) -> TaskTypeView {
    match kind {
        TaskKind::HttpGet => TaskTypeView::HttpGet { url: Seq::empty() },
        TaskKind::HttpPost => TaskTypeView::HttpPost {
            url: Seq::empty(),
            body: Seq::empty(),
            headers: Seq::empty(),
        },
        TaskKind::Command => TaskTypeView::Command {
            command: Seq::empty(),
            args: Seq::empty(),
            working_dir: Seq::empty(),
        },
        TaskKind::PathCheck => TaskTypeView::PathCheck {
            path: Seq::empty(),
            check_file_exists: false,
            file_path: Seq::empty(),
        },
        TaskKind::FileChanged => TaskTypeView::FileChanged {
            file_path: Seq::empty(),
            baseline_hash: None,
        },
        TaskKind::Ntfy => TaskTypeView::Ntfy {
            server: "https://ntfy.sh"@,
            topic: Seq::empty(),
            title: Seq::empty(),
            message: Seq::empty(),
            priority: "default"@,
            tags: Seq::empty(),
            action: NtfyAction::Publish,
            subscribe_timeout_secs: 30,
        },
        TaskKind::GetPublicIp => TaskTypeView::GetPublicIp,
        TaskKind::CloudflareDnsUpdate => TaskTypeView::CloudflareDnsUpdate {
            zone_id: Seq::empty(),
            record_name: Seq::empty(),
            record_type: "A"@,
            record_id: Seq::empty(),
            content: Seq::empty(),
            proxied: false,
            ttl: 60,
            api_token_plain: None,
            api_email_plain: None,
            api_token_encrypted: None,
            api_email_encrypted: None,
        },
        TaskKind::CloudflareIpListUpdate => TaskTypeView::CloudflareIpListUpdate {
            account_id: Seq::empty(),
            list_id: Seq::empty(),
            list_name: Seq::empty(),
            ip: Seq::empty(),
            comment: Seq::empty(),
            action: IpListAction::Add,
            api_token_plain: None,
            api_email_plain: None,
            api_token_encrypted: None,
            api_email_encrypted: None,
        },
    }
}

impl TaskKind {
    /// The kind of what a task does.
    pub fn of(task_type: &TaskType) -> (r: Self)
        ensures
            r == kind_of_task(task_type@),
    {
        match task_type {
            TaskType::HttpGet { .. } => TaskKind::HttpGet,
            TaskType::HttpPost { .. } => TaskKind::HttpPost,
            TaskType::Command { .. } => TaskKind::Command,
            TaskType::PathCheck { .. } => TaskKind::PathCheck,
            TaskType::FileChanged { .. } => TaskKind::FileChanged,
            TaskType::Ntfy { .. } => TaskKind::Ntfy,
            TaskType::GetPublicIp => TaskKind::GetPublicIp,
            TaskType::CloudflareDnsUpdate { .. } => TaskKind::CloudflareDnsUpdate,
            TaskType::CloudflareIpListUpdate { .. } => TaskKind::CloudflareIpListUpdate,
        }
    }

    /// The kinds of tasks, as they are offered.
    pub fn all() -> (r: Vec<TaskKind>)
        ensures
            r@ == seq![
                TaskKind::HttpGet,
                TaskKind::HttpPost,
                TaskKind::Command,
                TaskKind::PathCheck,
                TaskKind::FileChanged,
                TaskKind::Ntfy,
                TaskKind::GetPublicIp,
                TaskKind::CloudflareDnsUpdate,
            ],
    {
        vec![
            TaskKind::HttpGet,
            TaskKind::HttpPost,
            TaskKind::Command,
            TaskKind::PathCheck,
            TaskKind::FileChanged,
            TaskKind::Ntfy,
            TaskKind::GetPublicIp,
            TaskKind::CloudflareDnsUpdate,
        ]
    }

    /// The name of the kind.
    pub fn name(&self) -> (r: String)
        ensures
            r@ == task_kind_name(*self),
    {
        match self {
            TaskKind::HttpGet => copy_text("HTTP GET"),
            TaskKind::HttpPost => copy_text("HTTP POST"),
            TaskKind::Command => copy_text("Command"),
            TaskKind::PathCheck => copy_text("Path Check"),
            TaskKind::FileChanged => copy_text("File Changed"),
            TaskKind::Ntfy => copy_text("ntfy.sh"),
            TaskKind::GetPublicIp => copy_text("Get Public IP"),
            TaskKind::CloudflareDnsUpdate => copy_text("Cloudflare DNS"),
            TaskKind::CloudflareIpListUpdate => copy_text("Cloudflare IP List"),
        }
    }

    /// What a task of the kind starts from.
    pub fn first(&self) -> (r: TaskType)
        ensures
            r@ == first_task(*self),
    {
        match self {
            TaskKind::HttpGet => TaskType::HttpGet { url: empty_text() },
            TaskKind::HttpPost => TaskType::HttpPost {
                url: empty_text(),
                body: empty_text(),
                headers: empty_text(),
            },
            TaskKind::Command => TaskType::Command {
                command: empty_text(),
                args: empty_text(),
                working_dir: empty_text(),
            },
            TaskKind::PathCheck => TaskType::PathCheck {
                path: empty_text(),
                check_file_exists: false,
                file_path: empty_text(),
            },
            TaskKind::FileChanged => TaskType::FileChanged {
                file_path: empty_text(),
                baseline_hash: None,
            },
            TaskKind::Ntfy => TaskType::Ntfy {
                server: copy_text("https://ntfy.sh"),
                topic: empty_text(),
                title: empty_text(),
                message: empty_text(),
                priority: copy_text("default"),
                tags: empty_text(),
                action: NtfyAction::Publish,
                subscribe_timeout_secs: 30,
            },
            TaskKind::GetPublicIp => TaskType::GetPublicIp,
            TaskKind::CloudflareDnsUpdate => TaskType::CloudflareDnsUpdate {
                zone_id: empty_text(),
                record_name: empty_text(),
                record_type: copy_text("A"),
                record_id: empty_text(),
                content: empty_text(),
                proxied: false,
                ttl: 60,
                api_token_plain: None,
                api_email_plain: None,
                api_token_encrypted: None,
                api_email_encrypted: None,
            },
            TaskKind::CloudflareIpListUpdate => TaskType::CloudflareIpListUpdate {
                account_id: empty_text(),
                list_id: empty_text(),
                list_name: empty_text(),
                ip: empty_text(),
                comment: empty_text(),
                action: IpListAction::Add,
                api_token_plain: None,
                api_email_plain: None,
                api_token_encrypted: None,
                api_email_encrypted: None,
            },
        }
    }
}

// ---------------------------------------------------------------------------
// Labels
// ---------------------------------------------------------------------------

/// The mark of the last result of a task.
pub open spec fn result_mark(result: Option<bool>) -> Seq<char> {
    match result {
        Some(true) => "[OK]"@,
        Some(false) => "[FAIL]"@,
        None => "[-]"@,
    }
}

/// The line of a task in the list of tasks.
pub open spec fn task_label(task: TaskView) -> Seq<char> {
    result_mark(task.last_result) + " "@ + (if task.enabled {
        "ON"@
    } else {
        "OFF"@
    }) + " "@ + task.name
}

/// The line of a task in the list of tasks.
pub fn label_of_task(task: &Task) -> (r: String)
    ensures
        r@ == task_label(task@),
{
    let mark = match task.last_result {
        Some(true) => "[OK]",
        Some(false) => "[FAIL]",
        None => "[-]",
    };
    let switch = if task.enabled {
        "ON"
    } else {
        "OFF"
    };
    cat5(mark, " ", switch, " ", task.name.as_str())
}

/// When a notification is sent, in one word.
pub fn notify_label(when: NotifyWhen) -> (r: String)
    ensures
        r@ == match when {
            NotifyWhen::Success => "Success"@,
            NotifyWhen::Failure => "Failure"@,
            NotifyWhen::Both => "Both"@,
        },
{
    match when {
        NotifyWhen::Success => copy_text("Success"),
        NotifyWhen::Failure => copy_text("Failure"),
        NotifyWhen::Both => copy_text("Both"),
    }
}

/// How many bytes of a hash are shown.
pub open spec fn shown_hash_len(hash: Seq<char>) -> int {
    if encode_utf8(hash).len() < 16 {
        encode_utf8(hash).len() as int
    } else {
        16
    }
}

/// What is said of the baseline of a file.
pub open spec fn baseline_text(hash: Option<Seq<char>>) -> Seq<char> {
    match hash {
        Some(h) => "Baseline: "@ + before_bytes(h, shown_hash_len(h)) + "..."@,
        None => "Baseline: Will be computed on save"@,
    }
}

/// What is said of the baseline of a file.
pub fn baseline_label(hash: Option<&str>) -> (r: String)
    requires
        text_of(hash) matches Some(h) ==> cuts_at(h, shown_hash_len(h)),
    ensures
        r@ == baseline_text(text_of(hash)),
{
    match hash {
        Some(h) => {
            let len = byte_len(h);
            let shown: usize = if len < 16 {
                len
            } else {
                16
            };
            let part = text_before_bytes(h, shown);
            cat3("Baseline: ", part.as_str(), "...")
        },
        None => copy_text("Baseline: Will be computed on save"),
    }
}

/// The name of the task with an identifier.
pub open spec fn task_name(tasks: Seq<TaskView>, id: Option<u128>) -> Option<Seq<char>> {
    match id {
        Some(id) => match find_task(tasks, id, 0) {
            Some(i) => Some(tasks[i].name),
            None => None,
        },
        None => None,
    }
}

/// The name of the task with an identifier.
pub fn name_of_task(tasks: &Vec<Task>, id: Option<u128>) -> (r: Option<String>)
    ensures
        match r {
            Some(name) => task_name(task_views(tasks@), id) == Some(name@),
            None => task_name(task_views(tasks@), id) is None,
        },
{
    match id {
        Some(id) => match index_of_task(tasks, id) {
            Some(i) => Some(tasks[i].name.clone()),
            None => None,
        },
        None => None,
    }
}

/// The name of the task that another leads to, or `None`.
pub fn chain_label(tasks: &Vec<Task>, id: Option<u128>) -> (r: String)
    ensures
        r@ == match task_name(task_views(tasks@), id) {
            Some(name) => name,
            None => "None"@,
        },
{
    match name_of_task(tasks, id) {
        Some(name) => name,
        None => copy_text("None"),
    }
}

/// Those tasks that a task can lead to: all but itself.
pub open spec fn chain_choices(tasks: Seq<TaskView>, id: u128) -> Seq<u128>
    decreases tasks.len(),
{
    if tasks.len() == 0 {
        Seq::empty()
    } else {
        let before = chain_choices(tasks.drop_last(), id);
        if tasks.last().id != id {
            before.push(tasks.last().id)
        } else {
            before
        }
    }
}

/// The identifiers of those tasks that a task can lead to.
pub fn choices_of_chain(tasks: &Vec<Task>, id: u128) -> (r: Vec<u128>)
    ensures
        r@ == chain_choices(task_views(tasks@), id),
{
    let ghost all = task_views(tasks@);
    let mut r: Vec<u128> = Vec::new();
    let mut i: usize = 0;
    assert(r@ =~= chain_choices(all.take(0), id));
    while i < tasks.len()
        invariant
            all == task_views(tasks@),
            i <= tasks@.len(),
            r@ == chain_choices(all.take(i as int), id),
        decreases tasks@.len() - i,
    {
        assert(all.take(i + 1).drop_last() =~= all.take(i as int));
        assert(all.take(i + 1).last() == tasks@[i as int]@);
        if tasks[i].id != id {
            r.push(tasks[i].id);
        }
        i = i + 1;
    }
    assert(all.take(tasks@.len() as int) =~= all);
    r
}

/// What is said of a task that leads to others.
pub open spec fn chain_part(label: Seq<char>, name: Option<Seq<char>>) -> Seq<Seq<char>> {
    match name {
        Some(name) => seq![label + name],
        None => Seq::empty(),
    }
}

pub open spec fn chain_lines(tasks: Seq<TaskView>, task: TaskView) -> Seq<Seq<char>> {
    chain_part("  On Success -> "@, task_name(tasks, task.on_success_task_id)) + chain_part(
        "  On Failure -> "@,
        task_name(tasks, task.on_failure_task_id),
    )
}

/// What is said of a task that leads to others.
pub fn lines_of_chain(tasks: &Vec<Task>, task: &Task) -> (r: Vec<String>)
    ensures
        texts(r@) == chain_lines(task_views(tasks@), task@),
{
    let mut r: Vec<String> = Vec::new();
    assert(texts(r@) =~= Seq::<Seq<char>>::empty());
    if let Some(name) = name_of_task(tasks, task.on_success_task_id) {
        r.push(cat2("  On Success -> ", name.as_str()));
    }
    let ghost first = chain_part(
        "  On Success -> "@,
        task_name(task_views(tasks@), task.on_success_task_id),
    );
    assert(texts(r@) =~= first);
    if let Some(name) = name_of_task(tasks, task.on_failure_task_id) {
        r.push(cat2("  On Failure -> ", name.as_str()));
    }
    assert(texts(r@) =~= chain_lines(task_views(tasks@), task@));
    r
}

/// What is said of a task first: whether it is enabled, its trigger, and what it
/// does.
pub fn lines_of_task(task: &Task) -> (r: Vec<String>)
    ensures
        texts(r@) == seq![
            "Status: "@ + (if task.enabled {
                "Enabled"@
            } else {
                "Disabled"@
            }),
            "Trigger: "@ + trigger_summary(task@.trigger),
            "Action: "@ + task_summary(task@.task_type),
        ],
{
    let mut r: Vec<String> = Vec::new();
    let state = if task.enabled {
        "Enabled"
    } else {
        "Disabled"
    };
    r.push(cat2("Status: ", state));
    let trigger = task.trigger_summary();
    r.push(cat2("Trigger: ", trigger.as_str()));
    let action = task.task_summary();
    r.push(cat2("Action: ", action.as_str()));
    assert(texts(r@) =~= seq![
        "Status: "@ + state@,
        "Trigger: "@ + trigger@,
        "Action: "@ + action@,
    ]);
    r
}

// ---------------------------------------------------------------------------
// What is asked of the service
// ---------------------------------------------------------------------------

/// Whether it is time to look at the service again: a second after the last time.
pub fn poll_due(secs_since: Option<u64>) -> (r: bool)
    ensures
        r == match secs_since {
            Some(secs) => secs >= 1,
            None => true,
        },
{
    match secs_since {
        Some(secs) => secs >= 1,
        None => true,
    }
}

/// A digit of the number of a UUID, counted from the first of thirty-two.
pub open spec fn uuid_digit(id: u128, k: int) -> char {
    hex_digit((id as int / pow(16, (31 - k) as nat)) % 16)
}

/// A UUID as text: its digits in lower case, with hyphens behind the eighth,
/// twelfth, sixteenth and twentieth.
pub open spec fn uuid_text(id: u128) -> Seq<char> {
    Seq::new(
        36,
        |i: int|
            if i == 8 || i == 13 || i == 18 || i == 23 {
                '-'
            } else if i < 8 {
                uuid_digit(id, i)
            } else if i < 13 {
                uuid_digit(id, i - 1)
            } else if i < 18 {
                uuid_digit(id, i - 2)
            } else if i < 23 {
                uuid_digit(id, i - 3)
            } else {
                uuid_digit(id, i - 4)
            },
    )
}

/// `uuid::Uuid`'s `to_string`: the number in its hyphenated form, in lower case.
#[verifier::external_body]
fn uuid_to_text(id: u128) -> (r: String)
    ensures
        r@ == uuid_text(id),
{
    uuid::Uuid::from_u128(id).to_string()
}

/// The command that asks the service to run a task.
pub open spec fn run_command_text(id: u128) -> Seq<char> {
    "{\"action\":\"run_task\",\"task_id\":\""@ + uuid_text(id) + "\"}"@
}

/// The command that asks the service to run a task.
pub fn run_task_command(id: u128) -> (r: String)
    ensures
        r@ == run_command_text(id),
{
    let text = uuid_to_text(id);
    cat3("{\"action\":\"run_task\",\"task_id\":\"", text.as_str(), "\"}")
}

/// Where the mail server of the service is looked for.
pub fn smtp_test_address(port: u16) -> (r: String)
    ensures
        r@ == "127.0.0.1:"@ + decimal(port as nat),
{
    let digits = decimal_text(port as u64);
    cat2("127.0.0.1:", digits.as_str())
}

/// What a test of the mail server gave.
#[derive(Debug)]
pub enum SmtpTest {
    /// It answered with these bytes.
    Greeted(Vec<u8>),
    /// It took the connection and did not answer.
    Silent,
    Failed(String),
}

/// What is said of a test of the mail server.
pub open spec fn smtp_test_text(test: SmtpTest) -> Seq<char> {
    match test {
        SmtpTest::Greeted(bytes) => "SMTP test: Connected. Server: "@ + trim(lossy(bytes@)),
        SmtpTest::Silent => "SMTP test: Connected but no greeting"@,
        SmtpTest::Failed(e) => "SMTP test FAILED: "@ + e@,
    }
}

/// What is said of a server that greeted with a text.
pub fn greeting_line(greeting: &str) -> (r: String)
    ensures
        r@ == "SMTP test: Connected. Server: "@ + trim(greeting@),
{
    let text = trim_text(greeting);
    cat2("SMTP test: Connected. Server: ", text.as_str())
}

/// What is said of a test of the mail server.
pub fn test_smtp_connection(test: &SmtpTest) -> (r: String)
    ensures
        r@ == smtp_test_text(*test),
{
    match test {
        SmtpTest::Greeted(bytes) => {
            let greeting = text_from_utf8_lossy(bytes.as_slice());
            greeting_line(greeting.as_str())
        },
        SmtpTest::Silent => copy_text("SMTP test: Connected but no greeting"),
        SmtpTest::Failed(e) => cat2("SMTP test FAILED: ", e.as_str()),
    }
}

// ---------------------------------------------------------------------------
// Laws
// ---------------------------------------------------------------------------

/// A day that was checked is in the list, and one that was unchecked is not; every
/// other day stays as it was.
pub proof fn law_days_follow_their_boxes(
    days: Seq<Weekday>,
    day: Weekday,
    checked: bool,
    other: Weekday,
)
    ensures
        with_day(days, day, checked).contains(day) == checked,
        other != day ==> with_day(days, day, checked).contains(other) == days.contains(other),
{
    let next = with_day(days, day, checked);
    let wanted = other_than(day);
    if checked {
        if !days.contains(day) {
            assert(next[days.len() as int] == day);
            if days.contains(other) {
                let i = choose|i: int| 0 <= i < days.len() && days[i] == other;
                assert(next[i] == other);
            }
        }
    } else {
        if next.contains(day) {
            let i = choose|i: int| 0 <= i < next.len() && next[i] == day;
            days.lemma_filter_pred(wanted, i);
        }
        if other != day {
            if days.contains(other) {
                let i = choose|i: int| 0 <= i < days.len() && days[i] == other;
                days.lemma_filter_contains(wanted, i);
            }
            if next.contains(other) {
                days.lemma_filter_contains_rev(wanted, other);
            }
        }
    }
}

/// A trigger that was chosen by its kind is of that kind.
pub proof fn law_chosen_trigger_is_of_its_kind(kind: TriggerKind)
    ensures
        kind_of_trigger(first_trigger(kind)) == kind,
{
}

/// A task that was chosen by its kind is of that kind.
pub proof fn law_chosen_task_is_of_its_kind(kind: TaskKind)
    ensures
        kind_of_task(first_task(kind)) == kind,
{
}

/// No task is offered as the next one of itself.
pub proof fn law_no_task_leads_to_itself(tasks: Seq<TaskView>, id: u128)
    ensures
        !chain_choices(tasks, id).contains(id),
    decreases tasks.len(),
{
    if tasks.len() > 0 {
        law_no_task_leads_to_itself(tasks.drop_last(), id);
        let before = chain_choices(tasks.drop_last(), id);
        if chain_choices(tasks, id).contains(id) {
            let i = choose|i: int|
                0 <= i < chain_choices(tasks, id).len() && chain_choices(tasks, id)[i] == id;
            if i < before.len() {
                assert(before[i] == id);
            }
        }
    }
}

/// The line of a task tells its last result, whether it is enabled, and its name.
pub proof fn law_tasks_are_labelled(task: TaskView)
    ensures
        ({
            let mark = match task.last_result {
                Some(ok) => if ok {
                    "[OK] "@
                } else {
                    "[FAIL] "@
                },
                None => "[-] "@,
            };
            task_label(task) == mark + (if task.enabled {
                "ON "@
            } else {
                "OFF "@
            }) + task.name
        }),
{
    reveal_strlit("[OK]");
    reveal_strlit("[FAIL]");
    reveal_strlit("[-]");
    reveal_strlit(" ");
    reveal_strlit("ON");
    reveal_strlit("OFF");
    reveal_strlit("[OK] ");
    reveal_strlit("[FAIL] ");
    reveal_strlit("[-] ");
    reveal_strlit("ON ");
    reveal_strlit("OFF ");
    assert("[OK]"@ + " "@ =~= "[OK] "@);
    assert("[FAIL]"@ + " "@ =~= "[FAIL] "@);
    assert("[-]"@ + " "@ =~= "[-] "@);
    let mark = match task.last_result {
        Some(ok) => if ok {
            "[OK] "@
        } else {
            "[FAIL] "@
        },
        None => "[-] "@,
    };
    let word = if task.enabled {
        "ON "@
    } else {
        "OFF "@
    };
    assert(task_label(task) =~= mark + word + task.name);
}

/// The kind of a trigger or a task is that of its variant, and is named.
pub proof fn law_kinds_are_told_apart(t: TriggerView, a: TaskTypeView)
    ensures
        t is Time ==> trigger_kind_name(kind_of_trigger(t)) == "Specific Time"@,
        t is DaysOfWeek ==> trigger_kind_name(kind_of_trigger(t)) == "Days of Week"@,
        t is Interval ==> trigger_kind_name(kind_of_trigger(t)) == "Interval"@,
        t is Email ==> trigger_kind_name(kind_of_trigger(t)) == "Email"@,
        t is Ntfy ==> trigger_kind_name(kind_of_trigger(t)) == "ntfy.sh"@,
        t is Startup ==> trigger_kind_name(kind_of_trigger(t)) == "Startup"@,
        t is OnDemand ==> trigger_kind_name(kind_of_trigger(t)) == "On Demand"@,
        a is HttpGet ==> task_kind_name(kind_of_task(a)) == "HTTP GET"@,
        a is HttpPost ==> task_kind_name(kind_of_task(a)) == "HTTP POST"@,
        a is Command ==> task_kind_name(kind_of_task(a)) == "Command"@,
        a is PathCheck ==> task_kind_name(kind_of_task(a)) == "Path Check"@,
        a is FileChanged ==> task_kind_name(kind_of_task(a)) == "File Changed"@,
        a is Ntfy ==> task_kind_name(kind_of_task(a)) == "ntfy.sh"@,
        a is GetPublicIp ==> task_kind_name(kind_of_task(a)) == "Get Public IP"@,
        a is CloudflareDnsUpdate ==> task_kind_name(kind_of_task(a)) == "Cloudflare DNS"@,
        a is CloudflareIpListUpdate ==> task_kind_name(kind_of_task(a)) == "Cloudflare IP List"@,
        kind_of_trigger(t) == TriggerKind::Time <==> t is Time,
        kind_of_trigger(t) == TriggerKind::DaysOfWeek <==> t is DaysOfWeek,
        kind_of_trigger(t) == TriggerKind::Interval <==> t is Interval,
        kind_of_trigger(t) == TriggerKind::Email <==> t is Email,
        kind_of_trigger(t) == TriggerKind::Ntfy <==> t is Ntfy,
        kind_of_trigger(t) == TriggerKind::Startup <==> t is Startup,
        kind_of_task(a) == TaskKind::HttpGet <==> a is HttpGet,
        kind_of_task(a) == TaskKind::HttpPost <==> a is HttpPost,
        kind_of_task(a) == TaskKind::Command <==> a is Command,
        kind_of_task(a) == TaskKind::PathCheck <==> a is PathCheck,
        kind_of_task(a) == TaskKind::FileChanged <==> a is FileChanged,
        kind_of_task(a) == TaskKind::Ntfy <==> a is Ntfy,
        kind_of_task(a) == TaskKind::GetPublicIp <==> a is GetPublicIp,
        kind_of_task(a) == TaskKind::CloudflareDnsUpdate <==> a is CloudflareDnsUpdate,
{
}

/// A trigger that is chosen starts empty: at midnight, on no day, every hour, with no
/// pattern, and on the usual server.
pub proof fn law_triggers_start_empty(kind: TriggerKind)
    ensures
        match first_trigger(kind) {
            TriggerView::Time { hour, minute } => kind == TriggerKind::Time && hour == 0 && minute
                == 0,
            TriggerView::DaysOfWeek { days, hour, minute } => kind == TriggerKind::DaysOfWeek
                && days.len() == 0 && hour == 0 && minute == 0,
            TriggerView::Interval { minutes } => kind == TriggerKind::Interval && minutes == 60,
            TriggerView::Email { from_pattern, subject_pattern, body_pattern } => kind
                == TriggerKind::Email && from_pattern.len() == 0 && subject_pattern.len() == 0
                && body_pattern.len() == 0,
            TriggerView::Ntfy { server, topic, title_pattern, message_pattern } => kind
                == TriggerKind::Ntfy && server == "https://ntfy.sh"@ && topic.len() == 0
                && title_pattern.len() == 0 && message_pattern.len() == 0,
            TriggerView::Startup => kind == TriggerKind::Startup,
            TriggerView::OnDemand => kind == TriggerKind::OnDemand,
        },
{
}

/// What is chosen for a task to do starts empty, but for the usual server, priority and
/// waiting time of a topic, and the usual type and lifetime of a record.
pub proof fn law_tasks_start_empty(kind: TaskKind)
    ensures
        match first_task(kind) {
            TaskTypeView::HttpGet { url } => kind == TaskKind::HttpGet && url.len() == 0,
            TaskTypeView::HttpPost { url, body, headers } => kind == TaskKind::HttpPost && url.len()
                == 0 && body.len() == 0 && headers.len() == 0,
            TaskTypeView::Command { command, args, working_dir } => kind == TaskKind::Command
                && command.len() == 0 && args.len() == 0 && working_dir.len() == 0,
            TaskTypeView::PathCheck { path, check_file_exists, file_path } => kind
                == TaskKind::PathCheck && path.len() == 0 && !check_file_exists && file_path.len()
                == 0,
            TaskTypeView::FileChanged { file_path, baseline_hash } => kind == TaskKind::FileChanged
                && file_path.len() == 0 && baseline_hash is None,
            TaskTypeView::Ntfy {
                server,
                topic,
                title,
                message,
                priority,
                tags,
                action,
                subscribe_timeout_secs,
            } => kind == TaskKind::Ntfy && server == "https://ntfy.sh"@ && topic.len() == 0
                && title.len() == 0 && message.len() == 0 && priority == "default"@ && tags.len()
                == 0 && action == NtfyAction::Publish && subscribe_timeout_secs == 30,
            TaskTypeView::GetPublicIp => kind == TaskKind::GetPublicIp,
            TaskTypeView::CloudflareDnsUpdate {
                zone_id,
                record_name,
                record_type,
                record_id,
                content,
                proxied,
                ttl,
                api_token_plain,
                api_email_plain,
                api_token_encrypted,
                api_email_encrypted,
            } => kind == TaskKind::CloudflareDnsUpdate && zone_id.len() == 0 && record_name.len()
                == 0 && record_type == "A"@ && record_id.len() == 0 && content.len() == 0 && !proxied
                && ttl == 60 && api_token_plain is None && api_email_plain is None
                && api_token_encrypted is None && api_email_encrypted is None,
            TaskTypeView::CloudflareIpListUpdate {
                account_id,
                list_id,
                list_name,
                ip,
                comment,
                action,
                api_token_plain,
                api_email_plain,
                api_token_encrypted,
                api_email_encrypted,
            } => kind == TaskKind::CloudflareIpListUpdate && account_id.len() == 0 && list_id.len()
                == 0 && list_name.len() == 0 && ip.len() == 0 && comment.len() == 0 && action
                == IpListAction::Add && api_token_plain is None && api_email_plain is None
                && api_token_encrypted is None && api_email_encrypted is None,
        },
{
}

/// A day that is checked is put behind the others; the days that stay keep their order.
pub proof fn law_days_keep_their_order(days: Seq<Weekday>, more: Seq<Weekday>, day: Weekday)
    ensures
        !days.contains(day) ==> with_day(days, day, true) == days.push(day),
        days.contains(day) ==> with_day(days, day, true) == days,
        with_day(days + more, day, false) == with_day(days, day, false) + with_day(
            more,
            day,
            false,
        ),
{
    Seq::<Weekday>::filter_distributes_over_add(days, more, other_than(day));
}

/// A task can lead to every other task, in their order, and to no more.
pub proof fn law_other_tasks_are_offered(
    tasks: Seq<TaskView>,
    more: Seq<TaskView>,
    task: TaskView,
    id: u128,
)
    ensures
        chain_choices(tasks + more, id) == chain_choices(tasks, id) + chain_choices(more, id),
        task.id != id ==> chain_choices(seq![task], id) == seq![task.id],
        task.id == id ==> chain_choices(seq![task], id).len() == 0,
    decreases more.len(),
{
    reveal_with_fuel(chain_choices, 2);
    assert(seq![task].drop_last() =~= Seq::<TaskView>::empty());
    if task.id != id {
        assert(chain_choices(seq![task], id) =~= seq![task.id]);
    }
    if more.len() == 0 {
        assert(tasks + more =~= tasks);
        assert(chain_choices(tasks, id) + chain_choices(more, id) =~= chain_choices(tasks, id));
    } else {
        law_other_tasks_are_offered(tasks, more.drop_last(), task, id);
        assert((tasks + more).drop_last() =~= tasks + more.drop_last());
        assert(chain_choices(tasks + more, id) =~= chain_choices(tasks, id) + chain_choices(
            more,
            id,
        ));
    }
}

/// The tasks that a task leads to are told by name: the first with the identifier for
/// successes, and the first with that for failures.
pub proof fn law_chains_are_told(
    tasks: Seq<TaskView>,
    task: TaskView,
    i: int,
    j: int,
)
    requires
        0 <= i < tasks.len(),
        0 <= j < tasks.len(),
        forall|k: int| 0 <= k < i ==> (#[trigger] tasks[k]).id != tasks[i].id,
        forall|k: int| 0 <= k < j ==> (#[trigger] tasks[k]).id != tasks[j].id,
    ensures
        task.on_success_task_id == Some(tasks[i].id) && task.on_failure_task_id == Some(tasks[j].id)
            ==> chain_lines(tasks, task) == seq![
            "  On Success -> "@ + tasks[i].name,
            "  On Failure -> "@ + tasks[j].name,
        ],
        task.on_success_task_id == Some(tasks[i].id) && task.on_failure_task_id is None
            ==> chain_lines(tasks, task) == seq!["  On Success -> "@ + tasks[i].name],
        task.on_success_task_id is None && task.on_failure_task_id == Some(tasks[j].id)
            ==> chain_lines(tasks, task) == seq!["  On Failure -> "@ + tasks[j].name],
        task.on_success_task_id is None && task.on_failure_task_id is None ==> chain_lines(
            tasks,
            task,
        ).len() == 0,
        task_name(tasks, Some(tasks[i].id)) == Some(tasks[i].name),
{
    lemma_first_task(tasks, tasks[i].id, 0, i);
    lemma_first_task(tasks, tasks[j].id, 0, j);
    if task.on_success_task_id == Some(tasks[i].id) && task.on_failure_task_id == Some(
        tasks[j].id,
    ) {
        assert(chain_lines(tasks, task) =~= seq![
            "  On Success -> "@ + tasks[i].name,
            "  On Failure -> "@ + tasks[j].name,
        ]);
    }
    if task.on_success_task_id == Some(tasks[i].id) && task.on_failure_task_id is None {
        assert(chain_lines(tasks, task) =~= seq!["  On Success -> "@ + tasks[i].name]);
    }
    if task.on_success_task_id is None && task.on_failure_task_id == Some(tasks[j].id) {
        assert(chain_lines(tasks, task) =~= seq!["  On Failure -> "@ + tasks[j].name]);
    }
}

/// The first task with an identifier is the one that is found.
proof fn lemma_first_task(tasks: Seq<TaskView>, id: u128, from: int, i: int)
    requires
        0 <= from <= i < tasks.len(),
        tasks[i].id == id,
        forall|k: int| from <= k < i ==> (#[trigger] tasks[k]).id != id,
    ensures
        find_task(tasks, id, from) == Some(i),
    decreases i - from,
{
    if from < i {
        lemma_first_task(tasks, id, from + 1, i);
    }
}

/// An identifier that no task has names none.
pub proof fn law_unknown_tasks_have_no_name(tasks: Seq<TaskView>, id: u128)
    requires
        forall|k: int| 0 <= k < tasks.len() ==> (#[trigger] tasks[k]).id != id,
    ensures
        task_name(tasks, Some(id)) is None,
        task_name(tasks, None) is None,
{
    lemma_find_task(tasks, id, 0);
}

/// A UUID is written in thirty-two digits of base sixteen, the last of which is what is
/// left of its number by sixteen; the digits before it are those of the number divided by
/// sixteen. Hyphens stand behind the eighth, twelfth, sixteenth and twentieth digit.
pub proof fn law_identifiers_are_written_in_base_sixteen(id: u128, i: int)
    ensures
        ({
            let t = uuid_text(id);
            &&& t.len() == 36
            &&& t[8] == '-' && t[13] == '-' && t[18] == '-' && t[23] == '-'
            &&& t[35] == "0123456789abcdef"@[(id % 16) as int]
            &&& 0 <= i < 8 ==> t[i] == uuid_digit(id, i)
            &&& 8 < i < 13 ==> t[i] == uuid_digit(id, i - 1)
            &&& 13 < i < 18 ==> t[i] == uuid_digit(id, i - 2)
            &&& 18 < i < 23 ==> t[i] == uuid_digit(id, i - 3)
            &&& 23 < i < 36 ==> t[i] == uuid_digit(id, i - 4)
        }),
        0 <= i < 31 ==> uuid_digit(id, i) == uuid_digit(id / 16, i + 1),
{
    let x = id as int;
    lemma_pow0(16);
    assert(x / pow(16, 0) == x);
    reveal_strlit("0123456789abcdef");
    let digits = "0123456789abcdef"@;
    let d = x % 16;
    assert(hex_digit(d) == digits[d]) by {
        assert(d == 0 || d == 1 || d == 2 || d == 3 || d == 4 || d == 5 || d == 6 || d == 7 || d
            == 8 || d == 9 || d == 10 || d == 11 || d == 12 || d == 13 || d == 14 || d == 15);
    }
    if 0 <= i < 31 {
        let n = (30 - i) as nat;
        lemma_pow_positive(16, n);
        lemma_pow_adds(16, 1, n);
        lemma_pow1(16);
        assert(pow(16, (31 - i) as nat) == 16 * pow(16, n));
        lemma_div_denominator(x, 16, pow(16, n));
        assert(x / (16 * pow(16, n)) == (x / 16) / pow(16, n));
        assert((id / 16) as int == x / 16);
    }
}

/// The command that asks the service to run a task names what is asked for, and the task
/// by its identifier.
pub proof fn law_run_commands_name_their_task(id: u128)
    ensures
        run_command_text(id) == "{\"action\":\"run_task\",\"task_id\":\""@ + uuid_text(id)
            + "\"}"@,
{
}

/// A test of the mail server tells what the server said, that it said nothing, or why it
/// could not be reached.
pub proof fn law_mail_tests_are_told(bytes: Vec<u8>, e: String)
    ensures
        smtp_test_text(SmtpTest::Greeted(bytes)) == "SMTP test: Connected. Server: "@ + trim(
            lossy(bytes@),
        ),
        smtp_test_text(SmtpTest::Silent) == "SMTP test: Connected but no greeting"@,
        smtp_test_text(SmtpTest::Failed(e)) == "SMTP test FAILED: "@ + e@,
{
}

/// Of a hash the first sixteen bytes are shown, and all of it where it is shorter.
pub proof fn law_hashes_are_shown_short(front: Seq<char>, back: Seq<char>)
    requires
        encode_utf8(front).len() == 16 || (encode_utf8(front).len() < 16 && back.len() == 0),
    ensures
        baseline_text(Some(front + back)) == "Baseline: "@ + front + "..."@,
        baseline_text(None) == "Baseline: Will be computed on save"@,
{
    law_cuts_take_nothing_away(front, back);
    if back.len() == 0 {
        assert(encode_utf8(back) =~= Seq::<u8>::empty());
    }
}

} // verus!
