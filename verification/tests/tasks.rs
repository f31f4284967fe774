use task_manager::clock::Weekday;
use task_manager::task::NotifyWhen;
use task_manager::task::NtfyAction;
use task_manager::task::Task;
use task_manager::task::TaskType;
use task_manager::task::TriggerType;

fn with_trigger(trigger: TriggerType) -> Task {
    let mut task = Task::with_id(1);
    task.trigger = trigger;
    task
}

fn with_type(task_type: TaskType) -> Task {
    let mut task = Task::with_id(1);
    task.task_type = task_type;
    task
}

fn email(from: &str, subject: &str, body: &str) -> TriggerType {
    TriggerType::Email {
        from_pattern: from.to_string(),
        subject_pattern: subject.to_string(),
        body_pattern: body.to_string(),
    }
}

#[test]
fn new_tasks_have_the_usual_settings() {
    let task = Task::with_id(7);
    assert_eq!(task.id, 7);
    assert_eq!(task.name, "New Task");
    assert!(task.enabled);
    assert!(matches!(task.trigger, TriggerType::Time { hour: 0, minute: 0 }));
    assert!(task.pushover_enabled);
    assert_eq!(task.pushover_title_success, "Task Success");
    assert_eq!(task.pushover_message_failure, "Task failed to complete");
    assert_eq!(task.pushover_sound, "pushover");
    assert!(task.last_run.is_none());
}

#[test]
fn default_tasks_get_random_identifiers() {
    let a = Task::default();
    let b = Task::default();
    assert_ne!(a.id, b.id);
    assert_eq!((a.id >> 76) & 0xf, 4);
    assert_eq!((a.id >> 62) & 0x3, 2);
}

#[test]
fn notifications_follow_the_result() {
    let mut task = Task::with_id(1);
    task.notify_when = NotifyWhen::Success;
    assert!(task.should_notify(true) && !task.should_notify(false));
    task.notify_when = NotifyWhen::Failure;
    assert!(!task.should_notify(true) && task.should_notify(false));
    task.notify_when = NotifyWhen::default();
    assert!(task.should_notify(true) && task.should_notify(false));
}

#[test]
fn triggers_are_summed_up() {
    let summary = |t: TriggerType| with_trigger(t).trigger_summary();
    assert_eq!(summary(TriggerType::Time { hour: 8, minute: 5 }), "Daily at 08:05");
    assert_eq!(
        summary(TriggerType::DaysOfWeek { days: vec![Weekday::Mon, Weekday::Fri], hour: 17, minute: 0 }),
        "Mon, Fri at 17:00"
    );
    assert_eq!(summary(TriggerType::Interval { minutes: 1 }), "Every 1 minute");
    assert_eq!(summary(TriggerType::Interval { minutes: 90 }), "Every 90 minutes");
    assert_eq!(summary(email("", "", "")), "Email (any)");
    assert_eq!(summary(email("a", "", "c")), "Email (from: a, body: c)");
    assert_eq!(summary(email("", "b", "")), "Email (subject: b)");
    assert_eq!(
        summary(TriggerType::Ntfy {
            server: "https://ntfy.sh/".to_string(),
            topic: "t".to_string(),
            title_pattern: "x".to_string(),
            message_pattern: "y".to_string(),
        }),
        "ntfy https://ntfy.sh/t (title: x, msg: y)"
    );
    assert_eq!(
        summary(TriggerType::Ntfy {
            server: "s".to_string(),
            topic: "t".to_string(),
            title_pattern: String::new(),
            message_pattern: String::new(),
        }),
        "ntfy s/t (any)"
    );
    assert_eq!(summary(TriggerType::Startup), "On service startup");
    assert_eq!(summary(TriggerType::OnDemand), "On demand (chained)");
}

#[test]
fn tasks_are_summed_up() {
    let summary = |t: TaskType| with_type(t).task_summary();
    assert_eq!(summary(TaskType::HttpGet { url: "u".to_string() }), "HTTP GET u");
    assert_eq!(
        summary(TaskType::HttpPost { url: "u".to_string(), body: String::new(), headers: String::new() }),
        "HTTP POST u"
    );
    assert_eq!(
        summary(TaskType::Command { command: "c".to_string(), args: String::new(), working_dir: String::new() }),
        "CMD: c"
    );
    assert_eq!(
        summary(TaskType::PathCheck { path: "p".to_string(), check_file_exists: false, file_path: String::new() }),
        "Path: p"
    );
    assert_eq!(summary(TaskType::FileChanged { file_path: "f".to_string(), baseline_hash: None }), "File: f");
    assert_eq!(
        summary(TaskType::Ntfy {
            server: "s".to_string(),
            topic: "t".to_string(),
            title: String::new(),
            message: String::new(),
            priority: String::new(),
            tags: String::new(),
            action: NtfyAction::Subscribe,
            subscribe_timeout_secs: 1,
        }),
        "ntfy SUB s/t"
    );
    assert_eq!(NtfyAction::default(), NtfyAction::Publish);
    assert_eq!(summary(TaskType::GetPublicIp), "Get Public IP");
    assert_eq!(
        summary(TaskType::CloudflareDnsUpdate {
            zone_id: "z".to_string(),
            record_name: "n".to_string(),
            record_type: "A".to_string(),
            record_id: String::new(),
            content: String::new(),
            proxied: false,
            ttl: 60,
            api_token_plain: None,
            api_email_plain: None,
            api_token_encrypted: None,
            api_email_encrypted: None,
        }),
        "Cloudflare A n (zone: z)"
    );
}

#[test]
fn clones_keep_everything() {
    let mut task = with_trigger(email("a", "b", "c"));
    task.last_error = Some("e".to_string());
    let copy = task.clone();
    assert_eq!(copy.name, task.name);
    assert_eq!(copy.trigger, task.trigger);
    assert_eq!(copy.task_type, task.task_type);
    assert_eq!(copy.last_error, task.last_error);
}
