use task_manager::clock::ClockReading;
use task_manager::clock::Timestamp;
use task_manager::clock::Weekday;
use task_manager::pushover::PushoverClient;
use task_manager::scheduler::execute_task_with_depth;
use task_manager::scheduler::is_pattern_met;
use task_manager::scheduler::Execution;
use task_manager::scheduler::ExecutionStart;
use task_manager::scheduler::Scheduler;
use task_manager::scheduler::SchedulerCommand;
use task_manager::scheduler::SchedulerEvent;
use task_manager::scheduler::SchedulerStep;
use task_manager::scheduler::Started;
use task_manager::smtp::ReceivedEmail;
use task_manager::task::NotifyWhen;
use task_manager::task::NtfyContext;
use task_manager::task::Task;
use task_manager::task::TriggerType;

fn at(day: i32, hour: u32, minute: u32, second: u32) -> ClockReading {
    let secs = day as i64 * 86400 + hour as i64 * 3600 + minute as i64 * 60 + second as i64;
    ClockReading {
        now: Timestamp { secs, nanos: 0 },
        day,
        weekday: if day % 2 == 0 { Weekday::Mon } else { Weekday::Tue },
        year: 2024,
        month: 1,
        day_of_month: 1,
        hour,
        minute,
        second,
    }
}

fn task(id: u128, name: &str, trigger: TriggerType) -> Task {
    let mut t = Task::with_id(id);
    t.name = name.to_string();
    t.trigger = trigger;
    t
}

fn email_trigger(from: &str, subject: &str, body: &str) -> TriggerType {
    TriggerType::Email {
        from_pattern: from.to_string(),
        subject_pattern: subject.to_string(),
        body_pattern: body.to_string(),
    }
}

fn ntfy_trigger(topic: &str, title: &str, message: &str) -> TriggerType {
    TriggerType::Ntfy {
        server: "s".to_string(),
        topic: topic.to_string(),
        title_pattern: title.to_string(),
        message_pattern: message.to_string(),
    }
}

fn scheduler(tasks: Vec<Task>) -> Scheduler {
    Scheduler::new(tasks, None, None, None, None)
}

fn names(list: &Vec<Started>) -> Vec<String> {
    list.iter().map(|s| s.task.name.clone()).collect()
}

fn started(step: SchedulerStep) -> Vec<Started> {
    match step {
        SchedulerStep::Run(list) => list,
        SchedulerStep::Stop => panic!("stopped"),
    }
}

#[test]
fn daily_tasks_start_at_their_minute() {
    let mut s = scheduler(vec![task(1, "a", TriggerType::Time { hour: 8, minute: 5 })]);
    assert!(s.check_time_triggers(&at(10, 8, 4, 0)).is_empty());
    assert!(s.check_time_triggers(&at(10, 8, 5, 1)).is_empty());
    let run = s.check_time_triggers(&at(10, 8, 5, 0));
    assert_eq!(names(&run), vec!["a"]);
    assert_eq!(run[0].task.last_triggered_date, Some(10));
    assert_eq!(s.tasks[0].last_triggered_date, Some(10));
    assert!(s.check_time_triggers(&at(10, 8, 5, 0)).is_empty());
    assert_eq!(names(&s.check_time_triggers(&at(11, 8, 5, 0))), vec!["a"]);
}

#[test]
fn weekly_tasks_start_on_their_days() {
    let trigger = TriggerType::DaysOfWeek { days: vec![Weekday::Mon], hour: 0, minute: 0 };
    let mut s = scheduler(vec![task(1, "a", trigger)]);
    assert!(s.check_time_triggers(&at(11, 0, 0, 0)).is_empty());
    assert_eq!(s.check_time_triggers(&at(12, 0, 0, 0)).len(), 1);
    assert_eq!(s.check_time_triggers(&at(12, 0, 0, 0)).len(), 0);
}

#[test]
fn intervals_are_kept() {
    let mut s = scheduler(vec![task(1, "a", TriggerType::Interval { minutes: 10 })]);
    assert_eq!(s.check_time_triggers(&at(10, 0, 0, 7)).len(), 1);
    assert_eq!(s.check_time_triggers(&at(10, 0, 10, 6)).len(), 0);
    assert_eq!(s.check_time_triggers(&at(10, 0, 10, 7)).len(), 1);
    assert_eq!(s.check_time_triggers(&at(10, 0, 10, 0)).len(), 0);
    assert_eq!(s.check_time_triggers(&at(10, 0, 9, 7)).len(), 0);
    assert_eq!(s.check_time_triggers(&at(9, 0, 0, 0)).len(), 0);
    assert_eq!(s.tasks[0].interval_last_run, Some(at(10, 0, 10, 7).now));
}

#[test]
fn disabled_and_demanded_tasks_are_left_alone() {
    let mut off = task(1, "off", TriggerType::Interval { minutes: 0 });
    off.enabled = false;
    let mut off_start = task(4, "off start", TriggerType::Startup);
    off_start.enabled = false;
    let mut s = scheduler(vec![
        off,
        task(2, "demand", TriggerType::OnDemand),
        task(3, "start", TriggerType::Startup),
        off_start,
    ]);
    assert!(s.check_time_triggers(&at(10, 0, 0, 0)).is_empty());
    assert!(s.tasks[0].last_triggered_date.is_none());
    assert_eq!(names(&s.run_startup_tasks()), vec!["start"]);
    let mail = ReceivedEmail { from: String::new(), subject: String::new(), body: String::new() };
    assert!(s.handle_email(&mail).is_empty());
}

#[test]
fn messages_start_tasks_whose_patterns_they_meet() {
    let s = scheduler(vec![
        task(1, "any", email_trigger("", "", "")),
        task(2, "from", email_trigger("BOSS@", "", "")),
        task(3, "all", email_trigger("boss", "Äpfel", "now")),
        task(4, "other", email_trigger("nobody", "", "")),
    ]);
    let mail = ReceivedEmail {
        from: "Boss@X".to_string(),
        subject: "äPFEL kaufen".to_string(),
        body: "do it NOW".to_string(),
    };
    let run = s.handle_email(&mail);
    assert_eq!(names(&run), vec!["any", "from", "all"]);
    assert_eq!(run[1].log, Some("Email trigger matched for task: from".to_string()));
}

#[test]
fn patterns_are_met_by_lower_case() {
    assert!(is_pattern_met("", "", ""));
    assert!(is_pattern_met("B", "b", "abc"));
    assert!(!is_pattern_met("B", "b", "ac"));
    assert!(is_pattern_met("", "zzz", "a"));
}

#[test]
fn topics_start_tasks_with_their_context() {
    let s = scheduler(vec![
        task(1, "a", ntfy_trigger("t", "", "")),
        task(2, "b", ntfy_trigger("t", "FIRE", "help")),
        task(3, "c", ntfy_trigger("T", "", "")),
        task(4, "d", ntfy_trigger("t", "water", "")),
    ]);
    let context = NtfyContext {
        topic: "t".to_string(),
        title: "Fire!".to_string(),
        message: "HELP".to_string(),
        tags: "x".to_string(),
    };
    let run = s.handle_ntfy(&context);
    assert_eq!(names(&run), vec!["a", "b"]);
    assert_eq!(run[0].log, Some("ntfy trigger matched for task: a".to_string()));
    assert_eq!(run[1].task.ntfy_context.as_ref().unwrap().tags, "x");
}

#[test]
fn events_are_told_apart() {
    let mut s = scheduler(Vec::new());
    let tasks = vec![
        task(1, "start", TriggerType::Startup),
        task(2, "mail", email_trigger("", "", "")),
        task(3, "topic", ntfy_trigger("t", "", "")),
        task(4, "time", TriggerType::Time { hour: 1, minute: 1 }),
    ];
    assert!(started(s.run(SchedulerEvent::Command(Some(SchedulerCommand::UpdateTasks(tasks))))).is_empty());
    assert_eq!(s.tasks.len(), 4);
    let run = started(s.run(SchedulerEvent::Command(Some(SchedulerCommand::RunStartupTasks))));
    assert_eq!(names(&run), vec!["start"]);
    let mail = ReceivedEmail { from: "a".to_string(), subject: "b".to_string(), body: "c".to_string() };
    let run = started(s.run(SchedulerEvent::Command(Some(SchedulerCommand::EmailReceived(mail)))));
    assert_eq!(names(&run), vec!["mail"]);
    let run = started(s.run(SchedulerEvent::Command(Some(SchedulerCommand::NtfyReceived {
        topic: "t".to_string(),
        title: String::new(),
        message: String::new(),
        tags: String::new(),
    }))));
    assert_eq!(names(&run), vec!["topic"]);
    let run = started(s.run(SchedulerEvent::Tick(at(3, 1, 1, 0))));
    assert_eq!(names(&run), vec!["time"]);
    assert!(matches!(s.run(SchedulerEvent::Command(Some(SchedulerCommand::Shutdown))), SchedulerStep::Stop));
    assert!(matches!(s.run(SchedulerEvent::Command(None)), SchedulerStep::Stop));
}

fn begun(start: ExecutionStart) -> Execution {
    match start {
        ExecutionStart::Begun { run, .. } => run,
        ExecutionStart::Refused(_) => panic!("refused"),
    }
}

#[test]
fn runs_begin_and_chains_end() {
    let s = scheduler(Vec::new());
    match s.execute_task(task(1, "a", TriggerType::OnDemand), Some("ip".to_string())) {
        ExecutionStart::Begun { log, run } => {
            assert_eq!(log, "Executing task: a");
            assert_eq!(run.depth, 0);
            assert_eq!(run.public_ip, Some("ip".to_string()));
        }
        ExecutionStart::Refused(_) => panic!("refused"),
    }
    assert!(matches!(
        execute_task_with_depth(task(1, "a", TriggerType::OnDemand), 10, None),
        ExecutionStart::Begun { .. }
    ));
    assert!(matches!(
        execute_task_with_depth(task(1, "a", TriggerType::OnDemand), 11, None),
        ExecutionStart::Refused(log) if log == "Chain depth exceeded for task 'a' -- aborting chain"
    ));
}

#[test]
fn endless_chains_run_eleven_times() {
    let mut own = task(1, "loop", TriggerType::OnDemand);
    own.on_success_task_id = Some(1);
    let mut s = scheduler(vec![own.clone()]);
    let mut next = Some((own, 0u8));
    let mut runs = 0;
    let mut refused = 0;
    while let Some((t, depth)) = next {
        match execute_task_with_depth(t, depth, None) {
            ExecutionStart::Begun { run, .. } => {
                runs += 1;
                next = s.finish(run, Ok(true), Timestamp { secs: runs, nanos: 0 }).next;
            }
            ExecutionStart::Refused(_) => {
                refused += 1;
                next = None;
            }
        }
    }
    assert_eq!((runs, refused), (11, 1));
    assert_eq!(s.tasks[0].last_run, Some(Timestamp { secs: 11, nanos: 0 }));
}

#[test]
fn results_are_recorded_and_chained() {
    let mut first = task(1, "first", TriggerType::OnDemand);
    first.on_success_task_id = Some(2);
    first.on_failure_task_id = Some(3);
    let mut s = scheduler(vec![
        first.clone(),
        task(2, "good", TriggerType::OnDemand),
        task(3, "bad", TriggerType::OnDemand),
    ]);
    let context = NtfyContext {
        topic: "t".to_string(),
        title: String::new(),
        message: String::new(),
        tags: String::new(),
    };
    first.ntfy_context = Some(context);
    let now = Timestamp { secs: 5, nanos: 6 };
    let run = begun(s.execute_task(first.clone(), None));
    let end = s.finish(run, Ok(true), now);
    assert_eq!(end.log, vec!["Task 'first' completed: SUCCESS", "Chaining to success task: good"]);
    let (next, depth) = end.next.unwrap();
    assert_eq!((next.name.as_str(), depth), ("good", 1));
    assert_eq!(next.ntfy_context.unwrap().topic, "t");
    assert_eq!(s.tasks[0].last_result, Some(true));
    assert_eq!(s.tasks[0].last_run, Some(now));
    assert_eq!(s.tasks[0].ntfy_context.as_ref().unwrap().topic, "t");
    assert!(s.tasks[1].last_run.is_none());
    assert!(s.tasks[1].ntfy_context.is_none());

    let run = begun(s.execute_task(first.clone(), None));
    let end = s.finish(run, Err("boom".to_string()), now);
    assert_eq!(end.log, vec!["Task 'first' completed: FAILURE - boom", "Chaining to failure task: bad"]);
    assert_eq!(end.next.unwrap().0.name, "bad");
    assert_eq!(s.tasks[0].last_error, Some("boom".to_string()));

    first.on_failure_task_id = Some(99);
    let run = begun(s.execute_task(first, None));
    let end = s.finish(run, Ok(false), now);
    assert_eq!(end.log, vec!["Task 'first' completed: FAILURE"]);
    assert!(end.next.is_none());
    assert_eq!(s.tasks[0].last_error, None);
}

#[test]
fn notifications_quote_the_error_and_the_variables() {
    let mut t = task(1, "a", TriggerType::OnDemand);
    t.pushover_title_failure = "at {{public_ip}}".to_string();
    t.pushover_message_failure = "failed".to_string();
    t.pushover_priority = -1;
    let run = Execution { task: t.clone(), depth: 0, public_ip: Some("1.2.3.4".to_string()) };
    let mut s = scheduler(Vec::new());
    assert!(s.notification(&run, None, &Ok(true)).is_none());
    s.pushover = Some(PushoverClient::new("app".to_string(), "user".to_string()));
    let n = s.notification(&run, Some("2.2.2.2"), &Err("boom".to_string())).unwrap();
    assert_eq!(n.title, "at 2.2.2.2");
    assert_eq!(n.message, "failed: boom");
    assert_eq!(n.priority, -1);
    assert_eq!(n.sound, "pushover");
    let n = s.notification(&run, None, &Ok(true)).unwrap();
    assert_eq!(n.title, "Task Success");
    assert_eq!(n.message, "Task completed successfully");
    t.notify_when = NotifyWhen::Failure;
    let quiet = Execution { task: t.clone(), depth: 0, public_ip: None };
    assert!(s.notification(&quiet, None, &Ok(true)).is_none());
    assert!(s.notification(&quiet, None, &Ok(false)).is_some());
    t.pushover_enabled = false;
    let off = Execution { task: t, depth: 0, public_ip: None };
    assert!(s.notification(&off, None, &Ok(false)).is_none());
}

#[test]
fn notifications_quote_the_address_that_is_saved_by_then() {
    let mut t = task(1, "ip", TriggerType::OnDemand);
    t.pushover_message_success = "{{public_ip}}".to_string();
    t.pushover_sound = "{{ntfy_title}}".to_string();
    t.ntfy_context = Some(NtfyContext {
        topic: String::new(),
        title: "siren".to_string(),
        message: String::new(),
        tags: String::new(),
    });
    let mut s = scheduler(Vec::new());
    s.pushover = Some(PushoverClient::new("app".to_string(), "user".to_string()));
    let run = Execution { task: t, depth: 0, public_ip: Some("1.1.1.1".to_string()) };
    let n = s.notification(&run, Some("2.2.2.2"), &Ok(true)).unwrap();
    assert_eq!(n.message, "2.2.2.2");
    assert_eq!(n.sound, "siren");
}

#[test]
fn any_task_can_be_run_at_once() {
    let mut off = task(7, "off", TriggerType::OnDemand);
    off.enabled = false;
    let mut s = scheduler(vec![task(3, "other", TriggerType::Startup), off, task(7, "twin", TriggerType::Startup)]);
    assert_eq!(s.run_task_now(7).unwrap().task.name, "off");
    assert!(s.run_task_now(8).is_none());
    let run = started(s.run(SchedulerEvent::Command(Some(SchedulerCommand::RunTask(7)))));
    assert_eq!(names(&run), vec!["off"]);
    assert!(run[0].log.is_none());
    let run = started(s.run(SchedulerEvent::Command(Some(SchedulerCommand::RunTask(8)))));
    assert!(run.is_empty());
}
