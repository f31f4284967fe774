use task_manager::app::Center;
use task_manager::app::DrawnSecrets;
use task_manager::app::Frame;
use task_manager::app::ServiceProcess;
use task_manager::clock::ClockReading;
use task_manager::clock::Timestamp;
use task_manager::clock::Weekday;
use task_manager::config::Config;
use task_manager::crypto::Crypto;
use task_manager::editor::baseline_label;
use task_manager::editor::chain_label;
use task_manager::editor::choices_of_chain;
use task_manager::editor::greeting_line;
use task_manager::editor::label_of_task;
use task_manager::editor::lines_of_chain;
use task_manager::editor::lines_of_task;
use task_manager::editor::notify_label;
use task_manager::editor::poll_due;
use task_manager::editor::run_task_command;
use task_manager::editor::set_day;
use task_manager::editor::smtp_test_address;
use task_manager::editor::test_smtp_connection;
use task_manager::editor::SmtpTest;
use task_manager::editor::TaskKind;
use task_manager::editor::TriggerKind;
use task_manager::hash::compute_file_hash;
use task_manager::service::read_run_command;
use task_manager::task::NotifyWhen;
use task_manager::task::Task;
use task_manager::task::TaskType;
use task_manager::task::TriggerType;
use task_manager::App;

fn clock() -> ClockReading {
    ClockReading {
        now: Timestamp { secs: 0, nanos: 0 },
        day: 0,
        weekday: Weekday::Thu,
        year: 1970,
        month: 1,
        day_of_month: 1,
        hour: 0,
        minute: 0,
        second: 0,
    }
}

fn line(message: &str) -> String {
    format!("[1970-01-01 00:00:00] {}", message)
}

fn named(id: u128, name: &str) -> Task {
    let mut t = Task::with_id(id);
    t.name = name.to_string();
    t
}

fn dns_task(id: u128) -> Task {
    let mut t = named(id, "dns");
    t.task_type = TaskKind::CloudflareDnsUpdate.first();
    t
}

fn list_task(id: u128) -> Task {
    let mut t = named(id, "list");
    t.task_type = TaskKind::CloudflareIpListUpdate.first();
    t
}

fn set_plain(task: &mut Task, token: &str, email: &str) {
    match &mut task.task_type {
        TaskType::CloudflareDnsUpdate { api_token_plain, api_email_plain, .. } => {
            *api_token_plain = Some(token.to_string());
            *api_email_plain = Some(email.to_string());
        }
        TaskType::CloudflareIpListUpdate { api_token_plain, api_email_plain, .. } => {
            *api_token_plain = Some(token.to_string());
            *api_email_plain = Some(email.to_string());
        }
        _ => panic!("no secrets"),
    }
}

fn sealed(task: &Task) -> (Option<Vec<u8>>, Option<Vec<u8>>) {
    match &task.task_type {
        TaskType::CloudflareDnsUpdate { api_token_encrypted, api_email_encrypted, .. } => {
            (api_token_encrypted.clone(), api_email_encrypted.clone())
        }
        TaskType::CloudflareIpListUpdate { api_token_encrypted, api_email_encrypted, .. } => {
            (api_token_encrypted.clone(), api_email_encrypted.clone())
        }
        _ => (None, None),
    }
}

fn nothing_drawn() -> DrawnSecrets {
    DrawnSecrets {
        salt: Vec::new(),
        verifier: None,
        app_token: None,
        user_key: None,
        cloudflare_token: Err("none".to_string()),
        cloudflare_email: None,
        kept_token: None,
        task_secrets: Vec::new(),
    }
}

fn locked_app(password: &str) -> App {
    let mut app = App::new(Config::default(), &clock());
    app.settings.new_password = password.to_string();
    app.settings.confirm_password = password.to_string();
    assert!(app.save_settings(&clock()));
    app
}

#[test]
fn a_first_run_shows_the_settings() {
    let app = App::new(Config::default(), &clock());
    assert!(app.show_settings && !app.show_password_prompt && app.password_verified);
    assert_eq!(app.settings.smtp_port, "25");
    assert_eq!(app.service_status, "Service: Unknown");
    assert_eq!(
        app.log_lines,
        vec![line("GUI started"), line("First run - please configure settings and start service")]
    );
}

#[test]
fn a_later_run_asks_for_the_password() {
    let mut config = Config::default();
    config.password_verifier = Some(vec![1]);
    config.smtp_port = 2525;
    config.tasks = vec![named(1, "a")];
    let app = App::new(config, &clock());
    assert!(!app.show_settings && app.show_password_prompt && !app.password_verified);
    assert_eq!(app.settings.smtp_port, "2525");
    assert_eq!(app.tasks.len(), 1);
    assert_eq!(app.log_lines, vec![line("GUI started")]);
}

#[test]
fn the_log_keeps_two_thousand_lines() {
    let mut app = App::new(Config::default(), &clock());
    for n in 0..2005 {
        app.push_log(&format!("{}", n), &clock());
    }
    assert_eq!(app.log_lines.len(), 2000);
    assert_eq!(app.log_lines[1999], line("2004"));
    assert_eq!(app.log_lines[0], line("5"));
}

#[test]
fn log_files_are_taken_over_once() {
    let mut app = App::new(Config::default(), &clock());
    app.clear_logs();
    app.poll_logs("a\nb\na\n");
    app.poll_logs("a\nb\nc\r\n");
    assert_eq!(app.log_lines, vec!["a", "b", "c"]);
    assert_eq!(app.known_log_lines, vec!["a", "b", "c"]);
    app.push_log("own", &clock());
    app.poll_logs("c\nd");
    assert_eq!(app.log_lines, vec!["a".to_string(), "b".to_string(), "c".to_string(), line("own"), "d".to_string()]);
    app.clear_logs();
    assert!(app.log_lines.is_empty() && app.known_log_lines.is_empty());
}

#[test]
fn known_lines_are_bounded_too() {
    let mut app = App::new(Config::default(), &clock());
    app.clear_logs();
    let mut content = String::new();
    for n in 0..5001 {
        content.push_str(&format!("{}\n", n));
    }
    app.poll_logs(&content);
    assert_eq!(app.log_lines.len(), 2000);
    assert_eq!(app.log_lines[0], "3001");
    assert_eq!(app.known_log_lines.len(), 2000);
    assert_eq!(app.known_log_lines, app.log_lines);
}

#[test]
fn the_service_is_seen_to_run() {
    assert!(App::is_service_running(ServiceProcess::Running, None));
    assert!(App::is_service_running(ServiceProcess::Absent, Some(9)));
    assert!(!App::is_service_running(ServiceProcess::Absent, Some(10)));
    assert!(!App::is_service_running(ServiceProcess::Ended, None));
    let mut app = App::new(Config::default(), &clock());
    app.show_service(true);
    assert_eq!(app.service_status, "Service: Running");
    app.show_service(false);
    assert_eq!(app.service_status, "Service: Stopped");
}

#[test]
fn the_service_is_started_and_stopped() {
    let mut app = App::new(Config::default(), &clock());
    app.clear_logs();
    app.start_service(&Ok(()), &clock());
    app.start_service(&Err("no file".to_string()), &clock());
    app.stop_service(true, &clock());
    app.stop_service(false, &clock());
    assert_eq!(
        app.log_lines,
        vec![
            line("Service started"),
            line("Failed to start service: no file"),
            line("Service stopped"),
            line("Service stop requested"),
        ]
    );
    assert_eq!(app.service_password(), None);
    app.master_password = "pw".to_string();
    assert_eq!(app.service_password(), Some("pw".to_string()));
    app.password_verified = false;
    assert_eq!(app.service_password(), None);
}

#[test]
fn the_status_is_merged() {
    let mut app = App::new(Config::default(), &clock());
    app.tasks = vec![named(1, "a"), named(2, "b")];
    let mut told = named(2, "other name");
    told.last_result = Some(false);
    told.last_error = Some("e".to_string());
    told.last_run = Some(Timestamp { secs: 9, nanos: 0 });
    app.poll_service_status(&vec![named(7, "unknown"), told]);
    assert_eq!(app.tasks.len(), 2);
    assert_eq!(app.tasks[1].name, "b");
    assert_eq!(app.tasks[1].last_result, Some(false));
    assert_eq!(app.tasks[1].last_error, Some("e".to_string()));
    assert_eq!(app.tasks[0].last_result, None);
    let at = |secs: i64| Timestamp { secs, nanos: 0 };
    assert!(app.status_changed(at(1)));
    assert!(!app.status_changed(at(1)));
    assert!(app.status_changed(at(2)));
}

#[test]
fn saving_keeps_the_address_of_the_file() {
    let mut app = App::new(Config::default(), &clock());
    app.clear_logs();
    app.tasks = vec![named(1, "a")];
    app.config.public_ip = Some("old".to_string());
    app.config.cloudflare_default_zone_id = "Z".to_string();
    let mut latest = Config::default();
    assert_eq!(app.save_config(&latest).public_ip, Some("old".to_string()));
    latest.public_ip = Some("new".to_string());
    let config = app.save_config(&latest);
    assert_eq!(config.public_ip, Some("new".to_string()));
    assert_eq!(config.tasks.len(), 1);
    app.config_saved(config.clone(), &Err("full".to_string()), &clock());
    assert_eq!(app.config.public_ip, Some("old".to_string()));
    app.config_saved(config, &Ok(()), &clock());
    assert_eq!(app.config.public_ip, Some("new".to_string()));
    assert_eq!(
        app.log_lines,
        vec![
            line("Failed to save config: full"),
            line("Config saved. token=false email=false zone='Z' record=''"),
        ]
    );
}

#[test]
fn settings_open_with_the_address_of_the_file() {
    let mut app = App::new(Config::default(), &clock());
    app.show_settings = false;
    app.config.public_ip = Some("old".to_string());
    app.open_settings(&Config::default());
    assert!(app.show_settings);
    assert_eq!(app.config.public_ip, None);
    app.password_error = "x".to_string();
    app.cancel_settings();
    assert!(!app.show_settings);
    assert_eq!(app.password_error, "");
}

#[test]
fn secrets_need_a_master_password() {
    let mut app = App::new(Config::default(), &clock());
    app.settings.cloudflare_token = "tok".to_string();
    app.settings.smtp_port = "2526".to_string();
    assert!(!app.save_settings(&clock()));
    assert_eq!(
        app.password_error,
        "A master password is required to encrypt credentials. Set one in the Master Password section below."
    );
    assert!(app.config.cloudflare_api_token_encrypted.is_none());
    assert_eq!(app.config.smtp_port, 2526);
}

#[test]
fn different_passwords_are_refused() {
    let mut app = App::new(Config::default(), &clock());
    app.settings.new_password = "a".to_string();
    app.settings.confirm_password = "b".to_string();
    app.settings.smtp_port = "70000".to_string();
    assert!(!app.save_settings(&clock()));
    assert_eq!(app.password_error, "Passwords do not match");
    assert!(app.config.password_verifier.is_none());
    assert_eq!(app.config.smtp_port, 0);
}

#[test]
fn settings_are_sealed_and_open_again() {
    let mut app = App::new(Config::default(), &clock());
    app.clear_logs();
    app.settings.new_password = "pw".to_string();
    app.settings.confirm_password = "pw".to_string();
    app.settings.app_token = "app".to_string();
    app.settings.user_key = "user".to_string();
    app.settings.cloudflare_token = " tok ".to_string();
    app.settings.cloudflare_email = "me@x".to_string();
    app.settings.cloudflare_zone_id = " Z ".to_string();
    app.password_error = "old".to_string();
    assert!(app.save_settings(&clock()));
    assert!(!app.show_settings && app.password_verified);
    assert_eq!(app.password_error, "");
    assert_eq!(app.settings.new_password, "");
    assert_eq!(app.config.password_salt.as_ref().unwrap().len(), 16);
    assert_eq!(
        app.log_lines,
        vec![
            line("Cloudflare token encrypted and stored"),
            line("Settings prepared: zone_id='Z' record_name='' token_present=true email_present=true"),
        ]
    );
    let config = app.config.clone();
    let mut later = App::new(config, &clock());
    later.password_input = "wrong".to_string();
    later.verify_password();
    assert_eq!(later.password_error, "Invalid password");
    assert!(!later.password_verified);
    later.password_input = "pw".to_string();
    later.verify_password();
    assert!(later.password_verified && !later.show_password_prompt);
    assert_eq!(later.password_error, "");
    assert_eq!(later.settings.app_token, "app");
    assert_eq!(later.settings.user_key, "user");
    assert_eq!(later.settings.cloudflare_token, "tok");
    assert_eq!(later.settings.cloudflare_email, "me@x");
    assert_eq!(later.decrypt_credentials(), Some(("app".to_string(), "user".to_string())));
    assert_eq!(later.decrypt_cloudflare_token(), Some("tok".to_string()));
    assert_eq!(later.decrypt_cloudflare_email(), Some("me@x".to_string()));
}

#[test]
fn an_empty_token_is_kept_and_an_empty_address_is_not() {
    let mut app = locked_app("pw");
    app.config.cloudflare_api_token_encrypted = Some(vec![1]);
    app.config.cloudflare_api_email_encrypted = Some(vec![1]);
    app.config.pushover_app_token_encrypted = Some(vec![1]);
    app.clear_logs();
    assert!(app.save_settings(&clock()));
    assert_eq!(
        app.log_lines[0],
        line("Settings prepared: zone_id='' record_name='' token_present=true email_present=false")
    );
    assert_eq!(app.config.cloudflare_api_token_encrypted, Some(vec![1]));
    assert!(app.config.cloudflare_api_email_encrypted.is_none());
    assert_eq!(app.config.pushover_app_token_encrypted, Some(vec![1]));
}

#[test]
fn blanks_remove_the_token() {
    let mut app = locked_app("pw");
    app.config.cloudflare_api_token_encrypted = Some(vec![1]);
    app.settings.cloudflare_token = "  ".to_string();
    app.clear_logs();
    assert!(app.save_settings(&clock()));
    assert_eq!(app.log_lines[0], line("Cloudflare token cleared"));
    assert!(app.config.cloudflare_api_token_encrypted.is_none());
}

#[test]
fn the_window_shows_what_the_state_says() {
    let mut app = App::new(locked_app("pw").config, &clock());
    app.show_settings = true;
    app.editing_task = Some(named(1, "a"));
    assert_eq!(app.frame(), Frame::Prompt);
    app.password_input = "other".to_string();
    app.verify_password();
    assert_eq!(app.frame(), Frame::Prompt);
    app.password_input = "pw".to_string();
    app.verify_password();
    assert_eq!(app.frame(), Frame::Main { center: Center::Editor, settings: true, logs: false });
    app.editing_task = None;
    app.show_settings = false;
    app.show_logs = true;
    assert_eq!(app.frame(), Frame::Main { center: Center::Hint, settings: false, logs: true });
    app.selected_task_idx = Some(0);
    assert_eq!(app.frame(), Frame::Main { center: Center::Nothing, settings: false, logs: true });
    app.tasks.push(named(1, "a"));
    assert_eq!(app.frame(), Frame::Main { center: Center::Task(0), settings: false, logs: true });
}

#[test]
fn settings_are_taken_over_as_drawn() {
    let mut app = App::new(Config::default(), &clock());
    app.clear_logs();
    app.config.password_verifier = Some(vec![1]);
    app.settings.cloudflare_token = "t".to_string();
    app.settings.smtp_port = " 25".to_string();
    assert!(app.take_settings(nothing_drawn(), &clock()));
    assert_eq!(app.log_lines[0], line("ERROR: Cannot encrypt Cloudflare token — no password salt set"));
    assert_eq!(app.config.smtp_port, 0);
    app.config.password_salt = Some(vec![2]);
    app.clear_logs();
    assert!(app.take_settings(nothing_drawn(), &clock()));
    assert_eq!(app.log_lines[0], line("ERROR: Failed to encrypt Cloudflare token: none"));
    let mut drawn = nothing_drawn();
    drawn.cloudflare_token = Ok(vec![9]);
    drawn.app_token = Some(vec![8]);
    app.settings.app_token = "a".to_string();
    assert!(app.take_settings(drawn, &clock()));
    assert_eq!(app.config.cloudflare_api_token_encrypted, Some(vec![9]));
    assert_eq!(app.config.pushover_app_token_encrypted, None);
}

#[test]
fn unlocking_fills_the_settings() {
    let mut app = App::new(Config::default(), &clock());
    app.password_input = "pw".to_string();
    app.settings.cloudflare_email = "kept".to_string();
    app.unlock(Some(("a".to_string(), "u".to_string())), Some("t".to_string()), None);
    assert_eq!(app.master_password, "pw");
    assert_eq!(app.settings.app_token, "a");
    assert_eq!(app.settings.cloudflare_token, "t");
    assert_eq!(app.settings.cloudflare_email, "kept");
    let mut none = App::new(Config::default(), &clock());
    none.password_input = "pw".to_string();
    none.verify_password();
    assert_eq!(none.master_password, "");
    assert_eq!(none.password_error, "");
}

#[test]
fn tasks_are_added_and_kept() {
    let mut app = App::new(Config::default(), &clock());
    app.selected_task_idx = Some(3);
    app.add_task();
    assert_eq!(app.selected_task_idx, None);
    let id = app.editing_task.as_ref().unwrap().id;
    assert_eq!((id >> 76) & 0xf, 4);
    assert_eq!(app.run_now_task(), Some((id, "New Task".to_string())));
    assert_eq!(app.edited_file(), None);
    assert!(app.save_task(&None));
    assert!(app.editing_task.is_none());
    assert_eq!(app.tasks.len(), 1);
    assert!(!app.save_task(&None));
    assert_eq!(app.run_now_task(), None);
    app.selected_task_idx = Some(0);
    app.edit_selected_task();
    if let Some(task) = &mut app.editing_task {
        task.name = "renamed".to_string();
    }
    assert!(app.save_task(&None));
    assert_eq!(app.tasks.len(), 1);
    assert_eq!(app.tasks[0].name, "renamed");
}

#[test]
fn tasks_are_deleted_and_edits_cancelled() {
    let mut app = App::new(Config::default(), &clock());
    app.tasks = vec![named(1, "a"), named(2, "b"), named(3, "c")];
    assert!(!app.delete_selected_task());
    app.selected_task_idx = Some(3);
    assert!(!app.delete_selected_task());
    app.edit_selected_task();
    assert!(app.editing_task.is_none());
    app.select_task(1);
    app.edit_selected_task();
    assert_eq!(app.editing_task.as_ref().unwrap().name, "b");
    app.cancel_edit();
    assert!(app.editing_task.is_none());
    assert!(app.delete_selected_task());
    assert_eq!(app.tasks.iter().map(|t| t.id).collect::<Vec<u128>>(), vec![1, 3]);
    assert_eq!(app.selected_task_idx, None);
}

#[test]
fn files_get_their_baseline_when_kept() {
    let mut app = App::new(Config::default(), &clock());
    app.add_task_with_id(5);
    if let Some(task) = &mut app.editing_task {
        task.task_type = TaskType::FileChanged { file_path: "/f".to_string(), baseline_hash: Some("old".to_string()) };
    }
    assert_eq!(app.edited_file(), Some("/f".to_string()));
    assert!(app.save_task(&Some(b"abc".to_vec())));
    match &app.tasks[0].task_type {
        TaskType::FileChanged { baseline_hash, .. } => {
            assert_eq!(*baseline_hash, Some(compute_file_hash(b"abc")));
        }
        _ => panic!("other"),
    }
}

#[test]
fn secrets_of_tasks_are_sealed_and_shown_again() {
    let mut app = locked_app("pw");
    app.editing_task = Some(dns_task(7));
    if let Some(task) = &mut app.editing_task {
        if let TaskType::CloudflareDnsUpdate { api_token_plain, api_email_plain, .. } = &mut task.task_type {
            *api_token_plain = Some("tok".to_string());
            *api_email_plain = Some(String::new());
        }
    }
    assert!(app.save_task(&None));
    match &app.tasks[0].task_type {
        TaskType::CloudflareDnsUpdate {
            api_token_plain, api_email_plain, api_token_encrypted, api_email_encrypted, ..
        } => {
            assert_eq!((api_token_plain, api_email_plain), (&None, &None));
            let sealed = api_token_encrypted.as_ref().unwrap();
            let salt = app.config.password_salt.as_ref().unwrap();
            assert_eq!(Crypto::decrypt(sealed, "pw", salt), Ok("tok".to_string()));
            assert_eq!(*api_email_encrypted, None);
        }
        _ => panic!("other"),
    }
    app.selected_task_idx = Some(0);
    app.edit_selected_task();
    match &app.editing_task.as_ref().unwrap().task_type {
        TaskType::CloudflareDnsUpdate { api_token_plain, api_email_plain, .. } => {
            assert_eq!((api_token_plain, api_email_plain), (&Some("tok".to_string()), &None));
        }
        _ => panic!("other"),
    }
}

#[test]
fn addresses_of_tasks_are_sealed_and_shown_again() {
    let mut app = locked_app("pw");
    let mut task = dns_task(8);
    if let TaskType::CloudflareDnsUpdate { api_token_plain, api_email_plain, .. } = &mut task.task_type {
        *api_token_plain = Some("key".to_string());
        *api_email_plain = Some("me@x".to_string());
    }
    app.editing_task = Some(task);
    assert!(app.save_task(&None));
    match &app.tasks[0].task_type {
        TaskType::CloudflareDnsUpdate { api_email_plain, api_email_encrypted, .. } => {
            assert_eq!(*api_email_plain, None);
            assert_ne!(*api_email_encrypted, Some(b"me@x".to_vec()));
        }
        _ => panic!("other"),
    }
    app.selected_task_idx = Some(0);
    app.edit_selected_task();
    match &app.editing_task.as_ref().unwrap().task_type {
        TaskType::CloudflareDnsUpdate { api_token_plain, api_email_plain, .. } => {
            assert_eq!(*api_token_plain, Some("key".to_string()));
            assert_eq!(*api_email_plain, Some("me@x".to_string()));
        }
        _ => panic!("other"),
    }
}

#[test]
fn secrets_survive_a_new_password() {
    let mut app = locked_app("old");
    app.settings.cloudflare_token = "global".to_string();
    assert!(app.save_settings(&clock()));
    app.settings.cloudflare_token = String::new();
    for (id, mut task) in [(7, dns_task(7)), (8, list_task(8))] {
        set_plain(&mut task, "tok", "me@x");
        task.id = id;
        app.editing_task = Some(task);
        assert!(app.save_task(&None));
    }
    app.tasks.push(dns_task(9));
    app.settings.new_password = "new".to_string();
    app.settings.confirm_password = "new".to_string();
    assert!(app.save_settings(&clock()));
    let salt = app.config.password_salt.clone().unwrap();
    assert_eq!(app.decrypt_cloudflare_token(), Some("global".to_string()));
    for task in &app.tasks[0..2] {
        let (token, email) = sealed(task);
        assert_eq!(Crypto::decrypt(&token.unwrap(), "new", &salt), Ok("tok".to_string()));
        assert_eq!(Crypto::decrypt(&email.unwrap(), "new", &salt), Ok("me@x".to_string()));
    }
    assert_eq!(sealed(&app.tasks[2]), (None, None));
}

#[test]
fn secrets_that_do_not_open_stay_as_they_are() {
    let mut app = locked_app("old");
    let mut task = dns_task(7);
    if let TaskType::CloudflareDnsUpdate { api_token_encrypted, .. } = &mut task.task_type {
        *api_token_encrypted = Some(vec![1, 2, 3]);
    }
    app.tasks.push(task);
    app.settings.new_password = "new".to_string();
    app.settings.confirm_password = "new".to_string();
    assert!(app.save_settings(&clock()));
    assert_eq!(sealed(&app.tasks[0]), (Some(vec![1, 2, 3]), None));
}

#[test]
fn secrets_of_list_tasks_are_sealed_too() {
    let mut app = locked_app("pw");
    let mut task = list_task(8);
    set_plain(&mut task, "tok", "");
    app.editing_task = Some(task);
    assert!(app.save_task(&None));
    assert_eq!(app.password_error, "");
    match &app.tasks[0].task_type {
        TaskType::CloudflareIpListUpdate { api_token_plain, api_email_plain, api_token_encrypted, .. } => {
            assert_eq!((api_token_plain, api_email_plain), (&None, &None));
            assert!(api_token_encrypted.is_some());
        }
        _ => panic!("other"),
    }
    app.selected_task_idx = Some(0);
    app.edit_selected_task();
    match &app.editing_task.as_ref().unwrap().task_type {
        TaskType::CloudflareIpListUpdate { api_token_plain, .. } => {
            assert_eq!(*api_token_plain, Some("tok".to_string()));
        }
        _ => panic!("other"),
    }
}

#[test]
fn secrets_of_tasks_are_dropped_without_a_password() {
    let mut app = App::new(Config::default(), &clock());
    let mut task = dns_task(7);
    if let TaskType::CloudflareDnsUpdate { api_token_plain, api_token_encrypted, .. } = &mut task.task_type {
        *api_token_plain = Some("tok".to_string());
        *api_token_encrypted = Some(vec![1]);
    }
    app.editing_task = Some(task);
    assert!(app.keep_task(None, Some(vec![2]), None));
    assert_eq!(
        app.password_error,
        "A master password is required to encrypt credentials. Set one in Settings."
    );
    match &app.tasks[0].task_type {
        TaskType::CloudflareDnsUpdate { api_token_plain, api_token_encrypted, .. } => {
            assert_eq!(*api_token_plain, None);
            assert_eq!(*api_token_encrypted, Some(vec![1]));
        }
        _ => panic!("other"),
    }
}

#[test]
fn tasks_are_queued() {
    let mut app = App::new(Config::default(), &clock());
    app.clear_logs();
    app.run_now_queued("a", &Ok(()), &clock());
    app.run_now_queued("a", &Err("e".to_string()), &clock());
    assert_eq!(app.log_lines, vec![line("Run Now queued for task: a"), line("Failed to queue Run Now: e")]);
    assert_eq!(
        run_task_command(0x0123456789abcdef0123456789abcdef),
        "{\"action\":\"run_task\",\"task_id\":\"01234567-89ab-cdef-0123-456789abcdef\"}"
    );
}

#[test]
fn triggers_are_chosen_by_kind() {
    let names: Vec<String> = TriggerKind::all().iter().map(|k| k.name()).collect();
    assert_eq!(
        names,
        vec!["Specific Time", "Days of Week", "Interval", "Email", "ntfy.sh", "Startup", "On Demand"]
    );
    for kind in TriggerKind::all() {
        assert_eq!(TriggerKind::of(&kind.first()), kind);
    }
    assert_eq!(TriggerKind::Interval.first(), TriggerType::Interval { minutes: 60 });
    assert!(matches!(TriggerKind::Ntfy.first(), TriggerType::Ntfy { server, .. } if server == "https://ntfy.sh"));
}

#[test]
fn tasks_are_chosen_by_kind() {
    let names: Vec<String> = TaskKind::all().iter().map(|k| k.name()).collect();
    assert_eq!(
        names,
        vec![
            "HTTP GET", "HTTP POST", "Command", "Path Check", "File Changed", "ntfy.sh", "Get Public IP",
            "Cloudflare DNS",
        ]
    );
    for kind in TaskKind::all() {
        assert_eq!(TaskKind::of(&kind.first()), kind);
    }
    assert_eq!(TaskKind::of(&TaskKind::CloudflareIpListUpdate.first()), TaskKind::CloudflareIpListUpdate);
    assert_eq!(TaskKind::CloudflareIpListUpdate.name(), "Cloudflare IP List");
    assert!(matches!(
        TaskKind::CloudflareDnsUpdate.first(),
        TaskType::CloudflareDnsUpdate { record_type, proxied: false, ttl: 60, .. } if record_type == "A"
    ));
    assert!(matches!(
        TaskKind::Ntfy.first(),
        TaskType::Ntfy { priority, subscribe_timeout_secs: 30, .. } if priority == "default"
    ));
}

#[test]
fn days_are_checked_and_unchecked() {
    let mut days = vec![Weekday::Mon];
    set_day(&mut days, Weekday::Tue, true);
    set_day(&mut days, Weekday::Mon, true);
    assert_eq!(days, vec![Weekday::Mon, Weekday::Tue]);
    days.push(Weekday::Mon);
    set_day(&mut days, Weekday::Mon, false);
    assert_eq!(days, vec![Weekday::Tue]);
}

#[test]
fn labels_tell_the_state_of_tasks() {
    let mut t = named(1, "a");
    assert_eq!(label_of_task(&t), "[-] ON a");
    t.last_result = Some(true);
    t.enabled = false;
    assert_eq!(label_of_task(&t), "[OK] OFF a");
    t.last_result = Some(false);
    assert_eq!(label_of_task(&t), "[FAIL] OFF a");
    assert_eq!(
        lines_of_task(&t),
        vec!["Status: Disabled", "Trigger: Daily at 00:00", "Action: HTTP GET "]
    );
    assert_eq!(notify_label(NotifyWhen::Both), "Both");
    assert_eq!(notify_label(NotifyWhen::Success), "Success");
    assert_eq!(notify_label(NotifyWhen::Failure), "Failure");
}

#[test]
fn baselines_are_shortened() {
    assert_eq!(baseline_label(None), "Baseline: Will be computed on save");
    assert_eq!(baseline_label(Some("0123456789abcdef0123")), "Baseline: 0123456789abcdef...");
    assert_eq!(baseline_label(Some("abc")), "Baseline: abc...");
}

#[test]
fn chains_are_labelled() {
    let mut tasks = vec![named(1, "a"), named(2, "b")];
    tasks[0].on_success_task_id = Some(2);
    tasks[0].on_failure_task_id = Some(9);
    assert_eq!(chain_label(&tasks, Some(2)), "b");
    assert_eq!(chain_label(&tasks, Some(9)), "None");
    assert_eq!(chain_label(&tasks, None), "None");
    assert_eq!(choices_of_chain(&tasks, 1), vec![2]);
    let first = tasks[0].clone();
    assert_eq!(lines_of_chain(&tasks, &first), vec!["  On Success -> b"]);
}

#[test]
fn the_service_is_polled_every_second() {
    assert!(poll_due(None));
    assert!(!poll_due(Some(0)));
    assert!(poll_due(Some(1)));
}

#[test]
fn the_mail_server_is_tested() {
    assert_eq!(smtp_test_address(25), "127.0.0.1:25");
    assert_eq!(greeting_line(" 220 hi\r\n"), "SMTP test: Connected. Server: 220 hi");
    assert_eq!(
        test_smtp_connection(&SmtpTest::Greeted(b"220 hi\r\n".to_vec())),
        "SMTP test: Connected. Server: 220 hi"
    );
    assert_eq!(test_smtp_connection(&SmtpTest::Silent), "SMTP test: Connected but no greeting");
    assert_eq!(test_smtp_connection(&SmtpTest::Failed("e".to_string())), "SMTP test FAILED: e");
}

#[test]
fn queued_commands_are_read_back() {
    let id = 0xfedcba98_7654_4321_8fed_cba987654321;
    let command = run_task_command(id);
    assert_eq!(read_run_command(&command), Some(id));
    assert_eq!(read_run_command(&run_task_command(0)), Some(0));
    assert_eq!(read_run_command(""), None);
    assert_eq!(read_run_command(&command.to_uppercase()), None);
    assert_eq!(read_run_command(&command.replace("run_task", "end_task")), None);
    assert_eq!(read_run_command(&command.replace('f', "x")), None);
    assert_eq!(read_run_command(&format!("{} ", command)), None);
}
