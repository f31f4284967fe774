use task_manager::actions::client_from;
use task_manager::actions::command_failure;
use task_manager::actions::defaults_of_document;
use task_manager::actions::fill_defaults;
use task_manager::actions::has_limit;
use task_manager::actions::is_changed;
use task_manager::actions::parse_bool_text;
use task_manager::actions::public_ip_request;
use task_manager::actions::public_ip_saved;
use task_manager::actions::read_defaults;
use task_manager::actions::resolve_record;
use task_manager::actions::result_of_command;
use task_manager::actions::result_of_reply;
use task_manager::actions::run_command;
use task_manager::actions::run_file_changed;
use task_manager::actions::run_get_public_ip;
use task_manager::actions::run_http_get;
use task_manager::actions::run_http_post;
use task_manager::actions::run_ntfy;
use task_manager::actions::run_path_check;
use task_manager::actions::run_task_action;
use task_manager::actions::with_public_ip;
use task_manager::actions::ActionStep;
use task_manager::actions::CommandOutcome;
use task_manager::actions::Heard;
use task_manager::actions::NtfyStep;
use task_manager::actions::PathStep;
use task_manager::actions::RecordDefaults;
use task_manager::actions::RecordTask;
use task_manager::actions::SubscriptionBuffer;
use task_manager::actions::SubscriptionEvent;
use task_manager::actions::SubscriptionNext;
use task_manager::cloudflare::Addition;
use task_manager::cloudflare::CloudflareClient;
use task_manager::cloudflare::CloudflareState;
use task_manager::cloudflare::CloudflareStep;
use task_manager::cloudflare::DnsUpdate;
use task_manager::cloudflare::ListEdit;
use task_manager::config::Config;
use task_manager::crypto::Crypto;
use task_manager::hash::compute_file_hash;
use task_manager::http::Body;
use task_manager::http::HttpReply;
use task_manager::http::HttpRequest;
use task_manager::http::Method;
use task_manager::http::Outcome;
use task_manager::pushover::Notification;
use task_manager::pushover::PushoverClient;
use task_manager::scheduler::Scheduler;
use task_manager::task::IpListAction;
use task_manager::task::NtfyAction;
use task_manager::task::NtfyContext;
use task_manager::task::TaskType;

fn text(s: &str) -> String {
    s.to_string()
}

fn reply(status: u16, body: &str) -> Outcome {
    Ok(HttpReply { status, body: Ok(body.as_bytes().to_vec()) })
}

fn document(request: &HttpRequest) -> String {
    match &request.body {
        Body::Json(document) => document.to_string(),
        _ => panic!("no document"),
    }
}

fn headers(request: &HttpRequest) -> Vec<String> {
    request.headers.iter().map(|p| format!("{}={}", p.name, p.value)).collect()
}

fn defaults(zone: &str, name: &str, proxied: &str, ttl: &str) -> RecordDefaults {
    RecordDefaults {
        zone_id: text(zone),
        record_name: text(name),
        proxied: text(proxied),
        ttl: text(ttl),
    }
}

fn update() -> DnsUpdate {
    DnsUpdate {
        zone_id: text("Z"),
        record_name: text("h.x"),
        record_type: text("A"),
        content: text("1.2.3.4"),
        proxied: true,
        ttl: 60,
    }
}

fn edit(action: IpListAction, comment: &str) -> ListEdit {
    ListEdit { account_id: text("ACC"), ip: text("1.2.3.4"), comment: text(comment), action }
}

fn sent(step: CloudflareStep) -> (Vec<String>, HttpRequest, CloudflareState) {
    match step {
        CloudflareStep::Send { log, request, state } => (log, request, state),
        CloudflareStep::Done { result, .. } => panic!("done: {:?}", result),
    }
}

fn done(step: CloudflareStep) -> (Vec<String>, Result<bool, String>) {
    match step {
        CloudflareStep::Done { log, result } => (log, result),
        CloudflareStep::Send { request, .. } => panic!("sent: {}", request.url),
    }
}

#[test]
fn variables_are_replaced_in_what_a_task_does() {
    let context = NtfyContext {
        topic: text("T"),
        title: text("I"),
        message: text("M"),
        tags: text("g"),
    };
    let task = TaskType::HttpPost {
        url: text("http://{{public_ip}}/{{ntfy_topic}}"),
        body: text("{{ntfy_message}}"),
        headers: text("X: {{ntfy_tags1}}"),
    };
    match run_task_action(&task, Some(&context), Some("9.9.9.9")) {
        TaskType::HttpPost { url, body, headers } => {
            assert_eq!((url.as_str(), body.as_str(), headers.as_str()), ("http://9.9.9.9/T", "M", "X: g"));
        }
        _ => panic!("other"),
    }
    let task = TaskType::CloudflareDnsUpdate {
        zone_id: text("{{ntfy_title}}"),
        record_name: text("n"),
        record_type: text("{{ntfy_title}}"),
        record_id: text(""),
        content: text("{{public_ip}}"),
        proxied: true,
        ttl: 5,
        api_token_plain: None,
        api_email_plain: None,
        api_token_encrypted: None,
        api_email_encrypted: None,
    };
    match run_task_action(&task, Some(&context), Some("9.9.9.9")) {
        TaskType::CloudflareDnsUpdate { zone_id, record_type, content, .. } => {
            assert_eq!((zone_id.as_str(), record_type.as_str(), content.as_str()), ("I", "I", "9.9.9.9"));
        }
        _ => panic!("other"),
    }
}

#[test]
fn plain_requests_are_built() {
    let get = run_http_get("http://a");
    assert_eq!(get.method, Method::Get);
    assert_eq!(get.url, "http://a");
    assert_eq!(get.timeout_secs, Some(30));
    let post = run_http_post("http://a", "body", "A: 1\nnothing\n B : x:y \n:empty\n");
    assert_eq!(post.method, Method::Post);
    assert_eq!(headers(&post), vec!["A=1", "B=x:y", "=empty"]);
    assert!(matches!(post.body, Body::Text(b) if b == "body"));
}

#[test]
fn replies_decide_plain_requests() {
    assert_eq!(result_of_reply(&reply(200, "")), Ok(true));
    assert_eq!(result_of_reply(&reply(299, "")), Ok(true));
    assert_eq!(result_of_reply(&reply(300, "")), Ok(false));
    assert_eq!(result_of_reply(&reply(199, "")), Ok(false));
    assert_eq!(result_of_reply(&Err(text("no route"))), Err(text("no route")));
}

#[test]
fn commands_run_in_a_shell() {
    let line = run_command("dir", "/b", "C:\\");
    assert_eq!(line.program, "cmd");
    assert_eq!(line.args, vec!["/C", "dir", "/b"]);
    assert_eq!(line.dir, Some(text("C:\\")));
    let line = run_command("dir", "", "");
    assert_eq!(line.args, vec!["/C", "dir"]);
    assert_eq!(line.dir, None);
}

#[test]
fn commands_succeed_or_tell_why() {
    assert_eq!(result_of_command(&CommandOutcome::Ended { success: true, stderr: b"x".to_vec() }), Ok(true));
    assert_eq!(
        result_of_command(&CommandOutcome::Ended { success: false, stderr: b"bad\xff".to_vec() }),
        Err(text("Command failed: bad\u{fffd}"))
    );
    assert_eq!(
        result_of_command(&CommandOutcome::NotStarted(text("none"))),
        Err(text("Failed to execute: none"))
    );
    assert_eq!(command_failure("e"), "Command failed: e");
}

#[test]
fn paths_are_checked() {
    assert_eq!(run_path_check(false, true), PathStep::Done(false));
    assert_eq!(run_path_check(true, false), PathStep::Done(true));
    assert_eq!(run_path_check(true, true), PathStep::LookForFile);
}

#[test]
fn changed_files_are_seen() {
    let hash = compute_file_hash(b"abc");
    assert_eq!(run_file_changed(&Some(b"abc".to_vec()), Some(&hash)), Ok(false));
    assert_eq!(run_file_changed(&Some(b"abd".to_vec()), Some(&hash)), Ok(true));
    assert_eq!(run_file_changed(&None, Some(&hash)), Err(text("Cannot read file")));
    assert_eq!(run_file_changed(&Some(b"abc".to_vec()), None), Err(text("No baseline hash set")));
    assert_eq!(is_changed(None, None), Err(text("Cannot read file")));
    assert_eq!(is_changed(Some("a"), Some("b")), Ok(true));
}

#[test]
fn the_public_address_is_asked_for_and_kept() {
    assert_eq!(public_ip_request().url, "https://api.ipify.org");
    assert_eq!(run_get_public_ip(&reply(500, " 1.2.3.4\n")), Ok(text("1.2.3.4")));
    assert_eq!(run_get_public_ip(&Err(text("e"))), Err(text("e")));
    let broken: Outcome = Ok(HttpReply { status: 200, body: Err(text("cut")) });
    assert_eq!(run_get_public_ip(&broken), Err(text("cut")));
    assert_eq!(with_public_ip(Config::default(), "1.2.3.4").public_ip, Some(text("1.2.3.4")));
    let (log, result) = public_ip_saved(&Ok(()), "1.2.3.4");
    assert_eq!(log, Some(text("Public IP updated: 1.2.3.4")));
    assert_eq!(result, Ok(true));
    let (log, result) = public_ip_saved(&Err(text("full")), "1.2.3.4");
    assert_eq!(log, None);
    assert_eq!(result, Err(text("Failed to save config: full")));
}

#[test]
fn notifications_are_sent_as_forms() {
    let client = PushoverClient::new(text("app"), text("user"));
    let n = Notification { title: text("t"), message: text("m"), priority: -2, sound: text("s") };
    let request = client.request(&n);
    assert_eq!(request.url, "https://api.pushover.net/1/messages.json");
    match request.body {
        Body::Form(fields) => {
            let list: Vec<String> = fields.iter().map(|p| format!("{}={}", p.name, p.value)).collect();
            assert_eq!(list, vec!["token=app", "user=user", "title=t", "message=m", "priority=-2", "sound=s"]);
        }
        _ => panic!("no form"),
    }
    assert_eq!(PushoverClient::send(&reply(200, ""), "200 OK"), Ok(()));
    assert_eq!(
        PushoverClient::send(&reply(400, ""), "400 Bad Request"),
        Err(text("Pushover API error: 400 Bad Request"))
    );
    assert_eq!(PushoverClient::send(&Err(text("e")), ""), Err(text("e")));
}

#[test]
fn clients_show_who_they_are() {
    let token = CloudflareClient::with_token(text("tok"));
    let list: Vec<String> = token.auth_headers().iter().map(|p| format!("{}={}", p.name, p.value)).collect();
    assert_eq!(list, vec!["Authorization=Bearer tok"]);
    let key = CloudflareClient::with_global_key(text("me@x"), text("key"));
    let list: Vec<String> = key.auth_headers().iter().map(|p| format!("{}={}", p.name, p.value)).collect();
    assert_eq!(list, vec!["X-Auth-Email=me@x", "X-Auth-Key=key"]);
}

#[test]
fn opened_secrets_make_clients() {
    let c = client_from(Some(text(" tok ")), Some(text("  "))).unwrap();
    assert_eq!((c.token.as_str(), c.email), ("tok", None));
    let c = client_from(Some(text("tok")), Some(text(" me@x "))).unwrap();
    assert_eq!(c.email, Some(text("me@x")));
    assert!(client_from(None, Some(text("me@x"))).is_none());
}

#[test]
fn tasks_bring_their_own_credentials() {
    let salt = Crypto::generate_salt();
    let sealed = Crypto::encrypt("own", "pw", &salt).unwrap();
    let mut s = Scheduler::new(
        Vec::new(),
        None,
        Some(CloudflareClient::with_token(text("global"))),
        Some(text("pw")),
        Some(salt.to_vec()),
    );
    assert_eq!(s.decrypt_per_task_client(Some(&sealed), None).unwrap().token, "own");
    assert!(s.decrypt_per_task_client(None, Some(&sealed)).is_none());
    assert!(s.decrypt_per_task_client(Some(&b"junk".to_vec()), None).is_none());
    let task = RecordTask::new("Z", "n", "A", "R", "1.1.1.1", false, 60, &Some(sealed.clone()), &None);
    let run = s.run_cloudflare_dns_update(&task, &Config::default(), None);
    assert_eq!(run.client.unwrap().token, "own");
    let task = RecordTask::new("Z", "n", "A", "R", "1.1.1.1", false, 60, &None, &None);
    let run = s.run_cloudflare_dns_update(&task, &Config::default(), None);
    assert_eq!(run.client.unwrap().token, "global");
    s.master_password = None;
    assert!(s.decrypt_per_task_client(Some(&sealed), None).is_none());
}

#[test]
fn defaults_fill_what_is_missing() {
    let d = fill_defaults(defaults("a", "", "", "x"), &Some(defaults("b", "c", "", "y")));
    assert_eq!((d.zone_id.as_str(), d.record_name.as_str(), d.proxied.as_str(), d.ttl.as_str()), ("a", "c", "", "x"));
    let d = read_defaults(Some("{\"cloudflare_default_zone_id\":\"Z\",\"cloudflare_default_ttl\":60}")).unwrap();
    assert_eq!((d.zone_id.as_str(), d.ttl.as_str()), ("Z", ""));
    assert!(read_defaults(Some("{")).is_none());
    assert!(read_defaults(None).is_none());
    let doc: serde_json::Value = serde_json::from_str("{\"cloudflare_default_proxied\":\"true\"}").unwrap();
    assert_eq!(defaults_of_document(&doc).proxied, "true");
}

#[test]
fn records_are_resolved_or_refused() {
    let none = defaults("", "", "", "");
    let fail = |task: RecordDefaults, d: &RecordDefaults| resolve_record(&task, d).1.err().unwrap();
    assert_eq!(fail(defaults("", "n", "true", "1"), &none),
        "Zone ID is empty and no default is configured in Settings");
    assert_eq!(fail(defaults("z", "", "true", "1"), &none),
        "Record Name is empty and no default is configured in Settings");
    assert_eq!(fail(defaults("z", "n", "True", "1"), &none), "Invalid proxied value 'True'. Use 'true' or 'false'.");
    assert_eq!(fail(defaults("z", "n", "true", "1m"), &none), "Invalid TTL value '1m'. Must be a number.");
    let (log, record) = resolve_record(&defaults("", "n", "", "4294967295"), &defaults("z", "d", " false ", "1"));
    let record = record.ok().unwrap();
    assert_eq!((record.zone_id.as_str(), record.record_name.as_str()), ("z", "n"));
    assert_eq!((record.proxied, record.ttl), (false, 4294967295));
    assert_eq!(
        log,
        vec![
            "Cloudflare defaults loaded: zone_id='z' record_name='d' proxied=' false ' ttl='1'",
            "Cloudflare resolved: zone_id='z' record_name='n' proxied=' false ' ttl='4294967295' (task empty: zone=true name=false proxied=true ttl=false)",
        ]
    );
    assert_eq!(parse_bool_text("true"), Some(true));
    assert_eq!(parse_bool_text("TRUE"), None);
}

#[test]
fn record_tasks_start() {
    let mut s = Scheduler::new(Vec::new(), None, None, None, None);
    let task = RecordTask::new("", "", "A", "", "", true, 120, &None, &None);
    let run = s.run_cloudflare_dns_update(&task, &Config::default(), None);
    assert!(run.client.is_none());
    assert_eq!(done(run.step), (Vec::new(), Err(text("Cloudflare credentials not configured"))));
    s.cloudflare = Some(CloudflareClient::with_token(text("tok")));
    let mut config = Config::default();
    config.cloudflare_default_zone_id = text("Z");
    let raw = "{\"cloudflare_default_record_name\":\"h.x\"}";
    let (log, result) = done(s.run_cloudflare_dns_update(&task, &config, Some(raw)).step);
    assert_eq!(result, Err(text("No public IP saved in config. Run a GetPublicIp task first.")));
    assert_eq!(log[0], "Cloudflare client: per_task=false global=true");
    assert_eq!(log.len(), 3);
    config.public_ip = Some(text("1.2.3.4"));
    let (log, request, state) = sent(s.run_cloudflare_dns_update(&task, &config, Some(raw)).step);
    assert_eq!(log.len(), 3);
    assert_eq!(request.url, "https://api.cloudflare.com/client/v4/zones/Z/dns_records?type=A&name=h.x");
    assert!(matches!(state, CloudflareState::FindingRecord(u) if u.content == "1.2.3.4" && u.proxied && u.ttl == 120));
    let (_, result) = done(s.run_cloudflare_dns_update(&task, &config, None).step);
    assert_eq!(result, Err(text("Record Name is empty and no default is configured in Settings")));
}

#[test]
fn records_are_found_and_updated() {
    let client = CloudflareClient::with_token(text("tok"));
    let (_, _, state) = sent(client.start_dns(update(), ""));
    let found = reply(200, "{\"result\":[{\"id\":\"R\"},{\"id\":\"S\"}]}");
    let (log, request, state) = sent(client.next(state, &found));
    assert_eq!(log, vec!["Cloudflare: updating A record 'h.x' (zone: Z) to 1.2.3.4 (TTL: 60)"]);
    assert_eq!(request.method, Method::Put);
    assert_eq!(request.url, "https://api.cloudflare.com/client/v4/zones/Z/dns_records/R");
    assert_eq!(headers(&request), vec!["Content-Type=application/json", "Authorization=Bearer tok"]);
    assert_eq!(
        document(&request),
        "{\"content\":\"1.2.3.4\",\"name\":\"h.x\",\"proxied\":true,\"ttl\":60,\"type\":\"A\"}"
    );
    assert_eq!(done(client.next(state, &reply(200, "{\"success\":true}"))).1, Ok(true));
    let (_, _, state) = sent(client.start_dns(update(), "R"));
    assert_eq!(
        done(client.next(state, &reply(200, "{\"errors\":[{\"code\":1},\"x\"]}"))).1,
        Err(text("Cloudflare API returned errors: {\"code\":1}, \"x\""))
    );
    assert_eq!(
        CloudflareClient::update_dns_record(&reply(200, "{\"success\":false}")),
        Err(text("Cloudflare API returned errors: Unknown error"))
    );
}

#[test]
fn missing_records_are_reported() {
    let client = CloudflareClient::with_token(text("tok"));
    let state = || CloudflareState::FindingRecord(update());
    assert_eq!(
        done(client.next(state(), &reply(200, "{\"result\":[]}"))).1,
        Err(text("Could not find A record 'h.x' in zone Z"))
    );
    assert_eq!(
        done(client.next(state(), &reply(403, "denied"))).1,
        Err(text("Cloudflare API error: denied"))
    );
    assert_eq!(
        done(client.next(state(), &reply(200, "<html>"))).1,
        Err(text("error decoding response body"))
    );
    assert_eq!(done(client.next(state(), &Err(text("e")))).1, Err(text("e")));
    let cut: Outcome = Ok(HttpReply { status: 200, body: Err(text("cut")) });
    assert_eq!(done(client.next(state(), &cut)).1, Err(text("cut")));
}

#[test]
fn addresses_are_added_once() {
    let client = CloudflareClient::with_token(text("tok"));
    let (log, request, state) = sent(client.start_list(edit(IpListAction::Add, ""), text("L"), text("")));
    assert_eq!(log, vec!["Cloudflare IP List: Adding IP 1.2.3.4 to list L (acct: ACC)"]);
    assert_eq!(request.url, "https://api.cloudflare.com/client/v4/accounts/ACC/rules/lists/L/items");
    let (log, result) = done(client.next(state, &reply(200, "{\"result\":[{\"ip\":\"1.2.3.4\"}]}")));
    assert_eq!(log, vec!["Cloudflare IP List: IP 1.2.3.4 already exists in list — no changes made"]);
    assert_eq!(result, Ok(true));
}

#[test]
fn addresses_are_added_as_new_items() {
    let client = CloudflareClient::with_token(text("tok"));
    let (_, _, state) = sent(client.start_list(edit(IpListAction::Add, ""), text("L"), text("")));
    let (_, request, state) = sent(client.next(state, &reply(200, "{}")));
    assert_eq!(request.method, Method::Post);
    assert_eq!(document(&request), "[{\"ip\":\"1.2.3.4\"}]");
    let (log, result) = done(client.next(state, &reply(200, "{\"success\":false}")));
    assert_eq!(log, vec!["Cloudflare IP List: added new IP 1.2.3.4 (no comment)"]);
    assert_eq!(result, Ok(false));
}

#[test]
fn addresses_replace_items_with_their_comment() {
    let client = CloudflareClient::with_token(text("tok"));
    let (_, _, state) = sent(client.start_list(edit(IpListAction::Add, "home"), text("L"), text("")));
    let items = reply(200, "{\"result\":[{\"ip\":\"5.5.5.5\",\"comment\":\"home\",\"id\":\"I\"}]}");
    let (log, request, state) = sent(client.next(state, &items));
    assert!(log.is_empty());
    assert_eq!(request.method, Method::Delete);
    assert_eq!(document(&request), "{\"items\":[{\"id\":\"I\"}]}");
    let (_, request, state) = sent(client.next(state, &reply(200, "{\"success\":true}")));
    assert_eq!(document(&request), "[{\"comment\":\"home\",\"ip\":\"1.2.3.4\"}]");
    let (log, result) = done(client.next(state, &reply(200, "{\"success\":true}")));
    assert_eq!(log, vec!["Cloudflare IP List: added/updated IP 1.2.3.4 with comment 'home'"]);
    assert_eq!(result, Ok(true));
    let state = || CloudflareState::DeletingOld { edit: edit(IpListAction::Add, "home"), list_id: text("L") };
    assert_eq!(
        done(client.next(state(), &reply(200, "{}"))).1,
        Err(text("Failed to delete old item before updating"))
    );
    assert_eq!(
        done(client.next(state(), &reply(500, "x"))).1,
        Err(text("Cloudflare API error deleting old item: x"))
    );
}

#[test]
fn additions_are_told_from_documents() {
    let doc = |s: &str| -> serde_json::Value { serde_json::from_str(s).unwrap() };
    let d = doc("{\"result\":[{\"ip\":\"a\",\"comment\":\"c\"}]}");
    assert!(matches!(CloudflareClient::addition_in(&d, "a", "c"), Ok(Addition::Present)));
    assert!(matches!(CloudflareClient::addition_in(&d, "b", ""), Ok(Addition::Add)));
    assert!(matches!(CloudflareClient::addition_in(&d, "b", "other"), Ok(Addition::Add)));
    assert!(matches!(CloudflareClient::addition_in(&d, "b", "c"),
        Err(e) if e == "Found matching comment but item has no ID"));
    assert_eq!(CloudflareClient::entry_id_in(&doc("{\"result\":[{\"name\":\"n\",\"id\":\"X\"}]}"), "name", "n"), Some(text("X")));
    assert_eq!(CloudflareClient::record_id_in(&doc("{\"result\":[{\"id\":5}]}")), None);
    assert_eq!(CloudflareClient::update_in(&doc("{\"success\":true}")), Ok(true));
    assert!(matches!(
        CloudflareClient::add_or_update_ip_by_comment(&reply(500, "x"), "a", ""),
        Err(e) if e == "Cloudflare API error listing items: x"
    ));
}

#[test]
fn addresses_are_removed() {
    let client = CloudflareClient::with_token(text("tok"));
    let (log, _, state) = sent(client.start_list(edit(IpListAction::Remove, ""), text("L"), text("")));
    assert_eq!(log, vec!["Cloudflare IP List: Removing IP 1.2.3.4 to list L (acct: ACC)"]);
    let (_, request, state) = sent(client.next(state, &reply(200, "{\"result\":[{\"ip\":\"1.2.3.4\",\"id\":\"I\"}]}")));
    assert_eq!(document(&request), "{\"items\":[{\"id\":\"I\"}]}");
    assert_eq!(done(client.next(state, &reply(200, "{\"success\":true}"))).1, Ok(true));
    let state = CloudflareState::ListingToRemove { edit: edit(IpListAction::Remove, ""), list_id: text("L") };
    assert_eq!(done(client.next(state, &reply(200, "{\"result\":[]}"))).1, Err(text("IP 1.2.3.4 not found in list")));
}

#[test]
fn lists_are_replaced() {
    let client = CloudflareClient::with_token(text("tok"));
    let (log, request, state) = sent(client.start_list(edit(IpListAction::ReplaceAll, "c"), text("L"), text("")));
    assert_eq!(log, vec!["Cloudflare IP List: Replacing IP 1.2.3.4 to list L (acct: ACC)"]);
    assert_eq!(request.method, Method::Put);
    assert_eq!(done(client.next(state, &reply(200, "{\"success\":true}"))).1, Ok(true));
}

#[test]
fn lists_are_found_by_name() {
    let client = CloudflareClient::with_token(text("tok"));
    let (log, request, state) = sent(client.start_list(edit(IpListAction::Remove, ""), text(""), text("mine")));
    assert!(log.is_empty());
    assert_eq!(request.url, "https://api.cloudflare.com/client/v4/accounts/ACC/rules/lists");
    let lists = reply(200, "{\"result\":[{\"name\":\"x\",\"id\":\"1\"},{\"name\":\"mine\",\"id\":\"2\"}]}");
    let (log, request, _) = sent(client.next(state, &lists));
    assert_eq!(log.len(), 1);
    assert!(request.url.ends_with("/lists/2/items"));
    let state = CloudflareState::FindingList { edit: edit(IpListAction::Add, ""), list_name: text("mine") };
    assert_eq!(
        done(client.next(state, &reply(200, "{\"result\":[]}"))).1,
        Err(text("Could not find IP list named 'mine' in account ACC"))
    );
    assert_eq!(
        done(client.start_list(edit(IpListAction::Add, ""), text(""), text(""))).1,
        Err(text("Either List ID or List Name must be provided"))
    );
}

#[test]
fn list_tasks_start() {
    let mut s = Scheduler::new(Vec::new(), None, None, None, None);
    let mut e = edit(IpListAction::Add, "");
    e.account_id = text("");
    assert_eq!(
        done(s.run_cloudflare_ip_list_update(e, text("L"), text(""), None, None).step).1,
        Err(text("Account ID is required for IP List operations"))
    );
    let mut e = edit(IpListAction::Add, "");
    e.ip = text("");
    assert_eq!(
        done(s.run_cloudflare_ip_list_update(e, text("L"), text(""), None, None).step).1,
        Err(text("IP address is required"))
    );
    let run = s.run_cloudflare_ip_list_update(edit(IpListAction::Add, ""), text("L"), text(""), None, None);
    assert_eq!(done(run.step).1, Err(text("Cloudflare credentials not configured")));
    s.cloudflare = Some(CloudflareClient::with_token(text("tok")));
    let run = s.run_cloudflare_ip_list_update(edit(IpListAction::Add, ""), text("L"), text(""), None, None);
    let (log, _, _) = sent(run.step);
    assert_eq!(log[0], "Cloudflare IP List: per_task=false global=true");
    assert_eq!(log.len(), 2);
    assert_eq!(run.client.unwrap().token, "tok");
}

#[test]
fn messages_are_published() {
    let context = NtfyContext { topic: text("T"), title: text(""), message: text(""), tags: text("") };
    let step = run_ntfy("https://n/", "top", "on {{ntfy_topic}}", "{{public_ip}}", "", "a,b",
        NtfyAction::Publish, u64::MAX, Some(&context));
    match step {
        NtfyStep::Publish { log, request } => {
            assert_eq!(log, "ntfy: publishing to https://n/top");
            assert_eq!(request.url, "https://n/top");
            assert_eq!(headers(&request), vec!["Title=on T", "Tags=a,b"]);
            assert!(matches!(request.body, Body::Text(b) if b == "{{public_ip}}"));
            assert_eq!(request.timeout_secs, Some(30));
        }
        NtfyStep::Subscribe(_) => panic!("subscribed"),
    }
}

#[test]
fn topics_are_subscribed() {
    let step = run_ntfy("https://n", "top", "", "", "", "", NtfyAction::Subscribe, 30, None);
    match step {
        NtfyStep::Subscribe(request) => {
            assert_eq!(request.url, "https://n/top/sse");
            assert_eq!(request.timeout_secs, Some(35));
        }
        NtfyStep::Publish { .. } => panic!("published"),
    }
}

#[test]
fn subscriptions_hear_messages() {
    let mut b = SubscriptionBuffer::new();
    assert_eq!(b.push_chunk(b"event: open\n\nevent: mess"), Heard::Nothing);
    assert_eq!(b.push_chunk(b"age\ndata: "), Heard::Nothing);
    assert_eq!(b.push_chunk(b"{}"), Heard::Message);
    let mut b = SubscriptionBuffer::new();
    assert!(b.push_text("data: { event: message"));
    assert!(!SubscriptionBuffer::new().push_text("event: message"));
}

#[test]
fn subscriptions_forget_old_text() {
    let mut b = SubscriptionBuffer::new();
    assert_eq!(b.push_chunk(&vec![b'x'; 4097]), Heard::Nothing);
    assert_eq!(b.text.len(), 4096);
    let mut b = SubscriptionBuffer::new();
    let mut chunk = "é".as_bytes().to_vec();
    chunk.extend(vec![b'x'; 4095]);
    assert_eq!(b.push_chunk(&chunk), Heard::Split);
    assert_eq!(b.text, "");
    chunk.push(b'x');
    assert_eq!(b.push_chunk(&chunk), Heard::Nothing);
    assert_eq!(b.text.len(), 4096);
}

fn next(b: &mut SubscriptionBuffer, event: SubscriptionEvent, nanos: u128) -> Option<Result<bool, String>> {
    match b.next(event, nanos, 3) {
        SubscriptionNext::Wait => None,
        SubscriptionNext::Done(result) => Some(result),
        SubscriptionNext::Broken => panic!("broken"),
    }
}

#[test]
fn subscriptions_last_until_their_deadline() {
    let mut b = SubscriptionBuffer::new();
    assert_eq!(next(&mut b, SubscriptionEvent::Replied { status: 200 }, 0), None);
    assert_eq!(next(&mut b, SubscriptionEvent::Silence, 2_999_999_999), None);
    assert_eq!(next(&mut b, SubscriptionEvent::Silence, 3_000_000_000), Some(Ok(false)));
    assert_eq!(next(&mut b, SubscriptionEvent::Chunk(b"x".to_vec()), 1), None);
    assert_eq!(b.text, "x");
    assert_eq!(next(&mut b, SubscriptionEvent::Chunk(b"y".to_vec()), 4_000_000_000), Some(Ok(false)));
    let message = b"event: message\ndata: {}".to_vec();
    assert_eq!(next(&mut b, SubscriptionEvent::Chunk(message), 4_000_000_000), Some(Ok(true)));
    assert!(matches!(
        b.next(SubscriptionEvent::Replied { status: 200 }, 0, 0),
        SubscriptionNext::Done(Ok(false))
    ));
}

#[test]
fn subscriptions_end() {
    let mut b = SubscriptionBuffer::new();
    assert_eq!(next(&mut b, SubscriptionEvent::Replied { status: 404 }, 0), Some(Ok(false)));
    assert_eq!(next(&mut b, SubscriptionEvent::StreamEnded, 0), Some(Ok(false)));
    assert_eq!(next(&mut b, SubscriptionEvent::RequestFailed(text("e")), 0), Some(Err(text("e"))));
    assert_eq!(
        next(&mut b, SubscriptionEvent::StreamFailed(text("e")), 0),
        Some(Err(text("SSE stream error: e")))
    );
    let mut chunk = "é".as_bytes().to_vec();
    chunk.extend(vec![b'x'; 4095]);
    assert!(matches!(b.next(SubscriptionEvent::Chunk(chunk), 0, 3), SubscriptionNext::Broken));
}

fn talk(action: NtfyAction, secs: u64) -> TaskType {
    TaskType::Ntfy {
        server: text("http://s/"),
        topic: text("t"),
        title: text(""),
        message: text("m"),
        priority: text(""),
        tags: text(""),
        action,
        subscribe_timeout_secs: secs,
    }
}

#[test]
fn each_kind_of_task_has_its_first_step() {
    let s = Scheduler::new(Vec::new(), None, Some(CloudflareClient::with_token(text("tok"))), None, None);
    let config = Config::default();
    let step = |action: TaskType| {
        assert!(has_limit(&action));
        s.start_action(action, None, &config, None)
    };
    match step(TaskType::HttpGet { url: text("http://a") }) {
        ActionStep::Send(r) => assert_eq!((r.method, r.url.as_str()), (Method::Get, "http://a")),
        _ => panic!("other"),
    }
    match step(TaskType::HttpPost { url: text("http://a"), body: text("b"), headers: text("X: y") }) {
        ActionStep::Send(r) => assert_eq!((r.method, headers(&r)), (Method::Post, vec![text("X=y")])),
        _ => panic!("other"),
    }
    match step(TaskType::Command { command: text("dir"), args: text(""), working_dir: text("d") }) {
        ActionStep::Execute(line) => {
            assert_eq!((line.args, line.dir), (vec![text("/C"), text("dir")], Some(text("d"))));
        }
        _ => panic!("other"),
    }
    match step(TaskType::PathCheck { path: text("p"), check_file_exists: true, file_path: text("f") }) {
        ActionStep::LookFor { path, check_file, file_path } => {
            assert_eq!((path.as_str(), check_file, file_path.as_str()), ("p", true, "f"));
        }
        _ => panic!("other"),
    }
    match step(TaskType::FileChanged { file_path: text("f"), baseline_hash: Some(text("h")) }) {
        ActionStep::Hash { file_path, baseline } => assert_eq!((file_path, baseline), (text("f"), Some(text("h")))),
        _ => panic!("other"),
    }
    match step(talk(NtfyAction::Publish, 9)) {
        ActionStep::Talk { step: NtfyStep::Publish { log, request }, timeout_secs } => {
            assert_eq!((log.as_str(), request.url.as_str()), ("ntfy: publishing to http://s/t", "http://s/t"));
            assert_eq!(timeout_secs, 9);
        }
        _ => panic!("other"),
    }
    match step(talk(NtfyAction::Subscribe, 9)) {
        ActionStep::Talk { step: NtfyStep::Subscribe(request), timeout_secs } => {
            assert_eq!((request.timeout_secs, timeout_secs), (Some(14), 9));
        }
        _ => panic!("other"),
    }
    match step(TaskType::GetPublicIp) {
        ActionStep::AskAddress(r) => assert_eq!(r.url, "https://api.ipify.org"),
        _ => panic!("other"),
    }
    assert!(!has_limit(&talk(NtfyAction::Subscribe, u64::MAX - 4)));
    assert!(has_limit(&talk(NtfyAction::Publish, u64::MAX)));
}

#[test]
fn cloudflare_tasks_have_their_first_step() {
    let s = Scheduler::new(Vec::new(), None, Some(CloudflareClient::with_token(text("tok"))), None, None);
    let config = Config::default();
    let context = NtfyContext { topic: text(""), title: text(""), message: text(""), tags: text("AAAA") };
    let task = TaskType::CloudflareDnsUpdate {
        zone_id: text("Z"),
        record_name: text("h.x"),
        record_type: text("{{ntfy_tags1}}"),
        record_id: text(""),
        content: text("::1"),
        proxied: false,
        ttl: 60,
        api_token_plain: None,
        api_email_plain: None,
        api_token_encrypted: None,
        api_email_encrypted: None,
    };
    let action = run_task_action(&task, Some(&context), None);
    match s.start_action(action, Some(&context), &config, None) {
        ActionStep::AskCloudflare(run) => {
            assert_eq!(run.client.unwrap().token, "tok");
            let (_, request, _) = sent(run.step);
            assert_eq!(
                request.url,
                "https://api.cloudflare.com/client/v4/zones/Z/dns_records?type=AAAA&name=h.x"
            );
        }
        _ => panic!("other"),
    }
    let list = |account: &str| TaskType::CloudflareIpListUpdate {
        account_id: text(account),
        list_id: text("L"),
        list_name: text(""),
        ip: text("1.2.3.4"),
        comment: text(""),
        action: IpListAction::ReplaceAll,
        api_token_plain: None,
        api_email_plain: None,
        api_token_encrypted: None,
        api_email_encrypted: None,
    };
    match s.start_action(list("ACC"), None, &config, None) {
        ActionStep::AskCloudflare(run) => {
            assert_eq!(run.client.unwrap().token, "tok");
            let (_, request, _) = sent(run.step);
            assert_eq!(request.method, Method::Put);
        }
        _ => panic!("other"),
    }
    match s.start_action(list(""), None, &config, None) {
        ActionStep::AskCloudflare(run) => {
            assert!(run.client.is_none());
            assert_eq!(done(run.step).1, Err(text("Account ID is required for IP List operations")));
        }
        _ => panic!("other"),
    }
}
