use task_manager::ntfy_listener::describe_event;
use task_manager::ntfy_listener::find_boundary;
use task_manager::ntfy_listener::is_kind_readable;
use task_manager::ntfy_listener::message_data_of;
use task_manager::ntfy_listener::outputs_of_event;
use task_manager::ntfy_listener::parse_sse_message;
use task_manager::ntfy_listener::subscriptions_of;
use task_manager::ntfy_listener::ListenEvent;
use task_manager::ntfy_listener::ListenNext;
use task_manager::ntfy_listener::ListenerEvent;
use task_manager::ntfy_listener::ListenerStep;
use task_manager::ntfy_listener::NtfyListener;
use task_manager::ntfy_listener::NtfyListenerCommand;
use task_manager::ntfy_listener::NtfyMessage;
use task_manager::ntfy_listener::ParsedNtfyMessage;
use task_manager::ntfy_listener::StreamOutput;
use task_manager::ntfy_listener::TopicStream;
use task_manager::scheduler::SchedulerCommand;
use task_manager::task::Task;
use task_manager::task::TriggerType;

fn waiting(id: u128, server: &str, topic: &str) -> Task {
    let mut task = Task::with_id(id);
    task.trigger = TriggerType::Ntfy {
        server: server.to_string(),
        topic: topic.to_string(),
        title_pattern: String::new(),
        message_pattern: String::new(),
    };
    task
}

fn stream() -> TopicStream {
    TopicStream::new("https://ntfy.sh/".to_string(), "t".to_string())
}

fn logs(outputs: &Vec<StreamOutput>) -> Vec<String> {
    let mut r = Vec::new();
    for o in outputs {
        if let StreamOutput::Log(line) = o {
            r.push(line.clone());
        }
    }
    r
}

fn messages(outputs: &Vec<StreamOutput>) -> Vec<String> {
    let mut r = Vec::new();
    for o in outputs {
        if let StreamOutput::Message(m) = o {
            r.push(format!("{}|{}|{}|{}", m.topic, m.title, m.message, m.tags));
        }
    }
    r
}

#[test]
fn each_topic_is_followed_once() {
    let mut off = waiting(5, "s", "off");
    off.enabled = false;
    let tasks = vec![
        waiting(1, "s", "a"),
        Task::with_id(2),
        waiting(3, "s", "b"),
        waiting(4, "s", "a"),
        off,
        waiting(6, "u", "a"),
    ];
    let list: Vec<String> = subscriptions_of(&tasks).iter().map(|s| format!("{}/{}", s.server, s.topic)).collect();
    assert_eq!(list, vec!["s/a", "s/b", "u/a"]);
}

#[test]
fn the_listener_follows_and_forwards() {
    let listener = NtfyListener::new();
    let tasks = vec![waiting(1, "s", "a"), waiting(2, "s", "b")];
    match listener.run(ListenerEvent::Command(Some(NtfyListenerCommand::UpdateTasks(tasks)))) {
        ListenerStep::Follow { subscriptions, log } => {
            assert_eq!(subscriptions.len(), 2);
            assert_eq!(log, Some("ntfy: monitoring 2 topic(s)".to_string()));
        }
        _ => panic!("not followed"),
    }
    match listener.run(ListenerEvent::Command(Some(NtfyListenerCommand::UpdateTasks(Vec::new())))) {
        ListenerStep::Follow { subscriptions, log } => {
            assert!(subscriptions.is_empty());
            assert_eq!(log, None);
        }
        _ => panic!("not followed"),
    }
    assert!(matches!(listener.run(ListenerEvent::Command(None)), ListenerStep::Stop));
    let message = NtfyMessage {
        topic: "a".to_string(),
        title: "b".to_string(),
        message: "c".to_string(),
        tags: "d".to_string(),
    };
    match listener.run(ListenerEvent::Message(message)) {
        ListenerStep::Forward(SchedulerCommand::NtfyReceived { topic, title, message, tags }) => {
            assert_eq!((topic.as_str(), title.as_str(), message.as_str(), tags.as_str()), ("a", "b", "c", "d"));
        }
        _ => panic!("not forwarded"),
    }
}

#[test]
fn events_end_at_empty_lines() {
    assert_eq!(find_boundary(b""), None);
    assert_eq!(find_boundary(b"\n"), None);
    assert_eq!(find_boundary(b"a\n\nb"), Some(1));
    assert_eq!(find_boundary(b"a\r\n\r\nb"), Some(1));
    assert_eq!(find_boundary(b"a\n\nb\r\n\r\n"), Some(4));
    assert_eq!(find_boundary(b"a\r\n\r"), None);
}

#[test]
fn message_events_carry_data() {
    assert_eq!(message_data_of("event: message\ndata: {\"a\":1}"), Some("{\"a\":1}".to_string()));
    assert_eq!(message_data_of("data: a\r\ndata:  b  \nid: 3"), Some("a\n b".to_string()));
    assert_eq!(message_data_of("event: open\ndata: a"), None);
    assert_eq!(message_data_of("event: message"), None);
    assert_eq!(message_data_of("event: open\nevent:  message \ndata: a"), Some("a".to_string()));
    assert_eq!(message_data_of("event: \ndata: a"), Some("a".to_string()));
    assert_eq!(message_data_of(" data: a"), None);
}

#[test]
fn messages_are_parsed_from_json() {
    let m = parse_sse_message(
        "event: message\ndata: {\"title\":\"T\",\"message\":\"M\",\"tags\":[\"a\",1,\"b\"]}",
    ).unwrap();
    assert_eq!((m.title.as_str(), m.message.as_str(), m.tags.as_str()), ("T", "M", "a, b"));
    let m = parse_sse_message("data: {\"title\":5,\"tags\":\"x\"}").unwrap();
    assert_eq!((m.title.as_str(), m.message.as_str(), m.tags.as_str()), ("", "", ""));
    let m = parse_sse_message("data: not json").unwrap();
    assert_eq!((m.title.as_str(), m.message.as_str(), m.tags.as_str()), ("", "", ""));
    assert!(parse_sse_message("event: keepalive\ndata: {}").is_none());
}

#[test]
fn members_make_messages() {
    let m = ParsedNtfyMessage::from_members(
        Some("T".to_string()),
        None,
        Some(vec!["a".to_string(), "b".to_string()]),
    );
    assert_eq!((m.title.as_str(), m.message.as_str(), m.tags.as_str()), ("T", "", "a, b"));
}

#[test]
fn other_events_are_described() {
    assert_eq!(
        describe_event("t", "event: open\ndata: x"),
        "ntfy: non-message event on 't': type='open' first_line='event: open'"
    );
    assert_eq!(
        describe_event("t", "id: 1"),
        "ntfy: non-message event on 't': type='(no event type)' first_line='id: 1'"
    );
    assert_eq!(
        describe_event("t", "  event: open"),
        "ntfy: non-message event on 't': type='t: open' first_line='  event: open'"
    );
    let long = "é".repeat(70);
    assert_eq!(
        describe_event("t", &long),
        format!("ntfy: non-message event on 't': type='(no event type)' first_line='{}'", "é".repeat(60))
    );
}

#[test]
fn kinds_behind_wide_blanks_cannot_always_be_cut() {
    assert!(is_kind_readable("event: x"));
    assert!(is_kind_readable("\u{3000}event: x"));
    assert!(!is_kind_readable("     \u{a0}event: x"));
    let outputs = outputs_of_event("t", "     \u{a0}event: x", None);
    assert_eq!(outputs.len(), 1);
    assert!(matches!(outputs[0], StreamOutput::Broken));
    assert!(outputs_of_event("t", "  \n ", None).is_empty());
}

#[test]
fn streams_start_with_a_request() {
    let mut s = stream();
    assert_eq!(s.url(), "https://ntfy.sh/t/sse");
    assert_eq!(s.request().timeout_secs, Some(86400));
    assert_eq!(s.request().url, "https://ntfy.sh/t/sse");
    let step = s.listen_topic(ListenEvent::Started);
    assert_eq!(logs(&step.outputs), vec!["ntfy: connecting to https://ntfy.sh/t/sse"]);
    assert_eq!(step.next, ListenNext::Connect);
}

#[test]
fn chunks_bring_messages() {
    let mut s = stream();
    s.listen_topic(ListenEvent::Replied { status: 200, line: "200 OK".to_string() });
    let step = s.listen_topic(ListenEvent::Chunk(b"event: open\ndata: {}\n\nevent: mess".to_vec()));
    assert_eq!(
        logs(&step.outputs),
        vec![
            "ntfy: chunk #1 for 't', 33 bytes, buffer 33 bytes",
            "ntfy: non-message event on 't': type='open' first_line='event: open'",
        ]
    );
    assert_eq!(s.buffer, b"event: mess");
    let step = s.listen_topic(ListenEvent::Chunk(
        b"age\r\ndata: {\"message\":\"hi\",\"title\":\"T\"}\r\n\r\n\n\ndata: {}\n\n".to_vec(),
    ));
    assert_eq!(messages(&step.outputs), vec!["t|T|hi|", "t|||"]);
    assert_eq!(logs(&step.outputs)[1], "ntfy: EVENT on 't': title='T' msg_len=2");
    assert_eq!(step.next, ListenNext::ReadStream);
    assert!(s.buffer.is_empty());
    assert_eq!(s.chunks, 2);
}

#[test]
fn bytes_that_are_no_text_are_replaced() {
    let mut s = stream();
    let found = s.push_chunk(&b"data: {\"title\":\"\xff\"}\n\n".to_vec());
    assert_eq!(messages(&found), vec!["t|\u{fffd}||"]);
}

#[test]
fn some_chunks_are_logged() {
    let mut s = stream();
    for n in 1..=101u64 {
        let found = s.push_chunk(&vec![b'x']);
        assert_eq!(!logs(&found).is_empty(), n <= 3 || n % 50 == 0, "{}", n);
    }
}

#[test]
fn buffers_stay_bounded() {
    let mut s = stream();
    let found = s.push_chunk(&vec![b'x'; 16384]);
    assert_eq!(logs(&found).len(), 1);
    assert_eq!(s.buffer.len(), 16384);
    let found = s.push_chunk(&vec![b'y'; 2]);
    assert_eq!(logs(&found)[1], "ntfy: buffer overflow on 't', dropping 8194 bytes");
    assert_eq!(s.buffer.len(), 8192);
    assert_eq!(&s.buffer[8190..], b"yy");
    assert_eq!(s.buffer[0], b'x');
}

#[test]
fn broken_events_end_the_stream() {
    let mut s = stream();
    let step = s.listen_topic(ListenEvent::Chunk("     \u{a0}event: x\n\ndata: {}\n\n".as_bytes().to_vec()));
    assert_eq!(step.next, ListenNext::GiveUp);
    assert!(messages(&step.outputs).is_empty());
}

#[test]
fn connections_are_tried_again() {
    let mut s = stream();
    let text = |s: &str| s.to_string();
    let step = s.listen_topic(ListenEvent::RequestFailed(text("e")));
    assert_eq!(logs(&step.outputs), vec!["ntfy: request failed for 't': e"]);
    assert_eq!(step.next, ListenNext::ConnectAfter(10));
    let step = s.listen_topic(ListenEvent::ClientFailed(text("e")));
    assert_eq!(logs(&step.outputs), vec!["ntfy: failed to create client: e"]);
    assert_eq!(step.next, ListenNext::GiveUp);
    let step = s.listen_topic(ListenEvent::Replied { status: 404, line: text("404 Not Found") });
    assert_eq!(logs(&step.outputs), vec!["ntfy: HTTP 404 Not Found for 't'"]);
    assert_eq!(step.next, ListenNext::ReadBody);
    let step = s.listen_topic(ListenEvent::ErrorBody(text("gone")));
    assert_eq!(logs(&step.outputs), vec!["ntfy: error body: gone"]);
    assert_eq!(step.next, ListenNext::ConnectAfter(30));
    let step = s.listen_topic(ListenEvent::StreamFailed(text("e")));
    assert_eq!(
        logs(&step.outputs),
        vec!["ntfy: stream error for 't': e", "ntfy: disconnected from 't', reconnecting in 5s..."]
    );
    assert_eq!(step.next, ListenNext::ConnectAfter(5));
    let step = s.listen_topic(ListenEvent::StreamEnded);
    assert_eq!(logs(&step.outputs)[0], "ntfy: stream ended for 't'");
    let step = s.listen_topic(ListenEvent::Silence { secs: 240 });
    assert!(step.outputs.is_empty());
    assert_eq!(step.next, ListenNext::ReadStream);
    let step = s.listen_topic(ListenEvent::Silence { secs: 241 });
    assert_eq!(logs(&step.outputs)[0], "ntfy: stale connection on 't', reconnecting");
    assert_eq!(step.next, ListenNext::ConnectAfter(5));
}

#[test]
fn a_new_connection_starts_empty() {
    let mut s = stream();
    s.push_chunk(&vec![b'x']);
    let step = s.listen_topic(ListenEvent::Replied { status: 200, line: "200 OK".to_string() });
    assert_eq!(logs(&step.outputs), vec!["ntfy: HTTP 200 OK for 't'", "ntfy: SSE stream started for 't'"]);
    assert!(s.buffer.is_empty());
    assert_eq!(s.chunks, 0);
}

#[test]
fn cuts_change_no_message() {
    let bytes = b"event: open\n\ndata: {\"title\":\"a\"}\n\n\ndata: {\"message\":\"b\"}\n\ndata: {".to_vec();
    let mut whole = stream();
    let expected = messages(&whole.push_chunk(&bytes));
    assert_eq!(expected, vec!["t|a||", "t||b|"]);
    for size in 1..bytes.len() {
        let mut cut = stream();
        let mut found = Vec::new();
        for chunk in bytes.chunks(size) {
            found.extend(messages(&cut.push_chunk(&chunk.to_vec())));
        }
        assert_eq!(found, expected);
        assert_eq!(cut.buffer, whole.buffer);
    }
}
