use task_manager::smtp::char_uppers_to;
use task_manager::smtp::extract_angle_addr;
use task_manager::smtp::has_brackets_in_order;
use task_manager::smtp::is_email_readable;
use task_manager::smtp::line_begins_command;
use task_manager::smtp::line_is_command;
use task_manager::smtp::parse_email;
use task_manager::smtp::ServerEvent;
use task_manager::smtp::ServerStep;
use task_manager::smtp::SmtpEffect;
use task_manager::smtp::SmtpEvent;
use task_manager::smtp::SmtpServer;
use task_manager::smtp::SmtpSession;

const COMMANDS: [&str; 8] =
    ["HELO", "EHLO", "MAIL FROM:", "RCPT TO:", "DATA", "QUIT", "RSET", "NOOP"];

fn say(session: &mut SmtpSession, line: &str) -> Vec<SmtpEffect> {
    let event = SmtpEvent::Line(format!("{}\r\n", line));
    assert!(session.can_handle(&event));
    session.handle_client(event)
}

fn replies(effects: &Vec<SmtpEffect>) -> Vec<String> {
    let mut r = Vec::new();
    for e in effects {
        if let SmtpEffect::Reply(text) = e {
            r.push(text.clone());
        }
    }
    r
}

fn logs(effects: &Vec<SmtpEffect>) -> Vec<String> {
    let mut r = Vec::new();
    for e in effects {
        if let SmtpEffect::Log(text) = e {
            r.push(text.clone());
        }
    }
    r
}

#[test]
fn addresses_stand_in_angle_brackets() {
    assert_eq!(extract_angle_addr(" Me <me@x> "), "me@x");
    assert_eq!(extract_angle_addr(" me@x "), "me@x");
    assert_eq!(extract_angle_addr("<me@x"), "<me@x");
    assert_eq!(extract_angle_addr("me@x>"), "me@x>");
    assert_eq!(extract_angle_addr("<>"), "");
    assert_eq!(extract_angle_addr("<a> <b>"), "a");
    assert!(has_brackets_in_order("<a>"));
    assert!(!has_brackets_in_order("a> <b>"));
    assert!(has_brackets_in_order("a> b"));
}

#[test]
fn messages_are_read() {
    let mail = parse_email("From: Me <me@x>\nSUBJECT:  Hello \nX: y\n\n body\n\nmore \n");
    assert_eq!(mail.from, "me@x");
    assert_eq!(mail.subject, "Hello");
    assert_eq!(mail.body, "body\n\nmore");
}

#[test]
fn messages_may_lack_every_part() {
    let mail = parse_email("");
    assert_eq!((mail.from.as_str(), mail.subject.as_str(), mail.body.as_str()), ("", "", ""));
    let mail = parse_email("subject: only");
    assert_eq!(mail.subject, "only");
    assert_eq!(mail.body, "");
    let mail = parse_email("\n\nfrom: not a header");
    assert_eq!(mail.from, "");
    assert_eq!(mail.body, "from: not a header");
}

#[test]
fn the_last_header_counts() {
    let mail = parse_email("from: a\nfrom: <b>\nsubject: one\nsubject: two\n\n");
    assert_eq!(mail.from, "b");
    assert_eq!(mail.subject, "two");
}

#[test]
fn unreadable_senders_are_seen() {
    assert!(is_email_readable("from: <a>\n\n"));
    assert!(!is_email_readable("from: a> <b\n\n"));
    assert!(is_email_readable("x: a> <b\n\n"));
    assert!(is_email_readable("\n\nfrom: a> <b"));
}

#[test]
fn upper_case_of_single_characters() {
    let mut code: u32 = 0;
    while code <= 0x10ffff {
        if let Some(c) = char::from_u32(code) {
            let upper: Vec<char> = c.to_uppercase().collect();
            for u in "ABCDEFGHIJKLMNOPQRSTUVWXYZ: ".chars() {
                assert_eq!(char_uppers_to(c, u), upper == vec![u], "{:x} {}", code, u);
            }
        }
        code += 1;
    }
}

#[test]
fn characters_with_longer_upper_case_make_no_command() {
    let mut code: u32 = 0;
    while code <= 0x10ffff {
        if let Some(c) = char::from_u32(code) {
            let upper: String = c.to_uppercase().collect();
            if upper.chars().count() > 1 {
                for command in COMMANDS {
                    assert!(!command.contains(&upper), "{:x}", code);
                }
                for command in ["HELO", "EHLO", "MAIL FROM:", "RCPT TO:"] {
                    for at in 0..command.len() {
                        assert!(!upper.starts_with(&command[at..]), "{:x}", code);
                    }
                }
            }
        }
        code += 1;
    }
}

#[test]
fn commands_are_seen_in_any_case() {
    for line in [
        "helo x", "EhLo", "Mail From:<a>", "rcpt to:b", "data", "DATA ", "quit", "QUıT", "RſET", "rset", "noop",
        "MAıL FROM:<a>", "HEL", "", "helpme", "dataa", "maıl from", "NOOp",
    ] {
        let upper = line.to_uppercase();
        for command in COMMANDS {
            assert_eq!(line_begins_command(line, command), upper.starts_with(command), "{} {}", line, command);
            assert_eq!(line_is_command(line, command), upper == command, "{} {}", line, command);
        }
    }
}

#[test]
fn a_message_is_delivered() {
    let mut s = SmtpSession::new();
    assert_eq!(SmtpSession::greeting().0, "220 TaskManager SMTP Server Ready\r\n");
    assert_eq!(SmtpSession::greeting().1, "SMTP: sent 220 greeting");
    assert_eq!(replies(&say(&mut s, "EHLO me")), vec!["250 Hello\r\n"]);
    assert_eq!(replies(&say(&mut s, "mail from:<me@x>")), vec!["250 OK\r\n"]);
    assert_eq!(s.from, "me@x");
    assert_eq!(replies(&say(&mut s, "RCPT TO:<you@x>")), vec!["250 OK\r\n"]);
    assert_eq!(replies(&say(&mut s, "DATA")), vec!["354 End data with .\r\n"]);
    assert!(replies(&say(&mut s, "From: <me@x>")).is_empty());
    say(&mut s, "Subject: Dots");
    say(&mut s, "");
    say(&mut s, "..leading");
    say(&mut s, ". middle");
    say(&mut s, "quit");
    assert_eq!(s.email_data, "From: <me@x>\nSubject: Dots\n\n.leading\n. middle\nquit\n");
    let effects = say(&mut s, ".");
    assert_eq!(replies(&effects), vec!["250 OK Message accepted\r\n"]);
    assert_eq!(
        logs(&effects),
        vec!["SMTP recv: .", "SMTP: received email from='me@x' subject='Dots' body_len=22"]
    );
    let mut delivered = 0;
    for e in &effects {
        if let SmtpEffect::Deliver(mail) = e {
            delivered += 1;
            assert_eq!(mail.from, "me@x");
            assert_eq!(mail.body, ".leading\n. middle\nquit");
        }
    }
    assert_eq!(delivered, 1);
    assert!(!s.in_data);
    assert_eq!(s.email_data, "");
}

#[test]
fn data_needs_a_greeting() {
    let mut s = SmtpSession::new();
    assert_eq!(replies(&say(&mut s, "DATA")), vec!["503 Send HELO/EHLO first\r\n"]);
    assert!(!s.in_data);
}

#[test]
fn other_commands_are_answered() {
    let mut s = SmtpSession::new();
    assert_eq!(replies(&say(&mut s, "noop")), vec!["250 OK\r\n"]);
    assert!(replies(&say(&mut s, "")).is_empty());
    assert_eq!(replies(&say(&mut s, "VRFY x")), vec!["500 Command not recognized\r\n"]);
    assert_eq!(replies(&say(&mut s, "data x")), vec!["500 Command not recognized\r\n"]);
    say(&mut s, "mail from:a");
    assert_eq!(s.from, "a");
    assert_eq!(replies(&say(&mut s, "rset")), vec!["250 OK\r\n"]);
    assert_eq!(s.from, "");
    let bye = say(&mut s, "quit");
    assert_eq!(replies(&bye), vec!["221 Bye\r\n"]);
    assert_eq!(logs(&bye), vec!["SMTP recv: quit", "SMTP: client QUIT"]);
    assert!(matches!(bye[bye.len() - 1], SmtpEffect::Close));
}

#[test]
fn a_dotless_letter_takes_two_bytes_of_the_command() {
    let mut s = SmtpSession::new();
    say(&mut s, "MAıL FROM:me@x");
    assert_eq!(s.from, "MAıL FROM:me@x"[10..].trim());
    assert_eq!(s.from, ":me@x");
}

#[test]
fn lines_that_cannot_be_read_are_seen() {
    let mut s = SmtpSession::new();
    assert!(!s.can_handle(&SmtpEvent::Line("MAIL FROM: a> <b\r\n".to_string())));
    say(&mut s, "helo");
    say(&mut s, "data");
    assert!(s.can_handle(&SmtpEvent::Line("MAIL FROM: a> <b\r\n".to_string())));
    say(&mut s, "from: a> <b");
    assert!(!s.can_handle(&SmtpEvent::Line(".\r\n".to_string())));
    assert!(s.can_handle(&SmtpEvent::Closed));
}

#[test]
fn sessions_end_with_the_connection() {
    let mut s = SmtpSession::new();
    let gone = s.handle_client(SmtpEvent::Closed);
    assert_eq!(logs(&gone), vec!["SMTP: client disconnected"]);
    assert!(matches!(gone[1], SmtpEffect::Close));
    let failed = s.handle_client(SmtpEvent::Failed("boom".to_string()));
    assert_eq!(logs(&failed), vec!["SMTP read error: boom"]);
    assert!(matches!(failed[1], SmtpEffect::Close));
}

#[test]
fn the_server_reports() {
    let server = SmtpServer::new(2525);
    assert_eq!(server.listen_address(), "0.0.0.0:2525");
    let text = |s: &str| s.to_string();
    let log = |e: ServerEvent| match server.run(e) {
        ServerStep::Log(line) => line,
        _ => panic!("no line"),
    };
    assert!(matches!(server.run(ServerEvent::BindFailed(text("busy"))),
        ServerStep::Stop(e) if e == "Failed to bind SMTP to 0.0.0.0:2525: busy"));
    assert!(matches!(server.run(ServerEvent::AddressFailed(text("x"))), ServerStep::Stop(e) if e == "x"));
    assert_eq!(log(ServerEvent::Listening(text("0.0.0.0:2525"))),
        "SMTP server listening on 0.0.0.0:2525 (port 2525)");
    assert_eq!(log(ServerEvent::Connected(text("1.2.3.4:5"))), "SMTP client connected from 1.2.3.4:5");
    assert_eq!(log(ServerEvent::ClientFailed { peer: text("p"), error: text("e") }), "SMTP client p error: e");
    assert!(matches!(server.run(ServerEvent::AcceptFailed(text("e"))),
        ServerStep::LogAndPause(line, 1) if line == "SMTP accept error: e"));
}

#[test]
fn headers_end_at_the_first_empty_line() {
    for head in ["", "\n", "from: <a>\nsubject: s", "subject: s\r\nfrom: <a>\r\n", "x\nFrom: b \r"] {
        let alone = parse_email(head);
        assert_eq!(alone.body, "");
        for body in ["", "from: other\n\nsubject: other", "\n\n text \n"] {
            let mail = parse_email(&format!("{}\n\n{}", head, body));
            assert_eq!((mail.from, mail.subject), (alone.from.clone(), alone.subject.clone()));
            assert_eq!(mail.body, body.trim());
        }
    }
}
