//! The mail server: what it answers to each line of a client, and what it reads
//! out of a message.

use crate::number::decimal;
use crate::number::decimal_text;
use crate::text::byte_len;
use crate::text::cat2;
use crate::text::cat4;
use crate::text::cat5;
use crate::text::cat6;
use crate::text::chars_of;
use crate::text::contains;
use crate::text::copy_text;
use crate::text::find;
use crate::text::find_char;
use crate::text::find_char_in;
use crate::text::find_in;
use crate::text::folds_to;
use crate::text::is_space;
use crate::text::join;
use crate::text::law_blanks_behind_do_not_count;
use crate::text::law_join_puts_between;
use crate::text::law_lines_put_together_come_back;
use crate::text::law_trim_takes_blanks;
use crate::text::lemma_find_char;
use crate::text::lemma_find_from;
use crate::text::lines;
use crate::text::lines_of;
use crate::text::occurs_at;
use crate::text::same_text;
use crate::text::starts_with;
use crate::text::starts_with_folded;
use crate::text::strip_return;
use crate::text::text_behind;
use crate::text::text_between;
use crate::text::text_starts_with;
use crate::text::text_starts_with_folded;
use crate::text::texts;
use crate::text::trim;
use crate::text::trim_end;
use crate::text::trim_end_text;
use crate::text::trim_start;
use crate::text::trim_text;
use vstd::prelude::*;
use vstd::string::StringExecFns;
use vstd::utf8::encode_utf8;

verus! {

// ---------------------------------------------------------------------------
// Messages
// ---------------------------------------------------------------------------

/// A message, as far as a trigger looks at it.
#[derive(Debug)]
pub struct ReceivedEmail {
    pub from: String,
    pub subject: String,
    pub body: String,
}

pub struct EmailView {
    pub from: Seq<char>,
    pub subject: Seq<char>,
    pub body: Seq<char>,
}

impl View for ReceivedEmail {
    type V = EmailView;

    open spec fn view(&self) -> EmailView {
        EmailView { from: self.from@, subject: self.subject@, body: self.body@ }
    }
}

impl Clone for ReceivedEmail {
    fn clone(&self) -> (r: Self)
        ensures
            r@ == self@,
    {
        ReceivedEmail {
            from: self.from.clone(),
            subject: self.subject.clone(),
            body: self.body.clone(),
        }
    }
}

/// Whether the first `<` of a text, where it has one and a `>`, stands before the
/// first `>`.
pub open spec fn brackets_in_order(s: Seq<char>) -> bool {
    match (find_char(trim(s), '<'), find_char(trim(s), '>')) {
        (Some(a), Some(b)) => a < b,
        _ => true,
    }
}

/// The address in a text: what stands between the first `<` and the first `>`, or
/// the whole text where one of them is missing.
pub open spec fn angle_addr(s: Seq<char>) -> Seq<char> {
    let t = trim(s);
    match (find_char(t, '<'), find_char(t, '>')) {
        (Some(a), Some(b)) => t.subrange(a + 1, b),
        _ => t,
    }
}

/// Whether the address in a text can be told.
pub fn has_brackets_in_order(s: &str) -> (r: bool)
    ensures
        r == brackets_in_order(s@),
{
    let t = trim_text(s);
    let chars = chars_of(t.as_str());
    match (find_char_in(&chars, '<'), find_char_in(&chars, '>')) {
        (Some(a), Some(b)) => a < b,
        _ => true,
    }
}

/// The address in a text.
pub fn extract_angle_addr(s: &str) -> (r: String)
    requires
        brackets_in_order(s@),
    ensures
        r@ == angle_addr(s@),
{
    let t = trim_text(s);
    let chars = chars_of(t.as_str());
    proof {
        lemma_find_char(t@, '<');
        lemma_find_char(t@, '>');
    }
    if let Some(a) = find_char_in(&chars, '<') {
        if let Some(b) = find_char_in(&chars, '>') {
            return text_between(&chars, a + 1, b);
        }
    }
    t
}

/// The two parts of a message: the headers before the first empty line, and the
/// rest behind it.
pub open spec fn header_part(data: Seq<char>) -> Seq<char> {
    match find(data, "\n\n"@) {
        Some(i) => data.take(i),
        None => data,
    }
}

pub open spec fn body_part(data: Seq<char>) -> Seq<char> {
    match find(data, "\n\n"@) {
        Some(i) => data.skip(i + 2),
        None => Seq::empty(),
    }
}

pub open spec fn is_from(line: Seq<char>) -> bool {
    starts_with_folded(line, "from:"@)
}

pub open spec fn is_subject(line: Seq<char>) -> bool {
    !is_from(line) && starts_with_folded(line, "subject:"@)
}

/// The sender that header lines name; the last such line counts.
pub open spec fn header_from(lines: Seq<Seq<char>>) -> Seq<char>
    decreases lines.len(),
{
    if lines.len() == 0 {
        Seq::empty()
    } else if is_from(lines.last()) {
        angle_addr(lines.last().skip(5))
    } else {
        header_from(lines.drop_last())
    }
}

/// The subject that header lines name; the last such line counts.
pub open spec fn header_subject(lines: Seq<Seq<char>>) -> Seq<char>
    decreases lines.len(),
{
    if lines.len() == 0 {
        Seq::empty()
    } else if is_subject(lines.last()) {
        trim(lines.last().skip(8))
    } else {
        header_subject(lines.drop_last())
    }
}

/// What a message says.
pub open spec fn email_of(data: Seq<char>) -> EmailView {
    EmailView {
        from: header_from(lines(header_part(data))),
        subject: header_subject(lines(header_part(data))),
        body: trim(body_part(data)),
    }
}

/// Whether the sender can be told from every line that names one.
pub open spec fn senders_readable(lines: Seq<Seq<char>>) -> bool {
    forall|i: int|
        0 <= i < lines.len() && is_from(#[trigger] lines[i]) ==> brackets_in_order(
            lines[i].skip(5),
        )
}

/// Whether a message can be read.
pub open spec fn email_readable(data: Seq<char>) -> bool {
    senders_readable(lines(header_part(data)))
}

/// The two parts of a message.
fn split_message(data: &str) -> (r: (String, String))
    ensures
        r.0@ == header_part(data@),
        r.1@ == body_part(data@),
{
    let chars = chars_of(data);
    let gap = chars_of("\n\n");
    proof {
        reveal_strlit("\n\n");
        lemma_find_from(data@, "\n\n"@, 0);
    }
    match find_in(&chars, &gap, 0) {
        Some(i) => {
            assert(occurs_at(data@, "\n\n"@, i as int));
            assert(i + 2 <= chars.len());
            let head = text_between(&chars, 0, i);
            let rest = text_between(&chars, i + 2, chars.len());
            assert(head@ =~= data@.take(i as int));
            assert(rest@ =~= data@.skip(i + 2));
            (head, rest)
        },
        None => (copy_text(data), String::new()),
    }
}

/// Whether a message can be read.
pub fn is_email_readable(data: &str) -> (r: bool)
    ensures
        r == email_readable(data@),
{
    let (head, _rest) = split_message(data);
    let list = lines_of(head.as_str());
    let ghost all = lines(head@);
    let mut i: usize = 0;
    while i < list.len()
        invariant
            all == texts(list@),
            all == lines(header_part(data@)),
            i <= list@.len(),
            forall|j: int|
                0 <= j < i && is_from(#[trigger] all[j]) ==> brackets_in_order(all[j].skip(5)),
        decreases list@.len() - i,
    {
        if text_starts_with_folded(list[i].as_str(), "from:") {
            proof {
                reveal_strlit("from:");
            }
            let value = text_behind(list[i].as_str(), 5);
            if !has_brackets_in_order(value.as_str()) {
                assert(is_from(all[i as int]));
                return false;
            }
        }
        i = i + 1;
    }
    true
}

/// What a message says.
pub fn parse_email(data: &str) -> (r: ReceivedEmail)
    requires
        email_readable(data@),
    ensures
        r@ == email_of(data@),
{
    let (head, rest) = split_message(data);
    let list = lines_of(head.as_str());
    let ghost all = lines(head@);
    let mut from = String::new();
    let mut subject = String::new();
    let mut i: usize = 0;
    assert(all.take(0) =~= Seq::<Seq<char>>::empty());
    while i < list.len()
        invariant
            all == texts(list@),
            senders_readable(all),
            i <= list@.len(),
            from@ == header_from(all.take(i as int)),
            subject@ == header_subject(all.take(i as int)),
        decreases list@.len() - i,
    {
        assert(all.take(i + 1).drop_last() =~= all.take(i as int));
        assert(all.take(i + 1).last() == list@[i as int]@);
        if text_starts_with_folded(list[i].as_str(), "from:") {
            proof {
                reveal_strlit("from:");
                assert(is_from(all[i as int]));
            }
            let value = text_behind(list[i].as_str(), 5);
            from = extract_angle_addr(value.as_str());
        } else if text_starts_with_folded(list[i].as_str(), "subject:") {
            proof {
                reveal_strlit("subject:");
            }
            let value = text_behind(list[i].as_str(), 8);
            subject = trim_text(value.as_str());
        }
        i = i + 1;
    }
    assert(all.take(list@.len() as int) =~= all);
    ReceivedEmail { from, subject, body: trim_text(rest.as_str()) }
}

// ---------------------------------------------------------------------------
// Sessions
// ---------------------------------------------------------------------------

/// The state of a session with a client.
pub struct SmtpSession {
    /// The sender that the client gave last.
    pub from: String,
    /// Whether the client is sending a message.
    pub in_data: bool,
    /// The message so far.
    pub email_data: String,
    pub helo_received: bool,
}

pub struct SessionView {
    pub from: Seq<char>,
    pub in_data: bool,
    pub email_data: Seq<char>,
    pub helo_received: bool,
}

impl View for SmtpSession {
    type V = SessionView;

    open spec fn view(&self) -> SessionView {
        SessionView {
            from: self.from@,
            in_data: self.in_data,
            email_data: self.email_data@,
            helo_received: self.helo_received,
        }
    }
}

/// What reading from a client gave.
pub enum SmtpEvent {
    /// A line, with its ending.
    Line(String),
    /// The client closed the connection.
    Closed,
    /// The connection failed.
    Failed(String),
}

pub enum SmtpEventView {
    Line(Seq<char>),
    Closed,
    Failed(Seq<char>),
}

impl View for SmtpEvent {
    type V = SmtpEventView;

    open spec fn view(&self) -> SmtpEventView {
        match *self {
            SmtpEvent::Line(line) => SmtpEventView::Line(line@),
            SmtpEvent::Closed => SmtpEventView::Closed,
            SmtpEvent::Failed(e) => SmtpEventView::Failed(e@),
        }
    }
}

/// What the server does, one thing after the other.
pub enum SmtpEffect {
    Log(String),
    /// Hands a message on.
    Deliver(ReceivedEmail),
    /// Writes to the client.
    Reply(String),
    /// Ends the session.
    Close,
}

pub enum SmtpEffectView {
    Log(Seq<char>),
    Deliver(EmailView),
    Reply(Seq<char>),
    Close,
}

impl View for SmtpEffect {
    type V = SmtpEffectView;

    open spec fn view(&self) -> SmtpEffectView {
        match *self {
            SmtpEffect::Log(text) => SmtpEffectView::Log(text@),
            SmtpEffect::Deliver(email) => SmtpEffectView::Deliver(email@),
            SmtpEffect::Reply(text) => SmtpEffectView::Reply(text@),
            SmtpEffect::Close => SmtpEffectView::Close,
        }
    }
}

/// The contents of a list of effects.
pub open spec fn effects(list: Seq<SmtpEffect>) -> Seq<SmtpEffectView> {
    Seq::new(list.len(), |i: int| list[i]@)
}

/// Whether `u` is the upper case of `c`, for an upper-case ASCII letter or other
/// ASCII character `u`. Besides the two cases of the letter itself, the dotless
/// `i` has the upper case `I`, and the long `s` the upper case `S`.
pub open spec fn uppers_to(c: char, u: char) -> bool {
    ||| c == u
    ||| 'A' as int <= u as int <= 'Z' as int && c as int == u as int + 32
    ||| u == 'I' && c as int == 0x131
    ||| u == 'S' && c as int == 0x17f
}

/// Whether a line begins with a command, in whatever case.
pub open spec fn begins_command(line: Seq<char>, command: Seq<char>) -> bool {
    command.len() <= line.len() && forall|i: int|
        0 <= i < command.len() ==> uppers_to(#[trigger] line[i], command[i])
}

/// Whether a line is a command, in whatever case.
pub open spec fn is_command(line: Seq<char>, command: Seq<char>) -> bool {
    line.len() == command.len() && begins_command(line, command)
}

/// What follows `MAIL FROM:` in a line: the text behind the first ten bytes. The
/// dotless `i` takes two of them.
pub open spec fn sender_part(line: Seq<char>) -> Seq<char> {
    if line[2] as int == 0x131 {
        line.skip(9)
    } else {
        line.skip(10)
    }
}

/// A line of a message as it was before the client doubled a dot at its start.
pub open spec fn unstuffed(line: Seq<char>) -> Seq<char> {
    if starts_with(line, ".."@) {
        line.skip(1)
    } else {
        line
    }
}

/// What the log says of a message.
pub open spec fn received_log(email: EmailView) -> Seq<char> {
    "SMTP: received email from='"@ + email.from + "' subject='"@ + email.subject + "' body_len="@
        + decimal(encode_utf8(email.body).len())
}

/// A session that has just begun.
pub open spec fn new_session() -> SessionView {
    SessionView {
        from: Seq::empty(),
        in_data: false,
        email_data: Seq::empty(),
        helo_received: false,
    }
}

/// What the server does with a line of a message.
pub open spec fn data_step(state: SessionView, cmd: Seq<char>) -> (
    SessionView,
    Seq<SmtpEffectView>,
) {
    if cmd == "."@ {
        let email = email_of(state.email_data);
        (
            SessionView { in_data: false, email_data: Seq::empty(), ..state },
            seq![
                SmtpEffectView::Log(received_log(email)),
                SmtpEffectView::Deliver(email),
                SmtpEffectView::Reply("250 OK Message accepted\r\n"@),
            ],
        )
    } else {
        (
            SessionView { email_data: state.email_data + unstuffed(cmd) + seq!['\n'], ..state },
            Seq::empty(),
        )
    }
}

/// What the server does with a command.
pub open spec fn command_step(state: SessionView, cmd: Seq<char>) -> (
    SessionView,
    Seq<SmtpEffectView>,
) {
    let ok = seq![SmtpEffectView::Reply("250 OK\r\n"@)];
    if begins_command(cmd, "HELO"@) || begins_command(cmd, "EHLO"@) {
        (
            SessionView { helo_received: true, ..state },
            seq![SmtpEffectView::Reply("250 Hello\r\n"@)],
        )
    } else if begins_command(cmd, "MAIL FROM:"@) {
        (SessionView { from: angle_addr(sender_part(cmd)), ..state }, ok)
    } else if begins_command(cmd, "RCPT TO:"@) {
        (state, ok)
    } else if is_command(cmd, "DATA"@) {
        if !state.helo_received {
            (state, seq![SmtpEffectView::Reply("503 Send HELO/EHLO first\r\n"@)])
        } else {
            (
                SessionView { in_data: true, ..state },
                seq![SmtpEffectView::Reply("354 End data with .\r\n"@)],
            )
        }
    } else if is_command(cmd, "QUIT"@) {
        (
            state,
            seq![
                SmtpEffectView::Reply("221 Bye\r\n"@),
                SmtpEffectView::Log("SMTP: client QUIT"@),
                SmtpEffectView::Close,
            ],
        )
    } else if is_command(cmd, "RSET"@) {
        (
            SessionView {
                from: Seq::empty(),
                in_data: false,
                email_data: Seq::empty(),
                ..state
            },
            ok,
        )
    } else if is_command(cmd, "NOOP"@) {
        (state, ok)
    } else if cmd.len() == 0 {
        (state, Seq::empty())
    } else {
        (state, seq![SmtpEffectView::Reply("500 Command not recognized\r\n"@)])
    }
}

/// What the server does with what it read.
pub open spec fn session_step(state: SessionView, event: SmtpEventView) -> (
    SessionView,
    Seq<SmtpEffectView>,
) {
    match event {
        SmtpEventView::Line(line) => {
            let cmd = trim_end(line);
            let (next, then) = if state.in_data {
                data_step(state, cmd)
            } else {
                command_step(state, cmd)
            };
            (next, seq![SmtpEffectView::Log("SMTP recv: "@ + cmd)] + then)
        },
        SmtpEventView::Closed => (
            state,
            seq![SmtpEffectView::Log("SMTP: client disconnected"@), SmtpEffectView::Close],
        ),
        SmtpEventView::Failed(e) => (
            state,
            seq![SmtpEffectView::Log("SMTP read error: "@ + e), SmtpEffectView::Close],
        ),
    }
}

/// Whether the server can go on from what it read: it cannot tell the address
/// where a `>` stands before the first `<`.
pub open spec fn line_readable(state: SessionView, event: SmtpEventView) -> bool {
    match event {
        SmtpEventView::Line(line) => {
            let cmd = trim_end(line);
            if state.in_data {
                cmd == "."@ ==> email_readable(state.email_data)
            } else {
                begins_command(cmd, "MAIL FROM:"@) && !begins_command(cmd, "HELO"@)
                    && !begins_command(cmd, "EHLO"@) ==> brackets_in_order(sender_part(cmd))
            }
        },
        _ => true,
    }
}

/// Whether `u` is the upper case of `c`.
pub fn char_uppers_to(c: char, u: char) -> (r: bool)
    ensures
        r == uppers_to(c, u),
{
    let code: u32 = c as u32;
    let upper: u32 = u as u32;
    c == u || (upper >= 'A' as u32 && upper <= 'Z' as u32 && code == upper + 32) || (u == 'I'
        && code == 0x131) || (u == 'S' && code == 0x17f)
}

/// Whether a line begins with a command, in whatever case.
pub fn line_begins_command(line: &str, command: &str) -> (r: bool)
    ensures
        r == begins_command(line@, command@),
{
    let chars = chars_of(line);
    let c = chars_of(command);
    if c.len() > chars.len() {
        return false;
    }
    let mut i: usize = 0;
    while i < c.len()
        invariant
            chars@ == line@,
            c@ == command@,
            c@.len() <= chars@.len(),
            i <= c@.len(),
            forall|j: int| 0 <= j < i ==> uppers_to(#[trigger] chars@[j], c@[j]),
        decreases c@.len() - i,
    {
        if !char_uppers_to(chars[i], c[i]) {
            assert(!uppers_to(line@[i as int], command@[i as int]));
            return false;
        }
        i = i + 1;
    }
    true
}

/// Whether a line is a command, in whatever case.
pub fn line_is_command(line: &str, command: &str) -> (r: bool)
    ensures
        r == is_command(line@, command@),
{
    let chars = chars_of(line);
    let c = chars_of(command);
    chars.len() == c.len() && line_begins_command(line, command)
}

fn is_dotless(c: char) -> (r: bool)
    ensures
        r == (c as int == 0x131),
{
    let code: u32 = c as u32;
    code == 0x131
}

/// What follows `MAIL FROM:` in a line.
fn sender_text(line: &str) -> (r: String)
    requires
        line@.len() >= 10,
    ensures
        r@ == sender_part(line@),
{
    let chars = chars_of(line);
    if is_dotless(chars[2]) {
        text_behind(line, 9)
    } else {
        text_behind(line, 10)
    }
}

/// A list of one reply.
fn one_reply(text: &str) -> (r: Vec<SmtpEffect>)
    ensures
        effects(r@) == seq![SmtpEffectView::Reply(text@)],
{
    let mut r: Vec<SmtpEffect> = Vec::new();
    r.push(SmtpEffect::Reply(copy_text(text)));
    assert(effects(r@) =~= seq![SmtpEffectView::Reply(text@)]);
    r
}

/// A list of one line for the log, and the end of the session.
fn close_with(line: String) -> (r: Vec<SmtpEffect>)
    ensures
        effects(r@) == seq![SmtpEffectView::Log(line@), SmtpEffectView::Close],
{
    let mut r: Vec<SmtpEffect> = Vec::new();
    r.push(SmtpEffect::Log(line));
    r.push(SmtpEffect::Close);
    assert(effects(r@) =~= seq![SmtpEffectView::Log(line@), SmtpEffectView::Close]);
    r
}

impl SmtpSession {
    /// A session that has just begun.
    pub fn new() -> (r: Self)
        ensures
            r@ == new_session(),
    {
        SmtpSession {
            from: String::new(),
            in_data: false,
            email_data: String::new(),
            helo_received: false,
        }
    }

    /// What the server writes first, and what it logs when it has.
    pub fn greeting() -> (r: (String, String))
        ensures
            r.0@ == "220 TaskManager SMTP Server Ready\r\n"@,
            r.1@ == "SMTP: sent 220 greeting"@,
    {
        (
            copy_text("220 TaskManager SMTP Server Ready\r\n"),
            copy_text("SMTP: sent 220 greeting"),
        )
    }

    /// Whether the server can go on from what it read.
    pub fn can_handle(&self, event: &SmtpEvent) -> (r: bool)
        ensures
            r == line_readable(self@, event@),
    {
        match event {
            SmtpEvent::Line(line) => {
                let cmd = trim_end_text(line.as_str());
                if self.in_data {
                    !same_text(cmd.as_str(), ".") || is_email_readable(
                        self.email_data.as_str(),
                    )
                } else if line_begins_command(cmd.as_str(), "HELO") || line_begins_command(
                    cmd.as_str(),
                    "EHLO",
                ) {
                    true
                } else if line_begins_command(cmd.as_str(), "MAIL FROM:") {
                    proof {
                        reveal_strlit("MAIL FROM:");
                    }
                    let sender = sender_text(cmd.as_str());
                    has_brackets_in_order(sender.as_str())
                } else {
                    true
                }
            },
            _ => true,
        }
    }

    /// What the server does with a line of a message.
    fn data_line(&mut self, cmd: &str) -> (r: Vec<SmtpEffect>)
        requires
            cmd@ == "."@ ==> email_readable(old(self)@.email_data),
        ensures
            (final(self)@, effects(r@)) == data_step(old(self)@, cmd@),
    {
        let mut r: Vec<SmtpEffect> = Vec::new();
        if same_text(cmd, ".") {
            self.in_data = false;
            let email = parse_email(self.email_data.as_str());
            let size = decimal_text(byte_len(email.body.as_str()) as u64);
            let line = cat6(
                "SMTP: received email from='",
                email.from.as_str(),
                "' subject='",
                email.subject.as_str(),
                "' body_len=",
                size.as_str(),
            );
            self.email_data = String::new();
            r.push(SmtpEffect::Log(line));
            r.push(SmtpEffect::Deliver(email));
            r.push(SmtpEffect::Reply(copy_text("250 OK Message accepted\r\n")));
            assert(r@[0]@ == data_step(old(self)@, cmd@).1[0]);
            assert(r@[1]@ == data_step(old(self)@, cmd@).1[1]);
            assert(r@[2]@ == data_step(old(self)@, cmd@).1[2]);
            assert(effects(r@) =~= data_step(old(self)@, cmd@).1);
        } else {
            if text_starts_with(cmd, "..") {
                proof {
                    reveal_strlit("..");
                }
                let plain = text_behind(cmd, 1);
                self.email_data.append(plain.as_str());
            } else {
                self.email_data.append(cmd);
            }
            self.email_data.push('\n');
            assert(self@.email_data =~= old(self)@.email_data + unstuffed(cmd@) + seq!['\n']);
            assert(effects(r@) =~= data_step(old(self)@, cmd@).1);
        }
        r
    }

    /// What the server does with a command.
    fn command_line(&mut self, cmd: &str) -> (r: Vec<SmtpEffect>)
        requires
            begins_command(cmd@, "MAIL FROM:"@) && !begins_command(cmd@, "HELO"@)
                && !begins_command(cmd@, "EHLO"@) ==> brackets_in_order(sender_part(cmd@)),
        ensures
            (final(self)@, effects(r@)) == command_step(old(self)@, cmd@),
    {
        if line_begins_command(cmd, "HELO") || line_begins_command(cmd, "EHLO") {
            self.helo_received = true;
            one_reply("250 Hello\r\n")
        } else if line_begins_command(cmd, "MAIL FROM:") {
            proof {
                reveal_strlit("MAIL FROM:");
            }
            let sender = sender_text(cmd);
            self.from = extract_angle_addr(sender.as_str());
            one_reply("250 OK\r\n")
        } else if line_begins_command(cmd, "RCPT TO:") {
            one_reply("250 OK\r\n")
        } else if line_is_command(cmd, "DATA") {
            if !self.helo_received {
                one_reply("503 Send HELO/EHLO first\r\n")
            } else {
                self.in_data = true;
                one_reply("354 End data with .\r\n")
            }
        } else if line_is_command(cmd, "QUIT") {
            let mut r = one_reply("221 Bye\r\n");
            assert(effects(r@).len() == 1);
            assert(effects(r@)[0] == r@[0]@);
            r.push(SmtpEffect::Log(copy_text("SMTP: client QUIT")));
            r.push(SmtpEffect::Close);
            assert(effects(r@) =~= command_step(old(self)@, cmd@).1);
            r
        } else if line_is_command(cmd, "RSET") {
            self.from = String::new();
            self.email_data = String::new();
            self.in_data = false;
            one_reply("250 OK\r\n")
        } else if line_is_command(cmd, "NOOP") {
            one_reply("250 OK\r\n")
        } else if cmd.is_empty() {
            let r: Vec<SmtpEffect> = Vec::new();
            assert(effects(r@) =~= Seq::<SmtpEffectView>::empty());
            r
        } else {
            one_reply("500 Command not recognized\r\n")
        }
    }

    /// What the server does with what it read from the client.
    pub fn handle_client(&mut self, event: SmtpEvent) -> (r: Vec<SmtpEffect>)
        requires
            line_readable(old(self)@, event@),
        ensures
            (final(self)@, effects(r@)) == session_step(old(self)@, event@),
    {
        match event {
            SmtpEvent::Line(line) => {
                let cmd = trim_end_text(line.as_str());
                let mut r: Vec<SmtpEffect> = Vec::new();
                r.push(SmtpEffect::Log(cat2("SMTP recv: ", cmd.as_str())));
                assert(effects(r@) =~= seq![SmtpEffectView::Log("SMTP recv: "@ + cmd@)]);
                let mut then = if self.in_data {
                    self.data_line(cmd.as_str())
                } else {
                    self.command_line(cmd.as_str())
                };
                let ghost first = r@;
                let ghost second = then@;
                r.append(&mut then);
                assert(effects(r@) =~= effects(first) + effects(second));
                r
            },
            SmtpEvent::Closed => close_with(copy_text("SMTP: client disconnected")),
            SmtpEvent::Failed(e) => close_with(cat2("SMTP read error: ", e.as_str())),
        }
    }
}

// ---------------------------------------------------------------------------
// The server
// ---------------------------------------------------------------------------

/// The server, on its port of every address of the machine.
pub struct SmtpServer {
    pub port: u16,
}

/// What happens to the server.
pub enum ServerEvent {
    BindFailed(String),
    /// The address that it listens on could not be told.
    AddressFailed(String),
    Listening(String),
    Connected(String),
    AcceptFailed(String),
    ClientFailed { peer: String, error: String },
}

/// What the server does then.
pub enum ServerStep {
    /// It stops before it has begun.
    Stop(String),
    /// It logs, and goes on.
    Log(String),
    /// It logs, and goes on after a pause of so many seconds.
    LogAndPause(String, u64),
}

/// Where the server listens.
pub open spec fn listen_address(port: u16) -> Seq<char> {
    "0.0.0.0:"@ + decimal(port as nat)
}

/// What the server does on an event.
pub open spec fn serves(port: u16, event: ServerEvent, step: ServerStep) -> bool {
    match event {
        ServerEvent::BindFailed(e) => step matches ServerStep::Stop(s) && s@
            == "Failed to bind SMTP to "@ + listen_address(port) + ": "@ + e@,
        ServerEvent::AddressFailed(e) => step matches ServerStep::Stop(s) && s@ == e@,
        ServerEvent::Listening(address) => step matches ServerStep::Log(s) && s@
            == "SMTP server listening on "@ + address@ + " (port "@ + decimal(port as nat) + ")"@,
        ServerEvent::Connected(peer) => step matches ServerStep::Log(s) && s@
            == "SMTP client connected from "@ + peer@,
        ServerEvent::AcceptFailed(e) => step matches ServerStep::LogAndPause(s, secs) && s@
            == "SMTP accept error: "@ + e@ && secs == 1,
        ServerEvent::ClientFailed { peer, error } => step matches ServerStep::Log(s) && s@
            == "SMTP client "@ + peer@ + " error: "@ + error@,
    }
}

impl SmtpServer {
    pub fn new(port: u16) -> (r: Self)
        ensures
            r.port == port,
    {
        SmtpServer { port }
    }

    /// Where the server listens.
    pub fn listen_address(&self) -> (r: String)
        ensures
            r@ == listen_address(self.port),
    {
        let digits = decimal_text(self.port as u64);
        cat2("0.0.0.0:", digits.as_str())
    }

    /// What the server does on an event.
    pub fn run(&self, event: ServerEvent) -> (r: ServerStep)
        ensures
            serves(self.port, event, r),
    {
        match event {
            ServerEvent::BindFailed(e) => {
                let address = self.listen_address();
                ServerStep::Stop(
                    cat4("Failed to bind SMTP to ", address.as_str(), ": ", e.as_str()),
                )
            },
            ServerEvent::AddressFailed(e) => ServerStep::Stop(e),
            ServerEvent::Listening(address) => {
                let digits = decimal_text(self.port as u64);
                ServerStep::Log(
                    cat5(
                        "SMTP server listening on ",
                        address.as_str(),
                        " (port ",
                        digits.as_str(),
                        ")",
                    ),
                )
            },
            ServerEvent::Connected(peer) => ServerStep::Log(
                cat2("SMTP client connected from ", peer.as_str()),
            ),
            ServerEvent::AcceptFailed(e) => ServerStep::LogAndPause(
                cat2("SMTP accept error: ", e.as_str()),
                1,
            ),
            ServerEvent::ClientFailed { peer, error } => ServerStep::Log(
                cat4("SMTP client ", peer.as_str(), " error: ", error.as_str()),
            ),
        }
    }
}

// ---------------------------------------------------------------------------
// Laws
// ---------------------------------------------------------------------------

/// Where a session stands after a number of events.
pub open spec fn session_after(state: SessionView, events: Seq<SmtpEventView>) -> SessionView
    decreases events.len(),
{
    if events.len() == 0 {
        state
    } else {
        session_step(session_after(state, events.drop_last()), events.last()).0
    }
}

/// A client sends a message only after it has said hello: in whatever order the
/// lines of a session come, the server takes no message before.
pub proof fn law_greeting_comes_first(events: Seq<SmtpEventView>)
    ensures
        ({
            let state = session_after(new_session(), events);
            state.in_data ==> state.helo_received
        }),
    decreases events.len(),
{
    if events.len() > 0 {
        law_greeting_comes_first(events.drop_last());
    }
}

/// Nothing of a message is left when it has been delivered: between two messages
/// the server holds no data, so the next one starts empty.
pub proof fn law_messages_start_empty(events: Seq<SmtpEventView>)
    ensures
        ({
            let state = session_after(new_session(), events);
            !state.in_data ==> state.email_data.len() == 0
        }),
    decreases events.len(),
{
    if events.len() > 0 {
        law_messages_start_empty(events.drop_last());
    }
}

/// The lines of a message as the server keeps them: trimmed at the end, with a
/// doubled dot made single again, and each with a line feed.
pub open spec fn collected(lines: Seq<Seq<char>>) -> Seq<char>
    decreases lines.len(),
{
    if lines.len() == 0 {
        Seq::empty()
    } else {
        collected(lines.drop_last()) + unstuffed(trim_end(lines.last())) + seq!['\n']
    }
}

/// The events that bring lines.
pub open spec fn line_events(lines: Seq<Seq<char>>) -> Seq<SmtpEventView> {
    Seq::new(lines.len(), |i: int| SmtpEventView::Line(lines[i]))
}

proof fn lemma_lines_are_collected(state: SessionView, lines: Seq<Seq<char>>)
    requires
        state.in_data,
        forall|i: int| 0 <= i < lines.len() ==> trim_end(#[trigger] lines[i]) != "."@,
    ensures
        session_after(state, line_events(lines)) == (SessionView {
            email_data: state.email_data + collected(lines),
            ..state
        }),
    decreases lines.len(),
{
    if lines.len() == 0 {
        assert(state.email_data + collected(lines) =~= state.email_data);
    } else {
        let front = lines.drop_last();
        lemma_lines_are_collected(state, front);
        assert(line_events(lines).drop_last() =~= line_events(front));
        assert(lines.last() == lines[lines.len() - 1]);
        assert(state.email_data + collected(front) + unstuffed(trim_end(lines.last())) + seq!['\n']
            =~= state.email_data + collected(lines));
    }
}

/// Every line up to the first lone dot belongs to the message, and the dot
/// delivers it: the server hands on what the lines say together, and is ready for
/// the next message.
pub proof fn law_message_is_delivered_whole(
    state: SessionView,
    lines: Seq<Seq<char>>,
    dot: Seq<char>,
)
    requires
        state.in_data,
        state.email_data.len() == 0,
        forall|i: int| 0 <= i < lines.len() ==> trim_end(#[trigger] lines[i]) != "."@,
        trim_end(dot) == "."@,
    ensures
        ({
            let (next, effects) = session_step(
                session_after(state, line_events(lines)),
                SmtpEventView::Line(dot),
            );
            &&& effects.contains(SmtpEffectView::Deliver(email_of(collected(lines))))
            &&& next == SessionView { in_data: false, ..state }
        }),
{
    lemma_lines_are_collected(state, lines);
    let before = session_after(state, line_events(lines));
    assert(before.email_data =~= collected(lines));
    let (next, effects) = session_step(before, SmtpEventView::Line(dot));
    assert(effects[2] == SmtpEffectView::Deliver(email_of(collected(lines))));
    assert(next.email_data =~= state.email_data);
}

/// After a reset nothing is left of the message or of its sender.
pub proof fn law_reset_forgets(state: SessionView, line: Seq<char>)
    requires
        !state.in_data,
        is_command(trim_end(line), "RSET"@),
    ensures
        session_step(state, SmtpEventView::Line(line)).0 == (SessionView {
            helo_received: state.helo_received,
            ..new_session()
        }),
{
    let cmd = trim_end(line);
    reveal_strlit("RSET");
    reveal_strlit("HELO");
    reveal_strlit("EHLO");
    reveal_strlit("MAIL FROM:");
    reveal_strlit("RCPT TO:");
    reveal_strlit("DATA");
    reveal_strlit("QUIT");
    assert(uppers_to(cmd[0], 'R'));
    assert(uppers_to(cmd[1], 'S'));
    assert(begins_command(cmd, "HELO"@) ==> uppers_to(cmd[0], 'H'));
    assert(begins_command(cmd, "EHLO"@) ==> uppers_to(cmd[0], 'E'));
    assert(begins_command(cmd, "RCPT TO:"@) ==> uppers_to(cmd[1], 'C'));
    assert(is_command(cmd, "DATA"@) ==> uppers_to(cmd[0], 'D'));
    assert(is_command(cmd, "QUIT"@) ==> uppers_to(cmd[0], 'Q'));
}

/// A blank at the end of a text makes no difference to what is trimmed.
proof fn lemma_trim_blank(s: Seq<char>, c: char)
    requires
        is_space(c),
    ensures
        trim(s.push(c)) == trim(s),
{
    lemma_trim_start_blank(s, c);
    if trim_start(s).len() > 0 {
        assert(trim_start(s).push(c).drop_last() =~= trim_start(s));
    }
}

proof fn lemma_trim_start_blank(s: Seq<char>, c: char)
    requires
        is_space(c),
    ensures
        trim_start(s.push(c)) == if trim_start(s).len() == 0 {
            Seq::<char>::empty()
        } else {
            trim_start(s).push(c)
        },
        trim_start(s).len() == 0 ==> trim_start(s) == Seq::<char>::empty(),
    decreases s.len(),
{
    if s.len() == 0 {
        assert(s.push(c).skip(1) =~= Seq::<char>::empty());
        assert(trim_start(s.push(c)) == trim_start(Seq::<char>::empty()));
        assert(s =~= Seq::<char>::empty());
    } else if is_space(s[0]) {
        assert(s.push(c).skip(1) =~= s.skip(1).push(c));
        lemma_trim_start_blank(s.skip(1), c);
    }
}

/// A carriage return at the end of a header line makes no difference to what the
/// line says.
proof fn lemma_header_line(line: Seq<char>)
    ensures
        ({
            let plain = strip_return(line);
            &&& is_from(plain) == is_from(line)
            &&& is_subject(plain) == is_subject(line)
            &&& is_from(line) ==> angle_addr(plain.skip(5)) == angle_addr(line.skip(5))
                && brackets_in_order(plain.skip(5)) == brackets_in_order(line.skip(5))
            &&& is_subject(line) ==> trim(plain.skip(8)) == trim(line.skip(8))
        }),
{
    reveal_strlit("from:");
    reveal_strlit("subject:");
    let plain = strip_return(line);
    if plain != line {
        assert(line =~= plain.push('\r'));
        if is_from(line) {
            assert(folds_to(line[4], "from:"@[4]));
            assert forall|i: int| 0 <= i < 5 implies folds_to(#[trigger] plain[i], "from:"@[i]) by {
                assert(plain[i] == line[i]);
            }
            assert(line.skip(5) =~= plain.skip(5).push('\r'));
            lemma_trim_blank(plain.skip(5), '\r');
        }
        if is_from(plain) {
            assert forall|i: int| 0 <= i < 5 implies folds_to(#[trigger] line[i], "from:"@[i]) by {
                assert(plain[i] == line[i]);
            }
        }
        if starts_with_folded(line, "subject:"@) {
            assert(folds_to(line[7], "subject:"@[7]));
            assert forall|i: int| 0 <= i < 8 implies folds_to(
                #[trigger] plain[i],
                "subject:"@[i],
            ) by {
                assert(plain[i] == line[i]);
            }
            assert(line.skip(8) =~= plain.skip(8).push('\r'));
            lemma_trim_blank(plain.skip(8), '\r');
        }
        if starts_with_folded(plain, "subject:"@) {
            assert forall|i: int| 0 <= i < 8 implies folds_to(
                #[trigger] line[i],
                "subject:"@[i],
            ) by {
                assert(plain[i] == line[i]);
            }
        }
    }
}

/// A line feed behind the last line only ends it.
proof fn lemma_lines_ended(s: Seq<char>)
    requires
        s.len() > 0,
        s.last() != '\n',
    ensures
        lines(s).len() > 0,
        lines(s.push('\n')) == lines(s).drop_last().push(strip_return(lines(s).last())),
    decreases s.len(),
{
    let ended = s.push('\n');
    lemma_find_char(s, '\n');
    lemma_find_char(ended, '\n');
    match find_char(s, '\n') {
        None => {
            assert(ended[s.len() as int] == '\n');
            assert(find_char(ended, '\n') == Some(s.len() as int)) by {
                let i = find_char(ended, '\n')->0;
                if i < s.len() {
                    assert(s[i] == ended[i]);
                }
            }
            assert(ended.take(s.len() as int) =~= s);
            assert(ended.skip(s.len() as int + 1) =~= Seq::<char>::empty());
            assert(lines(Seq::<char>::empty()) =~= Seq::<Seq<char>>::empty());
            assert(lines(ended) =~= seq![strip_return(s)]);
            assert(lines(s) =~= seq![s]);
            assert(lines(s).drop_last().push(strip_return(s)) =~= seq![strip_return(s)]);
        },
        Some(i) => {
            assert(ended[i] == s[i]);
            assert(find_char(ended, '\n') == Some(i)) by {
                let k = find_char(ended, '\n')->0;
                if k < i {
                    assert(s[k] == ended[k]);
                }
            }
            assert(ended.take(i) =~= s.take(i));
            let rest = s.skip(i + 1);
            assert(ended.skip(i + 1) =~= rest.push('\n'));
            lemma_lines_ended(rest);
            let first = seq![strip_return(s.take(i))];
            assert(first + lines(rest).drop_last().push(strip_return(lines(rest).last())) =~= (first
                + lines(rest)).drop_last().push(strip_return((first + lines(rest)).last())));
        },
    }
}

/// A line feed behind the headers makes no difference to what they say.
proof fn lemma_headers_ended(s: Seq<char>)
    requires
        s.len() == 0 || s.last() != '\n',
    ensures
        header_from(lines(s.push('\n'))) == header_from(lines(s)),
        header_subject(lines(s.push('\n'))) == header_subject(lines(s)),
        senders_readable(lines(s.push('\n'))) == senders_readable(lines(s)),
{
    let ended = lines(s.push('\n'));
    let all = lines(s);
    reveal_strlit("from:");
    reveal_strlit("subject:");
    if s.len() == 0 {
        lemma_find_char(s.push('\n'), '\n');
        assert(s.push('\n')[0] == '\n');
        assert(find_char(s.push('\n'), '\n') == Some(0int));
        assert(s.push('\n').take(0) =~= Seq::<char>::empty());
        assert(s.push('\n').skip(1) =~= Seq::<char>::empty());
        assert(lines(Seq::<char>::empty()) =~= Seq::<Seq<char>>::empty());
        assert(ended =~= seq![Seq::<char>::empty()]);
        assert(ended.drop_last() =~= all);
        assert(!is_from(ended[0]));
    } else {
        lemma_lines_ended(s);
        let line = all.last();
        lemma_header_line(line);
        assert(ended.drop_last() =~= all.drop_last());
        assert(ended.last() == strip_return(line));
        let k = all.len() - 1;
        assert forall|i: int| 0 <= i < k implies #[trigger] ended[i] == all[i] by {
            assert(ended.drop_last()[i] == all.drop_last()[i]);
        }
        assert(ended[k] == strip_return(all[k]));
        if senders_readable(all) {
            assert forall|i: int| 0 <= i < ended.len() && is_from(#[trigger] ended[i]) implies
                brackets_in_order(ended[i].skip(5)) by {
                assert(is_from(all[i]));
            }
        }
        if senders_readable(ended) {
            assert forall|i: int| 0 <= i < all.len() && is_from(#[trigger] all[i]) implies
                brackets_in_order(all[i].skip(5)) by {
                assert(is_from(ended[i]));
            }
        }
    }
}

/// The sender and the subject of a message stand before its first empty line,
/// whatever follows; what follows, trimmed, is the body.
pub proof fn law_headers_end_at_the_first_empty_line(head: Seq<char>, body: Seq<char>)
    requires
        !contains(head, "\n\n"@),
    ensures
        ({
            let whole = head + "\n\n"@ + body;
            &&& email_of(whole) == EmailView { body: trim(body), ..email_of(head) }
            &&& email_of(head).body.len() == 0
            &&& email_readable(whole) == email_readable(head)
        }),
{
    let gap = "\n\n"@;
    let whole = head + gap + body;
    reveal_strlit("\n\n");
    lemma_find_from(whole, gap, 0);
    lemma_find_from(head, gap, 0);
    assert(find(head, gap) is None);
    let n = head.len() as int;
    let ends = n > 0 && head.last() == '\n';
    let at = if ends {
        n - 1
    } else {
        n
    };
    assert(occurs_at(whole, gap, at)) by {
        assert(whole.subrange(at, at + 2) =~= gap);
    }
    assert(find(whole, gap) == Some(at)) by {
        let i = find(whole, gap)->0;
        if i < at {
            assert(whole.subrange(i, i + 2) == gap);
            assert(whole.subrange(i, i + 2)[0] == '\n' && whole.subrange(i, i + 2)[1] == '\n');
            assert(whole[i] == '\n' && whole[i + 1] == '\n');
            if i + 1 < n {
                assert(head.subrange(i, i + 2) =~= gap);
                assert(occurs_at(head, gap, i));
            }
        }
    }
    assert(trim(Seq::<char>::empty()) =~= Seq::<char>::empty());
    if ends {
        let front = head.drop_last();
        assert(whole.take(at) =~= front);
        assert(head =~= front.push('\n'));
        let rest = whole.skip(at + 2);
        assert(rest =~= seq!['\n'] + body);
        assert(rest.skip(1) =~= body);
        assert(is_space('\n'));
        assert(trim(rest) == trim(body));
        if front.len() > 0 && front.last() == '\n' {
            assert(head.subrange(n - 2, n) =~= gap);
            assert(occurs_at(head, gap, n - 2));
        }
        lemma_headers_ended(front);
    } else {
        assert(whole.take(at) =~= head);
        assert(whole.skip(at + 2) =~= body);
    }
}

// ---------------------------------------------------------------------------
// What lines do
// ---------------------------------------------------------------------------

/// Whether a text is a word, its letters in upper or lower case.
pub open spec fn is_word(written: Seq<char>, word: Seq<char>) -> bool {
    &&& written.len() == word.len()
    &&& forall|i: int|
        0 <= i < word.len() ==> (#[trigger] written[i] == word[i] || ('A' as int <= word[i] as int
            <= 'Z' as int && written[i] as int == word[i] as int + 32) || ('a' as int
            <= word[i] as int <= 'z' as int && written[i] as int == word[i] as int - 32))
}

/// Whether a line brings a command, with blanks behind it.
pub open spec fn brings(line: Seq<char>, cmd: Seq<char>) -> bool {
    &&& cmd.len() <= line.len()
    &&& line.take(cmd.len() as int) == cmd
    &&& cmd.len() > 0 ==> !is_space(cmd.last())
    &&& forall|i: int| cmd.len() <= i < line.len() ==> is_space(#[trigger] line[i])
}

/// What a line brings is the line without the blanks behind it.
proof fn lemma_brings(line: Seq<char>, cmd: Seq<char>)
    requires
        brings(line, cmd),
    ensures
        trim_end(line) == cmd,
{
    let pad = line.skip(cmd.len() as int);
    assert(line =~= line.take(cmd.len() as int) + pad);
    assert forall|i: int| 0 <= i < pad.len() implies is_space(#[trigger] pad[i]) by {
        assert(pad[i] == line[cmd.len() + i]);
    }
    law_blanks_behind_do_not_count(cmd, pad);
}

/// A line that begins with a word begins the command.
proof fn lemma_word_begins(word: Seq<char>, rest: Seq<char>, command: Seq<char>)
    requires
        is_word(word, command),
        forall|i: int|
            0 <= i < command.len() ==> !('a' as int <= #[trigger] command[i] as int <= 'z' as int),
    ensures
        begins_command(word + rest, command),
        rest.len() == 0 ==> is_command(word + rest, command),
{
    assert forall|i: int| 0 <= i < command.len() implies uppers_to(
        #[trigger] (word + rest)[i],
        command[i],
    ) by {
        assert((word + rest)[i] == word[i]);
    }
}

/// A greeting, in whatever case, is answered, and the session knows that it came.
pub proof fn law_greetings_are_answered(
    state: SessionView,
    line: Seq<char>,
    word: Seq<char>,
    rest: Seq<char>,
)
    requires
        !state.in_data,
        is_word(word, "HELO"@) || is_word(word, "EHLO"@),
        brings(line, word + rest),
    ensures
        session_step(state, SmtpEventView::Line(line)) == (
            SessionView { helo_received: true, ..state },
            seq![
                SmtpEffectView::Log("SMTP recv: "@ + (word + rest)),
                SmtpEffectView::Reply("250 Hello\r\n"@),
            ],
        ),
{
    lemma_brings(line, word + rest);
    reveal_strlit("HELO");
    reveal_strlit("EHLO");
    if is_word(word, "HELO"@) {
        lemma_word_begins(word, rest, "HELO"@);
    } else {
        lemma_word_begins(word, rest, "EHLO"@);
    }
    assert(session_step(state, SmtpEventView::Line(line)).1 =~= seq![
        SmtpEffectView::Log("SMTP recv: "@ + (word + rest)),
        SmtpEffectView::Reply("250 Hello\r\n"@),
    ]);
}

/// A sender, whatever the case of the words before it, is taken down and answered.
pub proof fn law_senders_are_taken_down(
    state: SessionView,
    line: Seq<char>,
    word: Seq<char>,
    rest: Seq<char>,
)
    requires
        !state.in_data,
        is_word(word, "MAIL FROM:"@),
        brings(line, word + rest),
    ensures
        session_step(state, SmtpEventView::Line(line)) == (
            SessionView { from: angle_addr(rest), ..state },
            seq![
                SmtpEffectView::Log("SMTP recv: "@ + (word + rest)),
                SmtpEffectView::Reply("250 OK\r\n"@),
            ],
        ),
{
    let cmd = word + rest;
    lemma_brings(line, cmd);
    reveal_strlit("HELO");
    reveal_strlit("EHLO");
    reveal_strlit("MAIL FROM:");
    lemma_word_begins(word, rest, "MAIL FROM:"@);
    assert(cmd[0] == word[0] && cmd[2] == word[2]);
    assert(begins_command(cmd, "HELO"@) ==> uppers_to(cmd[0], 'H'));
    assert(begins_command(cmd, "EHLO"@) ==> uppers_to(cmd[0], 'E'));
    assert(cmd.skip(10) =~= rest);
    assert(session_step(state, SmtpEventView::Line(line)).1 =~= seq![
        SmtpEffectView::Log("SMTP recv: "@ + (word + rest)),
        SmtpEffectView::Reply("250 OK\r\n"@),
    ]);
}

/// A receiver, whatever the case of the words before it, is answered and not taken down.
pub proof fn law_receivers_are_answered(
    state: SessionView,
    line: Seq<char>,
    word: Seq<char>,
    rest: Seq<char>,
)
    requires
        !state.in_data,
        is_word(word, "RCPT TO:"@),
        brings(line, word + rest),
    ensures
        session_step(state, SmtpEventView::Line(line)) == (
            state,
            seq![
                SmtpEffectView::Log("SMTP recv: "@ + (word + rest)),
                SmtpEffectView::Reply("250 OK\r\n"@),
            ],
        ),
{
    let cmd = word + rest;
    lemma_brings(line, cmd);
    reveal_strlit("HELO");
    reveal_strlit("EHLO");
    reveal_strlit("MAIL FROM:");
    reveal_strlit("RCPT TO:");
    lemma_word_begins(word, rest, "RCPT TO:"@);
    assert(cmd[0] == word[0]);
    assert(begins_command(cmd, "HELO"@) ==> uppers_to(cmd[0], 'H'));
    assert(begins_command(cmd, "EHLO"@) ==> uppers_to(cmd[0], 'E'));
    assert(begins_command(cmd, "MAIL FROM:"@) ==> uppers_to(cmd[0], 'M'));
    assert(session_step(state, SmtpEventView::Line(line)).1 =~= seq![
        SmtpEffectView::Log("SMTP recv: "@ + (word + rest)),
        SmtpEffectView::Reply("250 OK\r\n"@),
    ]);
}

/// A message may come if and only if a greeting came before it.
pub proof fn law_data_need_a_greeting(state: SessionView, line: Seq<char>, word: Seq<char>)
    requires
        !state.in_data,
        is_word(word, "DATA"@),
        brings(line, word),
    ensures
        state.helo_received ==> session_step(state, SmtpEventView::Line(line)) == (
            SessionView { in_data: true, ..state },
            seq![
                SmtpEffectView::Log("SMTP recv: "@ + word),
                SmtpEffectView::Reply("354 End data with .\r\n"@),
            ],
        ),
        !state.helo_received ==> session_step(state, SmtpEventView::Line(line)) == (
            state,
            seq![
                SmtpEffectView::Log("SMTP recv: "@ + word),
                SmtpEffectView::Reply("503 Send HELO/EHLO first\r\n"@),
            ],
        ),
{
    lemma_brings(line, word);
    reveal_strlit("HELO");
    reveal_strlit("EHLO");
    reveal_strlit("MAIL FROM:");
    reveal_strlit("RCPT TO:");
    reveal_strlit("DATA");
    lemma_word_begins(word, Seq::empty(), "DATA"@);
    assert(word + Seq::<char>::empty() =~= word);
    assert(begins_command(word, "HELO"@) ==> uppers_to(word[0], 'H'));
    assert(begins_command(word, "EHLO"@) ==> uppers_to(word[0], 'E'));
    assert(word[0] == 'D' || word[0] == 'd');
    if state.helo_received {
        assert(session_step(state, SmtpEventView::Line(line)).1 =~= seq![
            SmtpEffectView::Log("SMTP recv: "@ + word),
            SmtpEffectView::Reply("354 End data with .\r\n"@),
        ]);
    } else {
        assert(session_step(state, SmtpEventView::Line(line)).1 =~= seq![
            SmtpEffectView::Log("SMTP recv: "@ + word),
            SmtpEffectView::Reply("503 Send HELO/EHLO first\r\n"@),
        ]);
    }
}

/// The words that end a session, forget a message and do nothing do that, in whatever
/// case.
pub proof fn law_short_commands_are_obeyed(state: SessionView, line: Seq<char>, word: Seq<char>)
    requires
        !state.in_data,
        is_word(word, "QUIT"@) || is_word(word, "RSET"@) || is_word(word, "NOOP"@),
        brings(line, word),
    ensures
        is_word(word, "QUIT"@) ==> session_step(state, SmtpEventView::Line(line)) == (
            state,
            seq![
                SmtpEffectView::Log("SMTP recv: "@ + word),
                SmtpEffectView::Reply("221 Bye\r\n"@),
                SmtpEffectView::Log("SMTP: client QUIT"@),
                SmtpEffectView::Close,
            ],
        ),
        is_word(word, "RSET"@) ==> session_step(state, SmtpEventView::Line(line)) == (
            SessionView {
                from: Seq::empty(),
                in_data: false,
                email_data: Seq::empty(),
                helo_received: state.helo_received,
            },
            seq![
                SmtpEffectView::Log("SMTP recv: "@ + word),
                SmtpEffectView::Reply("250 OK\r\n"@),
            ],
        ),
        is_word(word, "NOOP"@) ==> session_step(state, SmtpEventView::Line(line)) == (
            state,
            seq![
                SmtpEffectView::Log("SMTP recv: "@ + word),
                SmtpEffectView::Reply("250 OK\r\n"@),
            ],
        ),
{
    lemma_brings(line, word);
    reveal_strlit("HELO");
    reveal_strlit("EHLO");
    reveal_strlit("MAIL FROM:");
    reveal_strlit("RCPT TO:");
    reveal_strlit("DATA");
    reveal_strlit("QUIT");
    reveal_strlit("RSET");
    reveal_strlit("NOOP");
    assert(word + Seq::<char>::empty() =~= word);
    assert(begins_command(word, "HELO"@) ==> uppers_to(word[0], 'H'));
    assert(begins_command(word, "EHLO"@) ==> uppers_to(word[0], 'E'));
    assert(is_command(word, "DATA"@) ==> uppers_to(word[0], 'D'));
    assert(is_command(word, "QUIT"@) ==> uppers_to(word[0], 'Q'));
    assert(is_command(word, "RSET"@) ==> uppers_to(word[0], 'R'));
    if is_word(word, "QUIT"@) {
        lemma_word_begins(word, Seq::empty(), "QUIT"@);
        assert(word[0] == 'Q' || word[0] == 'q');
        assert(session_step(state, SmtpEventView::Line(line)).1 =~= seq![
            SmtpEffectView::Log("SMTP recv: "@ + word),
            SmtpEffectView::Reply("221 Bye\r\n"@),
            SmtpEffectView::Log("SMTP: client QUIT"@),
            SmtpEffectView::Close,
        ]);
    }
    if is_word(word, "RSET"@) {
        lemma_word_begins(word, Seq::empty(), "RSET"@);
        assert(word[0] == 'R' || word[0] == 'r');
        assert(session_step(state, SmtpEventView::Line(line)).1 =~= seq![
            SmtpEffectView::Log("SMTP recv: "@ + word),
            SmtpEffectView::Reply("250 OK\r\n"@),
        ]);
    }
    if is_word(word, "NOOP"@) {
        lemma_word_begins(word, Seq::empty(), "NOOP"@);
        assert(word[0] == 'N' || word[0] == 'n');
        assert(session_step(state, SmtpEventView::Line(line)).1 =~= seq![
            SmtpEffectView::Log("SMTP recv: "@ + word),
            SmtpEffectView::Reply("250 OK\r\n"@),
        ]);
    }
}

/// A line that begins with no letter of a command is refused, and an empty one is passed
/// over; neither changes the session.
pub proof fn law_other_lines_are_refused(state: SessionView, line: Seq<char>, cmd: Seq<char>)
    requires
        !state.in_data,
        brings(line, cmd),
        cmd.len() > 0 ==> (cmd[0] as int) < 128 && !(cmd[0] == 'H' || cmd[0] == 'h' || cmd[0] == 'E'
            || cmd[0] == 'e' || cmd[0] == 'M' || cmd[0] == 'm' || cmd[0] == 'R' || cmd[0] == 'r'
            || cmd[0] == 'D' || cmd[0] == 'd' || cmd[0] == 'Q' || cmd[0] == 'q' || cmd[0] == 'N'
            || cmd[0] == 'n'),
    ensures
        session_step(state, SmtpEventView::Line(line)).0 == state,
        cmd.len() > 0 ==> session_step(state, SmtpEventView::Line(line)).1 == seq![
            SmtpEffectView::Log("SMTP recv: "@ + cmd),
            SmtpEffectView::Reply("500 Command not recognized\r\n"@),
        ],
        cmd.len() == 0 ==> session_step(state, SmtpEventView::Line(line)).1 == seq![
            SmtpEffectView::Log("SMTP recv: "@ + cmd),
        ],
{
    lemma_brings(line, cmd);
    reveal_strlit("HELO");
    reveal_strlit("EHLO");
    reveal_strlit("MAIL FROM:");
    reveal_strlit("RCPT TO:");
    reveal_strlit("DATA");
    reveal_strlit("QUIT");
    reveal_strlit("RSET");
    reveal_strlit("NOOP");
    if cmd.len() > 0 {
        assert(begins_command(cmd, "HELO"@) ==> uppers_to(cmd[0], 'H'));
        assert(begins_command(cmd, "EHLO"@) ==> uppers_to(cmd[0], 'E'));
        assert(begins_command(cmd, "MAIL FROM:"@) ==> uppers_to(cmd[0], 'M'));
        assert(begins_command(cmd, "RCPT TO:"@) ==> uppers_to(cmd[0], 'R'));
        assert(is_command(cmd, "DATA"@) ==> uppers_to(cmd[0], 'D'));
        assert(is_command(cmd, "QUIT"@) ==> uppers_to(cmd[0], 'Q'));
        assert(is_command(cmd, "RSET"@) ==> uppers_to(cmd[0], 'R'));
        assert(is_command(cmd, "NOOP"@) ==> uppers_to(cmd[0], 'N'));
        assert(session_step(state, SmtpEventView::Line(line)).1 =~= seq![
            SmtpEffectView::Log("SMTP recv: "@ + cmd),
            SmtpEffectView::Reply("500 Command not recognized\r\n"@),
        ]);
    } else {
        assert(session_step(state, SmtpEventView::Line(line)).1 =~= seq![
            SmtpEffectView::Log("SMTP recv: "@ + cmd),
        ]);
    }
}

/// While a message comes, a line is taken down with a line feed behind it and without a
/// reply. A dot that the client put before a dot at its start is taken off.
pub proof fn law_lines_of_a_message_are_taken_down(
    state: SessionView,
    line: Seq<char>,
    cmd: Seq<char>,
)
    requires
        state.in_data,
        brings(line, cmd),
        cmd != seq!['.'],
    ensures
        ({
            let (next, effects) = session_step(state, SmtpEventView::Line(line));
            let kept = if cmd.len() >= 2 && cmd[0] == '.' && cmd[1] == '.' {
                cmd.skip(1)
            } else {
                cmd
            };
            &&& next == (SessionView {
                email_data: state.email_data + kept + seq!['\n'],
                ..state
            })
            &&& effects == seq![SmtpEffectView::Log("SMTP recv: "@ + cmd)]
        }),
{
    lemma_brings(line, cmd);
    reveal_strlit(".");
    reveal_strlit("..");
    assert("."@ =~= seq!['.']);
    if starts_with(cmd, ".."@) {
        assert(cmd.subrange(0, 2)[0] == '.' && cmd.subrange(0, 2)[1] == '.');
    } else if cmd.len() >= 2 && cmd[0] == '.' && cmd[1] == '.' {
        assert(cmd.subrange(0, 2) =~= ".."@);
    }
    assert(session_step(state, SmtpEventView::Line(line)).1 =~= seq![
        SmtpEffectView::Log("SMTP recv: "@ + cmd),
    ]);
}

/// A line that is a dot ends a message: what was taken down is read as a message and
/// delivered, the client gets its word, and the session is ready for the next one.
pub proof fn law_a_dot_ends_a_message(state: SessionView, line: Seq<char>)
    requires
        state.in_data,
        brings(line, seq!['.']),
    ensures
        ({
            let (next, effects) = session_step(state, SmtpEventView::Line(line));
            let email = email_of(state.email_data);
            &&& next == (SessionView { in_data: false, email_data: Seq::empty(), ..state })
            &&& effects.len() == 4
            &&& effects[1] == SmtpEffectView::Log(
                "SMTP: received email from='"@ + email.from + "' subject='"@ + email.subject
                    + "' body_len="@ + decimal(encode_utf8(email.body).len()),
            )
            &&& effects[2] == SmtpEffectView::Deliver(email)
            &&& effects[3] == SmtpEffectView::Reply("250 OK Message accepted\r\n"@)
        }),
{
    lemma_brings(line, seq!['.']);
    reveal_strlit(".");
    assert("."@ =~= seq!['.']);
}

/// A connection that is closed or fails ends the session, and the log says why.
pub proof fn law_lost_connections_end(state: SessionView, e: Seq<char>)
    ensures
        session_step(state, SmtpEventView::Closed) == (
            state,
            seq![SmtpEffectView::Log("SMTP: client disconnected"@), SmtpEffectView::Close],
        ),
        session_step(state, SmtpEventView::Failed(e)) == (
            state,
            seq![SmtpEffectView::Log("SMTP read error: "@ + e), SmtpEffectView::Close],
        ),
{
}

/// A session begins without a sender, a message or a greeting.
pub proof fn law_sessions_begin_empty()
    ensures
        new_session().from.len() == 0,
        new_session().email_data.len() == 0,
        !new_session().in_data,
        !new_session().helo_received,
{
}

/// An address stands between angle brackets, whatever stands around them; a text without
/// such brackets is the address itself, without the blanks around it.
pub proof fn law_addresses_stand_in_brackets(
    before: Seq<char>,
    address: Seq<char>,
    behind: Seq<char>,
    plain: Seq<char>,
)
    requires
        forall|i: int| 0 <= i < before.len() ==> #[trigger] before[i] != '<' && before[i] != '>',
        forall|i: int| 0 <= i < address.len() ==> #[trigger] address[i] != '>',
        (forall|i: int| 0 <= i < plain.len() ==> #[trigger] plain[i] != '<') || (forall|i: int|
            0 <= i < plain.len() ==> #[trigger] plain[i] != '>'),
    ensures
        angle_addr(before + seq!['<'] + address + seq!['>'] + behind) == address,
        brackets_in_order(before + seq!['<'] + address + seq!['>'] + behind),
        angle_addr(plain) == trim(plain),
        brackets_in_order(plain),
{
    let s = before + seq!['<'] + address + seq!['>'] + behind;
    let t = trim(s);
    let (a, b) = law_trim_takes_blanks(s);
    let open = before.len() as int;
    let close = open + 1 + address.len();
    assert(s[open] == '<' && s[close] == '>');
    assert(!is_space('<') && !is_space('>'));
    assert(a <= open && close < b);
    assert forall|i: int| 0 <= i < open implies #[trigger] s[i] != '<' && s[i] != '>' by {
        assert(s[i] == before[i]);
    }
    assert forall|i: int| open < i < close implies #[trigger] s[i] != '>' by {
        assert(s[i] == address[i - open - 1]);
    }
    lemma_find_char(t, '<');
    lemma_find_char(t, '>');
    assert(t[open - a] == s[open] && t[close - a] == s[close]);
    assert(find_char(t, '<') == Some(open - a)) by {
        let i = find_char(t, '<')->0;
        assert(t[i] == s[a + i]);
    }
    assert(find_char(t, '>') == Some(close - a)) by {
        let i = find_char(t, '>')->0;
        assert(t[i] == s[a + i]);
    }
    assert(t.subrange(open - a + 1, close - a) =~= address) by {
        assert forall|i: int| 0 <= i < address.len() implies t.subrange(open - a + 1, close - a)[i]
            == address[i] by {
            assert(t[open - a + 1 + i] == s[open + 1 + i]);
        }
    }
    let u = trim(plain);
    let (c, d) = law_trim_takes_blanks(plain);
    lemma_find_char(u, '<');
    lemma_find_char(u, '>');
    if let Some(i) = find_char(u, '<') {
        assert(u[i] == plain[c + i]);
    }
    if let Some(i) = find_char(u, '>') {
        assert(u[i] == plain[c + i]);
    }
}

/// Whether the headers of a message are these lines, one below the other.
pub open spec fn heads(head: Seq<char>, lines: Seq<Seq<char>>) -> bool {
    &&& lines.len() > 0
    &&& head == join(lines, seq!['\n'])
    &&& forall|k: int| 0 <= k < lines.len() ==> (#[trigger] lines[k]).len() > 0
    &&& forall|k: int, i: int|
        0 <= k < lines.len() && 0 <= i < lines[k].len() ==> #[trigger] lines[k][i] != '\n'
            && lines[k][i] != '\r'
}

/// Whether a line begins with a word, in whatever case.
pub open spec fn begins_word(line: Seq<char>, word: Seq<char>) -> bool {
    word.len() <= line.len() && is_word(line.take(word.len() as int), word)
}

/// A line begins with a word of lower-case letters and signs if and only if it starts with
/// it, letter case aside.
proof fn lemma_begins_word(line: Seq<char>, word: Seq<char>)
    requires
        forall|i: int| 0 <= i < word.len() ==> !('A' as int <= #[trigger] word[i] as int <= 'Z' as int),
    ensures
        begins_word(line, word) <==> starts_with_folded(line, word),
{
    if word.len() <= line.len() {
        let front = line.take(word.len() as int);
        if is_word(front, word) {
            assert forall|i: int| 0 <= i < word.len() implies folds_to(
                #[trigger] line[i],
                word[i],
            ) by {
                assert(front[i] == line[i]);
            }
        }
        if starts_with_folded(line, word) {
            assert forall|i: int| 0 <= i < word.len() implies (#[trigger] front[i] == word[i] || (
            'A' as int <= word[i] as int <= 'Z' as int && front[i] as int == word[i] as int + 32)
                || ('a' as int <= word[i] as int <= 'z' as int && front[i] as int == word[i] as int
                - 32)) by {
                assert(front[i] == line[i]);
                assert(folds_to(line[i], word[i]));
            }
        }
    }
}

/// The lines of the headers of a message are the lines.
proof fn lemma_heads(head: Seq<char>, written: Seq<Seq<char>>)
    requires
        heads(head, written),
    ensures
        lines(head) == written,
{
    law_lines_put_together_come_back(written);
    let found = lines(head);
    let n = written.len() as int;
    assert(written[n - 1].len() > 0);
    assert forall|k: int| 0 <= k < n implies #[trigger] found[k] == written[k] by {
        if written[k].len() > 0 {
            assert(written[k][written[k].len() - 1] != '\r');
        }
        if k == n - 1 {
            assert(found[k] == found.last());
        }
    }
    assert(found =~= written);
}

/// A text that begins with a character other than a line feed, put below a line, brings no
/// empty line if it holds none.
proof fn lemma_no_gap_below(first: Seq<char>, later: Seq<char>)
    requires
        forall|i: int| 0 <= i < first.len() ==> #[trigger] first[i] != '\n',
        later.len() > 0,
        later[0] != '\n',
        !contains(later, "\n\n"@),
    ensures
        !contains(first + seq!['\n'] + later, "\n\n"@),
{
    reveal_strlit("\n\n");
    let gap = "\n\n"@;
    let head = first + seq!['\n'] + later;
    let n = first.len() as int;
    if contains(head, gap) {
        let i = choose|i: int| occurs_at(head, gap, i);
        let part = head.subrange(i, i + 2);
        assert(part[0] == '\n' && part[1] == '\n');
        assert(head[i] == '\n' && head[i + 1] == '\n');
        if i < n {
            assert(head[i] == first[i]);
        } else if i == n {
            assert(head[n + 1] == later[0]);
        } else {
            assert(later[i - n - 1] == head[i] && later[i - n] == head[i + 1]);
            assert(later.subrange(i - n - 1, i - n + 1) =~= gap);
            assert(occurs_at(later, gap, i - n - 1));
        }
    }
}

/// A line holds no empty line.
proof fn lemma_no_gap_within(line: Seq<char>)
    requires
        forall|i: int| 0 <= i < line.len() ==> #[trigger] line[i] != '\n',
    ensures
        !contains(line, "\n\n"@),
{
    reveal_strlit("\n\n");
    if contains(line, "\n\n"@) {
        let i = choose|i: int| occurs_at(line, "\n\n"@, i);
        assert(line.subrange(i, i + 2)[0] == '\n');
        assert(line[i] == '\n');
    }
}

/// Lines below each other that are not empty hold no empty line.
proof fn lemma_no_gap(head: Seq<char>, written: Seq<Seq<char>>)
    requires
        heads(head, written),
    ensures
        !contains(head, "\n\n"@),
        head.len() > 0,
        head[0] != '\n',
    decreases written.len(),
{
    let line = written[0];
    assert(line.len() > 0);
    assert(line[0] != '\n') by {
        assert(written[0][0] != '\n');
    }
    assert forall|i: int| 0 <= i < line.len() implies #[trigger] line[i] != '\n' by {
        assert(written[0][i] != '\n');
    }
    if written.len() == 1 {
        assert(head == line);
        lemma_no_gap_within(line);
    } else {
        let first = seq![line];
        let rest = written.skip(1);
        assert(first + rest =~= written);
        law_join_puts_between(first, rest, seq!['\n']);
        let later = join(rest, seq!['\n']);
        assert(head == line + seq!['\n'] + later);
        assert(heads(later, rest)) by {
            assert forall|k: int| 0 <= k < rest.len() implies (#[trigger] rest[k]).len() > 0 by {
                assert(rest[k] == written[k + 1]);
            }
            assert forall|k: int, i: int|
                0 <= k < rest.len() && 0 <= i < rest[k].len() implies #[trigger] rest[k][i]
                != '\n' && rest[k][i] != '\r' by {
                assert(written[k + 1][i] != '\n');
            }
        }
        lemma_no_gap(later, rest);
        lemma_no_gap_below(line, later);
        assert(head[0] == line[0]);
    }
}

/// The sender of a message is the address in the last of its header lines that begins
/// with `from:`, in whatever case; without such a line it is empty.
pub proof fn law_the_sender_is_told(
    head: Seq<char>,
    lines: Seq<Seq<char>>,
    body: Seq<char>,
    i: int,
    word: Seq<char>,
    value: Seq<char>,
)
    requires
        heads(head, lines),
        0 <= i < lines.len() ==> lines[i] == word + value && is_word(word, "from:"@),
        -1 <= i < lines.len(),
        forall|j: int| i < j < lines.len() ==> !begins_word(#[trigger] lines[j], "from:"@),
    ensures
        i >= 0 ==> email_of(head + "\n\n"@ + body).from == angle_addr(value),
        i < 0 ==> email_of(head + "\n\n"@ + body).from.len() == 0,
{
    lemma_heads(head, lines);
    lemma_no_gap(head, lines);
    law_headers_end_at_the_first_empty_line(head, body);
    lemma_find_from(head, "\n\n"@, 0);
    reveal_strlit("\n\n");
    assert(header_part(head) == head) by {
        if let Some(k) = find(head, "\n\n"@) {
            assert(occurs_at(head, "\n\n"@, k));
        }
    }
    lemma_header_from(lines, i, word, value);
}

/// The sender that lines name.
proof fn lemma_header_from(lines: Seq<Seq<char>>, i: int, word: Seq<char>, value: Seq<char>)
    requires
        0 <= i < lines.len() ==> lines[i] == word + value && is_word(word, "from:"@),
        -1 <= i < lines.len(),
        forall|j: int| i < j < lines.len() ==> !begins_word(#[trigger] lines[j], "from:"@),
    ensures
        i >= 0 ==> header_from(lines) == angle_addr(value),
        i < 0 ==> header_from(lines).len() == 0,
    decreases lines.len(),
{
    reveal_strlit("from:");
    if lines.len() > 0 {
        let last = lines.last();
        lemma_begins_word(last, "from:"@);
        if i == lines.len() - 1 {
            assert(last.take(5) =~= word);
            assert(last.skip(5) =~= value);
        } else {
            assert(last == lines[lines.len() - 1]);
            let less = lines.drop_last();
            assert forall|j: int| i < j < less.len() implies !begins_word(
                #[trigger] less[j],
                "from:"@,
            ) by {
                assert(less[j] == lines[j]);
            }
            lemma_header_from(less, i, word, value);
        }
    }
}

/// The subject of a message is what stands in the last of its header lines that begins
/// with `subject:`, in whatever case, without the blanks around it; without such a line it
/// is empty.
pub proof fn law_the_subject_is_told(
    head: Seq<char>,
    lines: Seq<Seq<char>>,
    body: Seq<char>,
    i: int,
    word: Seq<char>,
    value: Seq<char>,
)
    requires
        heads(head, lines),
        0 <= i < lines.len() ==> lines[i] == word + value && is_word(word, "subject:"@),
        -1 <= i < lines.len(),
        forall|j: int| i < j < lines.len() ==> !begins_word(#[trigger] lines[j], "subject:"@),
    ensures
        i >= 0 ==> email_of(head + "\n\n"@ + body).subject == trim(value),
        i < 0 ==> email_of(head + "\n\n"@ + body).subject.len() == 0,
{
    lemma_heads(head, lines);
    lemma_no_gap(head, lines);
    law_headers_end_at_the_first_empty_line(head, body);
    lemma_find_from(head, "\n\n"@, 0);
    assert(header_part(head) == head) by {
        if let Some(k) = find(head, "\n\n"@) {
            assert(occurs_at(head, "\n\n"@, k));
        }
    }
    lemma_header_subject(lines, i, word, value);
}

/// The subject that lines name.
proof fn lemma_header_subject(lines: Seq<Seq<char>>, i: int, word: Seq<char>, value: Seq<char>)
    requires
        0 <= i < lines.len() ==> lines[i] == word + value && is_word(word, "subject:"@),
        -1 <= i < lines.len(),
        forall|j: int| i < j < lines.len() ==> !begins_word(#[trigger] lines[j], "subject:"@),
    ensures
        i >= 0 ==> header_subject(lines) == trim(value),
        i < 0 ==> header_subject(lines).len() == 0,
    decreases lines.len(),
{
    reveal_strlit("from:");
    reveal_strlit("subject:");
    if lines.len() > 0 {
        let last = lines.last();
        lemma_begins_word(last, "subject:"@);
        lemma_begins_word(last, "from:"@);
        if i == lines.len() - 1 {
            assert(last.take(8) =~= word);
            assert(last.skip(8) =~= value);
            assert(begins_word(last, "subject:"@));
            if begins_word(last, "from:"@) {
                assert(last.take(5)[0] == 'f' || last.take(5)[0] == 'F');
                assert(word[0] == 's' || word[0] == 'S');
                assert(last[0] == word[0]);
            }
        } else {
            assert(last == lines[lines.len() - 1]);
            let less = lines.drop_last();
            assert forall|j: int| i < j < less.len() implies !begins_word(
                #[trigger] less[j],
                "subject:"@,
            ) by {
                assert(less[j] == lines[j]);
            }
            lemma_header_subject(less, i, word, value);
        }
    }
}

/// The body of a message is what stands behind its first empty line, without the blanks
/// around it; a message without an empty line has none.
pub proof fn law_the_body_is_told(head: Seq<char>, lines: Seq<Seq<char>>, body: Seq<char>)
    requires
        heads(head, lines),
    ensures
        email_of(head + "\n\n"@ + body).body == trim(body),
        email_of(head).body.len() == 0,
{
    lemma_no_gap(head, lines);
    law_headers_end_at_the_first_empty_line(head, body);
}

/// What the server does on its events: it stops where it cannot listen, pauses for a
/// second after a client that it could not accept, and otherwise tells the log and goes
/// on.
pub proof fn law_the_server_goes_on(port: u16, event: ServerEvent, step: ServerStep)
    requires
        serves(port, event, step),
    ensures
        event matches ServerEvent::BindFailed(e) ==> (step matches ServerStep::Stop(s) && s@
            == "Failed to bind SMTP to 0.0.0.0:"@ + decimal(port as nat) + ": "@ + e@),
        event matches ServerEvent::AddressFailed(e) ==> (step matches ServerStep::Stop(s) && s@
            == e@),
        event matches ServerEvent::Listening(a) ==> (step matches ServerStep::Log(s) && s@
            == "SMTP server listening on "@ + a@ + " (port "@ + decimal(port as nat) + ")"@),
        event matches ServerEvent::Connected(peer) ==> (step matches ServerStep::Log(s) && s@
            == "SMTP client connected from "@ + peer@),
        event matches ServerEvent::AcceptFailed(e) ==> (step matches ServerStep::LogAndPause(
            s,
            secs,
        ) && s@ == "SMTP accept error: "@ + e@ && secs == 1),
        event matches ServerEvent::ClientFailed { peer, error } ==> (step matches ServerStep::Log(s)
            && s@ == "SMTP client "@ + peer@ + " error: "@ + error@),
{
    reveal_strlit("Failed to bind SMTP to ");
    reveal_strlit("0.0.0.0:");
    reveal_strlit("Failed to bind SMTP to 0.0.0.0:");
    let d = decimal(port as nat);
    assert("Failed to bind SMTP to "@ + listen_address(port) =~= "Failed to bind SMTP to 0.0.0.0:"@
        + d);
}

/// The address in a text can be told unless a closing bracket stands before the first
/// opening one.
pub proof fn law_addresses_can_be_told(s: Seq<char>, open: int, close: int)
    requires
        0 <= open < s.len() && s[open] == '<',
        0 <= close < s.len() && s[close] == '>',
        forall|i: int| 0 <= i < open ==> #[trigger] s[i] != '<',
        forall|i: int| 0 <= i < close ==> #[trigger] s[i] != '>',
    ensures
        brackets_in_order(s) <==> open < close,
{
    let t = trim(s);
    let (a, b) = law_trim_takes_blanks(s);
    assert(!is_space('<') && !is_space('>'));
    assert(a <= open < b && a <= close < b);
    lemma_find_char(t, '<');
    lemma_find_char(t, '>');
    assert(t[open - a] == s[open] && t[close - a] == s[close]);
    assert(find_char(t, '<') == Some(open - a)) by {
        let i = find_char(t, '<')->0;
        assert(t[i] == s[a + i]);
    }
    assert(find_char(t, '>') == Some(close - a)) by {
        let i = find_char(t, '>')->0;
        assert(t[i] == s[a + i]);
    }
}

/// A line can be handled unless it names a sender whose address cannot be told, or ends a
/// message with such a header.
pub proof fn law_lines_can_be_handled(
    state: SessionView,
    line: Seq<char>,
    word: Seq<char>,
    rest: Seq<char>,
)
    requires
        is_word(word, "MAIL FROM:"@),
        brings(line, word + rest),
    ensures
        !state.in_data ==> (line_readable(state, SmtpEventView::Line(line)) <==> brackets_in_order(
            rest,
        )),
        line_readable(state, SmtpEventView::Closed),
{
    let cmd = word + rest;
    lemma_brings(line, cmd);
    reveal_strlit("HELO");
    reveal_strlit("EHLO");
    reveal_strlit("MAIL FROM:");
    lemma_word_begins(word, rest, "MAIL FROM:"@);
    assert(cmd[0] == word[0] && cmd[2] == word[2]);
    assert(begins_command(cmd, "HELO"@) ==> uppers_to(cmd[0], 'H'));
    assert(begins_command(cmd, "EHLO"@) ==> uppers_to(cmd[0], 'E'));
    assert(cmd.skip(10) =~= rest);
}

/// A message can be read if and only if the address can be told in each of its header
/// lines that begin with `from:`.
pub proof fn law_messages_can_be_read(head: Seq<char>, lines: Seq<Seq<char>>, body: Seq<char>)
    requires
        heads(head, lines),
    ensures
        email_readable(head + "\n\n"@ + body) <==> forall|i: int|
            0 <= i < lines.len() && begins_word(#[trigger] lines[i], "from:"@)
                ==> brackets_in_order(lines[i].skip(5)),
{
    lemma_heads(head, lines);
    lemma_no_gap(head, lines);
    law_headers_end_at_the_first_empty_line(head, body);
    lemma_find_from(head, "\n\n"@, 0);
    assert(header_part(head) == head) by {
        if let Some(k) = find(head, "\n\n"@) {
            assert(occurs_at(head, "\n\n"@, k));
        }
    }
    reveal_strlit("from:");
    assert forall|i: int| 0 <= i < lines.len() implies begins_word(
        #[trigger] lines[i],
        "from:"@,
    ) == is_from(lines[i]) by {
        lemma_begins_word(lines[i], "from:"@);
    }
    assert(crate::text::lines(header_part(head)) == lines);
    if email_readable(head) {
        assert forall|i: int|
            0 <= i < lines.len() && begins_word(#[trigger] lines[i], "from:"@)
            implies brackets_in_order(lines[i].skip(5)) by {
            assert(is_from(lines[i]));
        }
    }
    if forall|i: int|
        0 <= i < lines.len() && begins_word(#[trigger] lines[i], "from:"@) ==> brackets_in_order(
            lines[i].skip(5),
        ) {
        assert forall|i: int| 0 <= i < lines.len() && is_from(#[trigger] lines[i])
            implies brackets_in_order(lines[i].skip(5)) by {
            assert(begins_word(lines[i], "from:"@));
        }
    }
}

} // verus!
