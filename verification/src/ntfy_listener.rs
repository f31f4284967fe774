//! The listener: which topics it follows, and how it reads the stream of events
//! of each.

use crate::http::is_success;
use crate::http::pairs;
use crate::http::Body;
use crate::http::BodyView;
use crate::http::HttpRequest;
use crate::http::HttpRequestView;
use crate::http::Method;
use crate::http::Pair;
use crate::json::arr_member;
use crate::json::get_array;
use crate::json::get_str;
use crate::json::json_document;
use crate::json::parse_json;
use crate::json::str_member;
use crate::json::string_items;
use crate::json::strings_of;
use crate::json::has_under;
use crate::json::law_members_are_read;
use crate::json::says;
use crate::json::JsonView;
use crate::number::decimal;
use crate::number::decimal_text;
use crate::scheduler::SchedulerCommand;
use crate::task::task_views;
use crate::task::Task;
use crate::task::TaskView;
use crate::task::TriggerType;
use crate::task::TriggerView;
use crate::text::after_bytes;
use crate::text::byte_len;
use crate::text::can_cut_at;
use crate::text::cat2;
use crate::text::cat3;
use crate::text::cat4;
use crate::text::cat5;
use crate::text::cat6;
use crate::text::cat7;
use crate::text::cat9;
use crate::text::chars_of;
use crate::text::copy_text;
use crate::text::cuts_at;
use crate::text::join;
use crate::text::is_space;
use crate::text::join_texts;
use crate::text::law_blanks_behind_do_not_count;
use crate::text::law_containing_is_having_a_part;
use crate::text::law_cuts_take_nothing_away;
use crate::text::law_lines_put_together_come_back;
use crate::text::law_trim_end_of_takes_all;
use crate::text::law_trim_takes_blanks;
use crate::text::lemma_texts_push;
use crate::text::lines;
use crate::text::lines_of;
use crate::text::lossy;
use crate::text::opt_text;
use crate::text::same_text;
use crate::text::starts_with;
use crate::text::text_after_bytes;
use crate::text::text_behind;
use crate::text::text_between;
use crate::text::text_from_utf8_lossy;
use crate::text::text_starts_with;
use crate::text::texts;
use crate::text::trim;
use crate::text::trim_end;
use crate::text::trim_end_of;
use crate::text::trim_end_of_text;
use crate::text::trim_end_text;
use crate::text::trim_start;
use crate::text::trim_start_text;
use crate::text::trim_text;
use vstd::prelude::*;
use vstd::slice::slice_subrange;
use vstd::slice::slice_to_vec;
use vstd::utf8::encode_utf8;
use vstd::utf8::is_ascii_chars_encode_utf8;

verus! {

// ---------------------------------------------------------------------------
// Subscriptions
// ---------------------------------------------------------------------------

/// What the listener is told.
pub enum NtfyListenerCommand {
    UpdateTasks(Vec<Task>),
}

/// A topic on a server.
#[derive(Debug)]
pub struct Subscription {
    pub server: String,
    pub topic: String,
}

/// The servers and topics of a list.
pub open spec fn topics(list: Seq<Subscription>) -> Seq<(Seq<char>, Seq<char>)> {
    Seq::new(list.len(), |i: int| (list[i].server@, list[i].topic@))
}

/// The topic that a task waits for, if it does.
pub open spec fn awaited(task: TaskView) -> Option<(Seq<char>, Seq<char>)> {
    match task.trigger {
        TriggerView::Ntfy { server, topic, .. } if task.enabled => Some((server, topic)),
        _ => None,
    }
}

/// The topics that tasks wait for, each of them once.
pub open spec fn subscriptions(tasks: Seq<TaskView>) -> Seq<(Seq<char>, Seq<char>)>
    decreases tasks.len(),
{
    if tasks.len() == 0 {
        Seq::empty()
    } else {
        let before = subscriptions(tasks.drop_last());
        match awaited(tasks.last()) {
            Some(topic) if !before.contains(topic) => before.push(topic),
            _ => before,
        }
    }
}

/// Whether a list holds a topic.
fn has_topic(list: &Vec<Subscription>, server: &str, topic: &str) -> (r: bool)
    ensures
        r == topics(list@).contains((server@, topic@)),
{
    let mut i: usize = 0;
    while i < list.len()
        invariant
            i <= list@.len(),
            forall|j: int| 0 <= j < i ==> topics(list@)[j] != (server@, topic@),
        decreases list@.len() - i,
    {
        if same_text(list[i].server.as_str(), server) && same_text(list[i].topic.as_str(), topic) {
            assert(topics(list@)[i as int] == (server@, topic@));
            return true;
        }
        i = i + 1;
    }
    false
}

/// The topics that tasks wait for.
pub fn subscriptions_of(tasks: &Vec<Task>) -> (r: Vec<Subscription>)
    ensures
        topics(r@) == subscriptions(task_views(tasks@)),
{
    let mut r: Vec<Subscription> = Vec::new();
    let ghost all = task_views(tasks@);
    let mut i: usize = 0;
    assert(topics(r@) =~= subscriptions(all.take(0)));
    while i < tasks.len()
        invariant
            all == task_views(tasks@),
            i <= tasks@.len(),
            topics(r@) == subscriptions(all.take(i as int)),
        decreases tasks@.len() - i,
    {
        assert(all.take(i + 1).drop_last() =~= all.take(i as int));
        assert(all.take(i + 1).last() == tasks@[i as int]@);
        if tasks[i].enabled {
            if let TriggerType::Ntfy { server, topic, .. } = &tasks[i].trigger {
                if !has_topic(&r, server.as_str(), topic.as_str()) {
                    let ghost before = r@;
                    r.push(Subscription { server: server.clone(), topic: topic.clone() });
                    assert(topics(r@) =~= topics(before).push((server@, topic@)));
                }
            }
        }
        i = i + 1;
    }
    assert(all.take(tasks@.len() as int) =~= all);
    r
}

/// A message on a topic.
#[derive(Debug)]
pub struct NtfyMessage {
    pub topic: String,
    pub title: String,
    pub message: String,
    pub tags: String,
}

pub struct MessageView {
    pub topic: Seq<char>,
    pub title: Seq<char>,
    pub message: Seq<char>,
    pub tags: Seq<char>,
}

impl View for NtfyMessage {
    type V = MessageView;

    open spec fn view(&self) -> MessageView {
        MessageView {
            topic: self.topic@,
            title: self.title@,
            message: self.message@,
            tags: self.tags@,
        }
    }
}

/// What happens to the listener.
pub enum ListenerEvent {
    /// A command, or `None` where no more will come.
    Command(Option<NtfyListenerCommand>),
    Message(NtfyMessage),
}

/// What the listener does then.
pub enum ListenerStep {
    /// It drops the topics that it follows, and follows these.
    Follow { subscriptions: Vec<Subscription>, log: Option<String> },
    /// It passes a command on to the scheduler.
    Forward(SchedulerCommand),
    /// It drops the topics that it follows, and ends.
    Stop,
}

/// What the log says of a number of topics.
pub open spec fn following_log(count: nat) -> Option<Seq<char>> {
    if count > 0 {
        Some("ntfy: monitoring "@ + decimal(count) + " topic(s)"@)
    } else {
        None
    }
}

/// What the listener does on an event.
pub open spec fn listens(event: ListenerEvent, step: ListenerStep) -> bool {
    match event {
        ListenerEvent::Command(Some(NtfyListenerCommand::UpdateTasks(tasks))) => {
            step matches ListenerStep::Follow { subscriptions: list, log } && topics(list@)
                == subscriptions(task_views(tasks@)) && opt_text(log) == following_log(
                list@.len(),
            )
        },
        ListenerEvent::Command(None) => step is Stop,
        ListenerEvent::Message(msg) => {
            step matches ListenerStep::Forward(
                SchedulerCommand::NtfyReceived { topic, title, message, tags },
            ) && topic@ == msg@.topic && title@ == msg@.title && message@ == msg@.message && tags@
                == msg@.tags
        },
    }
}

/// The listener.
pub struct NtfyListener;

impl NtfyListener {
    pub fn new() -> (r: Self) {
        NtfyListener
    }

    /// What the listener does on an event.
    pub fn run(&self, event: ListenerEvent) -> (r: ListenerStep)
        ensures
            listens(event, r),
    {
        match event {
            ListenerEvent::Command(Some(NtfyListenerCommand::UpdateTasks(tasks))) => {
                let subscriptions = subscriptions_of(&tasks);
                let log = if subscriptions.len() > 0 {
                    let count = decimal_text(subscriptions.len() as u64);
                    Some(cat3("ntfy: monitoring ", count.as_str(), " topic(s)"))
                } else {
                    None
                };
                ListenerStep::Follow { subscriptions, log }
            },
            ListenerEvent::Command(None) => ListenerStep::Stop,
            ListenerEvent::Message(msg) => ListenerStep::Forward(
                SchedulerCommand::NtfyReceived {
                    topic: msg.topic,
                    title: msg.title,
                    message: msg.message,
                    tags: msg.tags,
                },
            ),
        }
    }
}

// ---------------------------------------------------------------------------
// Events of a stream
// ---------------------------------------------------------------------------

/// The least index from `from` on at which `pattern` stands in `buf`.
pub open spec fn find_bytes(buf: Seq<u8>, pattern: Seq<u8>, from: int) -> Option<int>
    decreases buf.len() + 1 - from,
{
    if from < 0 || from + pattern.len() > buf.len() {
        None
    } else if buf.subrange(from, from + pattern.len()) == pattern {
        Some(from)
    } else {
        find_bytes(buf, pattern, from + 1)
    }
}

/// An empty line after a line, with carriage returns.
pub open spec fn wide_gap() -> Seq<u8> {
    seq![13u8, 10u8, 13u8, 10u8]
}

/// An empty line after a line, without carriage returns.
pub open spec fn narrow_gap() -> Seq<u8> {
    seq![10u8, 10u8]
}

/// Where the first event in a buffer ends: at the first empty line with carriage
/// returns, or where there is none, at the first empty line without.
pub open spec fn boundary(buf: Seq<u8>) -> Option<int> {
    match find_bytes(buf, wide_gap(), 0) {
        Some(i) => Some(i),
        None => find_bytes(buf, narrow_gap(), 0),
    }
}

/// How many bytes the empty line at an index takes.
pub open spec fn gap_len(buf: Seq<u8>, pos: int) -> int {
    if pos + 4 <= buf.len() && buf.subrange(pos, pos + 4) == wide_gap() {
        4
    } else {
        2
    }
}

/// A place that is found lies in the buffer, with the pattern.
proof fn lemma_find_bytes(buf: Seq<u8>, pattern: Seq<u8>, from: int)
    requires
        0 <= from,
    ensures
        find_bytes(buf, pattern, from) matches Some(i) ==> from <= i && i + pattern.len()
            <= buf.len() && buf.subrange(i, i + pattern.len()) == pattern,
    decreases buf.len() + 1 - from,
{
    if from + pattern.len() <= buf.len() && buf.subrange(from, from + pattern.len()) != pattern {
        lemma_find_bytes(buf, pattern, from + 1);
    }
}

/// The empty line that ends an event lies in the buffer.
proof fn lemma_boundary(buf: Seq<u8>)
    ensures
        boundary(buf) matches Some(pos) ==> 0 <= pos && pos + gap_len(buf, pos) <= buf.len(),
{
    lemma_find_bytes(buf, wide_gap(), 0);
    lemma_find_bytes(buf, narrow_gap(), 0);
}

/// Where the first event in a buffer ends.
pub fn find_boundary(buf: &[u8]) -> (r: Option<usize>)
    ensures
        match r {
            Some(i) => boundary(buf@) == Some(i as int),
            None => boundary(buf@) is None,
        },
{
    let mut i: usize = 0;
    while buf.len() >= 4 && i <= buf.len() - 4
        invariant
            i <= buf@.len(),
            find_bytes(buf@, wide_gap(), 0) == find_bytes(buf@, wide_gap(), i as int),
        decreases buf@.len() - i,
    {
        let here = buf[i] == 13 && buf[i + 1] == 10 && buf[i + 2] == 13 && buf[i + 3] == 10;
        proof {
            let window = buf@.subrange(i as int, i + 4);
            if here {
                assert(window =~= wide_gap());
            } else if window == wide_gap() {
                assert(window[0] == 13 && window[1] == 10 && window[2] == 13 && window[3] == 10);
            }
        }
        if here {
            return Some(i);
        }
        i = i + 1;
    }
    assert(find_bytes(buf@, wide_gap(), 0) is None);
    let mut k: usize = 0;
    while buf.len() >= 2 && k <= buf.len() - 2
        invariant
            k <= buf@.len(),
            find_bytes(buf@, wide_gap(), 0) is None,
            find_bytes(buf@, narrow_gap(), 0) == find_bytes(buf@, narrow_gap(), k as int),
        decreases buf@.len() - k,
    {
        let here = buf[k] == 10 && buf[k + 1] == 10;
        proof {
            let window = buf@.subrange(k as int, k + 2);
            if here {
                assert(window =~= narrow_gap());
            } else if window == narrow_gap() {
                assert(window[0] == 10 && window[1] == 10);
            }
        }
        if here {
            return Some(k);
        }
        k = k + 1;
    }
    None
}

/// The kind that the lines of an event name; the last such line counts.
pub open spec fn event_type(lines: Seq<Seq<char>>) -> Option<Seq<char>>
    decreases lines.len(),
{
    if lines.len() == 0 {
        None
    } else if starts_with(trim_end(lines.last()), "event: "@) {
        Some(trim(trim_end(lines.last()).skip(7)))
    } else {
        event_type(lines.drop_last())
    }
}

/// The data that the lines of an event carry.
pub open spec fn data_lines(lines: Seq<Seq<char>>) -> Seq<Seq<char>>
    decreases lines.len(),
{
    if lines.len() == 0 {
        Seq::empty()
    } else {
        let before = data_lines(lines.drop_last());
        let line = trim_end(lines.last());
        if !starts_with(line, "event: "@) && starts_with(line, "data: "@) {
            before.push(line.skip(6))
        } else {
            before
        }
    }
}

/// The data of a message event: one without a kind is a message, and a message
/// carries data.
pub open spec fn message_data(event: Seq<char>) -> Option<Seq<char>> {
    let kind = match event_type(lines(event)) {
        Some(kind) => kind,
        None => "message"@,
    };
    let data = data_lines(lines(event));
    if kind == "message"@ && data.len() > 0 {
        Some(join(data, "\n"@))
    } else {
        None
    }
}

/// The data of a message event.
pub fn message_data_of(event_text: &str) -> (r: Option<String>)
    ensures
        opt_text(r) == message_data(event_text@),
{
    let list = lines_of(event_text);
    let ghost all = lines(event_text@);
    let mut kind: Option<String> = None;
    let mut data: Vec<String> = Vec::new();
    let mut i: usize = 0;
    assert(all.take(0) =~= Seq::<Seq<char>>::empty());
    assert(texts(data@) =~= data_lines(all.take(0)));
    while i < list.len()
        invariant
            all == texts(list@),
            i <= list@.len(),
            opt_text(kind) == event_type(all.take(i as int)),
            texts(data@) == data_lines(all.take(i as int)),
        decreases list@.len() - i,
    {
        assert(all.take(i + 1).drop_last() =~= all.take(i as int));
        assert(all.take(i + 1).last() == list@[i as int]@);
        let line = trim_end_text(list[i].as_str());
        if text_starts_with(line.as_str(), "event: ") {
            proof {
                reveal_strlit("event: ");
            }
            let value = text_behind(line.as_str(), 7);
            kind = Some(trim_text(value.as_str()));
        } else if text_starts_with(line.as_str(), "data: ") {
            proof {
                reveal_strlit("data: ");
            }
            let value = text_behind(line.as_str(), 6);
            proof {
                lemma_texts_push(data@, value);
            }
            data.push(value);
        }
        i = i + 1;
    }
    assert(all.take(list@.len() as int) =~= all);
    let is_message = match &kind {
        Some(name) => same_text(name.as_str(), "message"),
        None => true,
    };
    if !is_message || data.len() == 0 {
        None
    } else {
        Some(join_texts(&data, "\n"))
    }
}

/// What a message says.
#[derive(Debug)]
pub struct ParsedNtfyMessage {
    pub title: String,
    pub message: String,
    /// The tags, separated by commas and spaces.
    pub tags: String,
}

pub struct ParsedView {
    pub title: Seq<char>,
    pub message: Seq<char>,
    pub tags: Seq<char>,
}

impl View for ParsedNtfyMessage {
    type V = ParsedView;

    open spec fn view(&self) -> ParsedView {
        ParsedView { title: self.title@, message: self.message@, tags: self.tags@ }
    }
}

impl Default for ParsedNtfyMessage {
    fn default() -> (r: Self)
        ensures
            r@ == message_members(None, None, None),
    {
        let r = ParsedNtfyMessage {
            title: String::new(),
            message: String::new(),
            tags: String::new(),
        };
        assert(r@.title =~= Seq::<char>::empty());
        assert(r@.message =~= Seq::<char>::empty());
        assert(r@.tags =~= Seq::<char>::empty());
        r
    }
}

pub open spec fn text_or_empty(text: Option<Seq<char>>) -> Seq<char> {
    match text {
        Some(s) => s,
        None => Seq::empty(),
    }
}

/// What a message with these members says.
pub open spec fn message_members(
    title: Option<Seq<char>>,
    message: Option<Seq<char>>,
    tags: Option<Seq<Seq<char>>>,
) -> ParsedView {
    ParsedView {
        title: text_or_empty(title),
        message: text_or_empty(message),
        tags: match tags {
            Some(list) => join(list, ", "@),
            None => Seq::empty(),
        },
    }
}

/// What a document says as a message; without a document every part is empty.
pub open spec fn document_message(doc: Option<JsonView>) -> ParsedView {
    match doc {
        Some(doc) => message_members(
            str_member(doc, "title"@),
            str_member(doc, "message"@),
            match arr_member(doc, "tags"@) {
                Some(items) => Some(string_items(items)),
                None => None,
            },
        ),
        None => message_members(None, None, None),
    }
}

/// What a message event says.
pub open spec fn sse_message(event: Seq<char>) -> Option<ParsedView> {
    match message_data(event) {
        Some(data) => Some(document_message(json_document(data))),
        None => None,
    }
}

/// The texts of an optional list.
pub open spec fn opt_texts(list: Option<Vec<String>>) -> Option<Seq<Seq<char>>> {
    match list {
        Some(l) => Some(texts(l@)),
        None => None,
    }
}

impl ParsedNtfyMessage {
    /// The message with these members.
    pub fn from_members(
        title: Option<String>,
        message: Option<String>,
        tags: Option<Vec<String>>,
    ) -> (r: Self)
        ensures
            r@ == message_members(opt_text(title), opt_text(message), opt_texts(tags)),
    {
        let mut r = ParsedNtfyMessage::default();
        if let Some(t) = title {
            r.title = t;
        }
        if let Some(m) = message {
            r.message = m;
        }
        if let Some(list) = tags {
            r.tags = join_texts(&list, ", ");
        }
        r
    }
}

/// What a message event says.
pub fn parse_sse_message(event_text: &str) -> (r: Option<ParsedNtfyMessage>)
    ensures
        match r {
            Some(m) => sse_message(event_text@) == Some(m@),
            None => sse_message(event_text@) is None,
        },
{
    match message_data_of(event_text) {
        None => None,
        Some(data) => match parse_json(data.as_str()) {
            None => Some(ParsedNtfyMessage::default()),
            Some(doc) => {
                let title = match get_str(&doc, "title") {
                    Some(s) => Some(copy_text(s)),
                    None => None,
                };
                let message = match get_str(&doc, "message") {
                    Some(s) => Some(copy_text(s)),
                    None => None,
                };
                let tags = match get_array(&doc, "tags") {
                    Some(items) => Some(strings_of(items)),
                    None => None,
                };
                Some(ParsedNtfyMessage::from_members(title, message, tags))
            },
        },
    }
}

// ---------------------------------------------------------------------------
// Following a topic
// ---------------------------------------------------------------------------

/// Whether a line names the kind of its event, wherever the line starts.
pub open spec fn names_kind(line: Seq<char>) -> bool {
    starts_with(trim_start(line), "event:"@)
}

/// The least index from `from` on of a line that names the kind.
pub open spec fn kind_line(lines: Seq<Seq<char>>, from: int) -> Option<int>
    decreases lines.len() - from,
{
    if from < 0 || from >= lines.len() {
        None
    } else if names_kind(lines[from]) {
        Some(from)
    } else {
        kind_line(lines, from + 1)
    }
}

/// Whether the kind of an event can be told: it stands behind the first six bytes
/// of its line, so the line must allow a cut there.
pub open spec fn kind_readable(event: Seq<char>) -> bool {
    kind_line(lines(event), 0) matches Some(i) ==> cuts_at(lines(event)[i], 6)
}

/// The kind of an event, as the log gives it.
pub open spec fn event_kind(event: Seq<char>) -> Seq<char> {
    match kind_line(lines(event), 0) {
        Some(i) => trim(after_bytes(lines(event)[i], 6)),
        None => "(no event type)"@,
    }
}

/// The first line of an event, as the log gives it: sixty characters at most.
pub open spec fn first_line(event: Seq<char>) -> Seq<char> {
    if lines(event).len() == 0 {
        Seq::empty()
    } else if lines(event)[0].len() > 60 {
        lines(event)[0].take(60)
    } else {
        lines(event)[0]
    }
}

/// What the log says of an event that is no message.
pub open spec fn other_event_log(topic: Seq<char>, event: Seq<char>) -> Seq<char> {
    "ntfy: non-message event on '"@ + topic + "': type='"@ + event_kind(event) + "' first_line='"@
        + first_line(event) + "'"@
}

/// What the log says of a message.
pub open spec fn message_log(topic: Seq<char>, message: ParsedView) -> Seq<char> {
    "ntfy: EVENT on '"@ + topic + "': title='"@ + message.title + "' msg_len="@ + decimal(
        encode_utf8(message.message).len(),
    )
}

/// The index of the first line that names the kind.
fn find_kind_line(list: &Vec<String>) -> (r: Option<usize>)
    ensures
        match r {
            Some(i) => i < list@.len() && kind_line(texts(list@), 0) == Some(i as int),
            None => kind_line(texts(list@), 0) is None,
        },
{
    let mut i: usize = 0;
    while i < list.len()
        invariant
            i <= list@.len(),
            kind_line(texts(list@), 0) == kind_line(texts(list@), i as int),
        decreases list@.len() - i,
    {
        let line = trim_start_text(list[i].as_str());
        if text_starts_with(line.as_str(), "event:") {
            return Some(i);
        }
        i = i + 1;
    }
    None
}

/// Whether the kind of an event can be told.
pub fn is_kind_readable(event: &str) -> (r: bool)
    ensures
        r == kind_readable(event@),
{
    let list = lines_of(event);
    match find_kind_line(&list) {
        Some(i) => can_cut_at(list[i].as_str(), 6),
        None => true,
    }
}

/// What the log says of an event that is no message.
pub fn describe_event(topic: &str, event: &str) -> (r: String)
    requires
        kind_readable(event@),
    ensures
        r@ == other_event_log(topic@, event@),
{
    let list = lines_of(event);
    let kind = match find_kind_line(&list) {
        Some(i) => {
            let name = text_after_bytes(list[i].as_str(), 6);
            trim_text(name.as_str())
        },
        None => copy_text("(no event type)"),
    };
    let first = if list.len() == 0 {
        String::new()
    } else {
        let chars = chars_of(list[0].as_str());
        if chars.len() > 60 {
            let part = text_between(&chars, 0, 60);
            assert(part@ =~= list@[0]@.take(60));
            part
        } else {
            copy_text(list[0].as_str())
        }
    };
    assert(first@ =~= first_line(event@));
    cat7(
        "ntfy: non-message event on '",
        topic,
        "': type='",
        kind.as_str(),
        "' first_line='",
        first.as_str(),
        "'",
    )
}

/// What comes out of a stream, one thing after the other.
#[derive(Debug)]
pub enum StreamOutput {
    Log(String),
    Message(NtfyMessage),
    /// The kind of an event cannot be told; reading ends there.
    Broken,
}

pub enum OutputView {
    Log(Seq<char>),
    Message(MessageView),
    Broken,
}

impl View for StreamOutput {
    type V = OutputView;

    open spec fn view(&self) -> OutputView {
        match *self {
            StreamOutput::Log(text) => OutputView::Log(text@),
            StreamOutput::Message(message) => OutputView::Message(message@),
            StreamOutput::Broken => OutputView::Broken,
        }
    }
}

/// The contents of a list of outputs.
pub open spec fn outputs(list: Seq<StreamOutput>) -> Seq<OutputView> {
    Seq::new(list.len(), |i: int| list[i]@)
}

/// What an event brings: a message, a line for the log, or nothing if it is
/// blank.
pub open spec fn event_outputs(
    topic: Seq<char>,
    event: Seq<char>,
    message: Option<ParsedView>,
) -> Seq<OutputView> {
    match message {
        Some(m) => seq![
            OutputView::Log(message_log(topic, m)),
            OutputView::Message(
                MessageView { topic, title: m.title, message: m.message, tags: m.tags },
            ),
        ],
        None => if trim(event).len() == 0 {
            Seq::empty()
        } else if kind_readable(event) {
            seq![OutputView::Log(other_event_log(topic, event))]
        } else {
            seq![OutputView::Broken]
        },
    }
}

/// What an event brings, once it has been looked at as a message.
pub fn outputs_of_event(topic: &str, event: &str, message: Option<ParsedNtfyMessage>) -> (r: Vec<
    StreamOutput,
>)
    ensures
        outputs(r@) == event_outputs(
            topic@,
            event@,
            match message {
                Some(m) => Some(m@),
                None => None,
            },
        ),
{
    let mut r: Vec<StreamOutput> = Vec::new();
    match message {
        Some(m) => {
            let size = decimal_text(byte_len(m.message.as_str()) as u64);
            let line = cat6(
                "ntfy: EVENT on '",
                topic,
                "': title='",
                m.title.as_str(),
                "' msg_len=",
                size.as_str(),
            );
            assert(line@ == message_log(topic@, m@));
            r.push(StreamOutput::Log(line));
            r.push(
                StreamOutput::Message(
                    NtfyMessage {
                        topic: copy_text(topic),
                        title: m.title,
                        message: m.message,
                        tags: m.tags,
                    },
                ),
            );
            assert(outputs(r@) =~= event_outputs(topic@, event@, Some(m@)));
        },
        None => {
            let content = trim_text(event);
            if !content.as_str().is_empty() {
                if is_kind_readable(event) {
                    r.push(StreamOutput::Log(describe_event(topic, event)));
                } else {
                    r.push(StreamOutput::Broken);
                }
            }
            assert(outputs(r@) =~= event_outputs(topic@, event@, None));
        },
    }
    r
}

/// Whether reading ended in the middle.
pub open spec fn broke(list: Seq<OutputView>) -> bool {
    list.contains(OutputView::Broken)
}

/// What the complete events in a buffer bring, and what is left behind them.
pub open spec fn drained(topic: Seq<char>, buf: Seq<u8>) -> (Seq<OutputView>, Seq<u8>)
    decreases buf.len(),
    via drained_shrinks
{
    match boundary(buf) {
        None => (Seq::empty(), buf),
        Some(pos) => {
            let event = lossy(buf.take(pos));
            let first = event_outputs(topic, event, sse_message(event));
            if broke(first) {
                (first, buf)
            } else {
                let (more, rest) = drained(topic, buf.skip(pos + gap_len(buf, pos)));
                (first + more, rest)
            }
        },
    }
}

#[via_fn]
proof fn drained_shrinks(topic: Seq<char>, buf: Seq<u8>) {
    lemma_boundary(buf);
}

/// A stream of events on a topic.
pub struct TopicStream {
    pub server: String,
    pub topic: String,
    /// What came of an event that is not complete.
    pub buffer: Vec<u8>,
    /// How many chunks came on this connection.
    pub chunks: u64,
}

pub struct StreamView {
    pub server: Seq<char>,
    pub topic: Seq<char>,
    pub buffer: Seq<u8>,
    pub chunks: u64,
}

impl View for TopicStream {
    type V = StreamView;

    open spec fn view(&self) -> StreamView {
        StreamView {
            server: self.server@,
            topic: self.topic@,
            buffer: self.buffer@,
            chunks: self.chunks,
        }
    }
}

/// What happens to a stream.
pub enum ListenEvent {
    Started,
    ClientFailed(String),
    RequestFailed(String),
    /// The server answered; `line` is its status with the reason.
    Replied { status: u16, line: String },
    /// The body of an answer that was no success.
    ErrorBody(String),
    Chunk(Vec<u8>),
    StreamFailed(String),
    StreamEnded,
    /// Nothing came for a while; the last chunk came so many seconds ago.
    Silence { secs: u64 },
}

/// For how many seconds the listener waits for the next chunk.
pub const CHUNK_WAIT_SECS: u64 = 180;

/// After how many seconds without data a connection is probed.
pub const KEEPALIVE_SECS: u64 = 30;

/// What the listener does next.
#[derive(Debug, Clone, Copy, PartialEq, Eq, Structural)]
pub enum ListenNext {
    Connect,
    ReadBody,
    ReadStream,
    /// It connects again after so many seconds.
    ConnectAfter(u64),
    GiveUp,
}

/// The address of a stream.
pub open spec fn stream_url(server: Seq<char>, topic: Seq<char>) -> Seq<char> {
    trim_end_of(server, '/') + "/"@ + topic + "/sse"@
}

/// Lines for the log.
pub open spec fn log_outputs(lines: Seq<Seq<char>>) -> Seq<OutputView> {
    Seq::new(lines.len(), |i: int| OutputView::Log(lines[i]))
}

pub open spec fn disconnected_log(topic: Seq<char>) -> Seq<char> {
    "ntfy: disconnected from '"@ + topic + "', reconnecting in 5s..."@
}

/// What the log says of a chunk: of the first three, and of every fiftieth.
pub open spec fn chunk_log(
    topic: Seq<char>,
    number: int,
    size: nat,
    buffered: nat,
) -> Seq<OutputView> {
    if number <= 3 || number % 50 == 0 {
        seq![
            OutputView::Log(
                "ntfy: chunk #"@ + decimal(number as nat) + " for '"@ + topic + "', "@ + decimal(
                    size,
                ) + " bytes, buffer "@ + decimal(buffered) + " bytes"@,
            ),
        ]
    } else {
        Seq::empty()
    }
}

/// A buffer that has grown too long loses its front.
pub open spec fn limited(buf: Seq<u8>) -> Seq<u8> {
    if buf.len() > 16384 {
        buf.skip(buf.len() - 8192)
    } else {
        buf
    }
}

pub open spec fn overflow_log(topic: Seq<char>, buf: Seq<u8>) -> Seq<OutputView> {
    if buf.len() > 16384 {
        seq![
            OutputView::Log(
                "ntfy: buffer overflow on '"@ + topic + "', dropping "@ + decimal(
                    (buf.len() - 8192) as nat,
                ) + " bytes"@,
            ),
        ]
    } else {
        Seq::empty()
    }
}

/// What a chunk does to a stream.
pub open spec fn chunk_step(state: StreamView, chunk: Seq<u8>) -> (StreamView, Seq<OutputView>) {
    let number = state.chunks + 1;
    let all = state.buffer + chunk;
    let (found, rest) = drained(state.topic, all);
    let before = chunk_log(state.topic, number, chunk.len(), all.len());
    if broke(found) {
        (StreamView { buffer: rest, chunks: number as u64, ..state }, before + found)
    } else {
        (
            StreamView { buffer: limited(rest), chunks: number as u64, ..state },
            before + found + overflow_log(state.topic, rest),
        )
    }
}

/// What the listener does on an event of a stream: the stream afterwards, what
/// comes out, and what is next.
pub open spec fn listen_step(state: StreamView, event: ListenEvent) -> (
    StreamView,
    Seq<OutputView>,
    ListenNext,
) {
    let topic = state.topic;
    match event {
        ListenEvent::Started => (
            state,
            log_outputs(seq!["ntfy: connecting to "@ + stream_url(state.server, topic)]),
            ListenNext::Connect,
        ),
        ListenEvent::ClientFailed(e) => (
            state,
            log_outputs(seq!["ntfy: failed to create client: "@ + e@]),
            ListenNext::GiveUp,
        ),
        ListenEvent::RequestFailed(e) => (
            state,
            log_outputs(seq!["ntfy: request failed for '"@ + topic + "': "@ + e@]),
            ListenNext::ConnectAfter(10),
        ),
        ListenEvent::Replied { status, line } => {
            let said = "ntfy: HTTP "@ + line@ + " for '"@ + topic + "'"@;
            if is_success(status) {
                (
                    StreamView { buffer: Seq::empty(), chunks: 0, ..state },
                    log_outputs(seq![said, "ntfy: SSE stream started for '"@ + topic + "'"@]),
                    ListenNext::ReadStream,
                )
            } else {
                (state, log_outputs(seq![said]), ListenNext::ReadBody)
            }
        },
        ListenEvent::ErrorBody(body) => (
            state,
            log_outputs(seq!["ntfy: error body: "@ + body@]),
            ListenNext::ConnectAfter(30),
        ),
        ListenEvent::Chunk(chunk) => {
            let (next, found) = chunk_step(state, chunk@);
            (
                next,
                found,
                if broke(found) {
                    ListenNext::GiveUp
                } else {
                    ListenNext::ReadStream
                },
            )
        },
        ListenEvent::StreamFailed(e) => (
            state,
            log_outputs(
                seq![
                    "ntfy: stream error for '"@ + topic + "': "@ + e@,
                    disconnected_log(topic),
                ],
            ),
            ListenNext::ConnectAfter(5),
        ),
        ListenEvent::StreamEnded => (
            state,
            log_outputs(
                seq!["ntfy: stream ended for '"@ + topic + "'"@, disconnected_log(topic)],
            ),
            ListenNext::ConnectAfter(5),
        ),
        ListenEvent::Silence { secs } => if secs > 240 {
            (
                state,
                log_outputs(
                    seq![
                        "ntfy: stale connection on '"@ + topic + "', reconnecting"@,
                        disconnected_log(topic),
                    ],
                ),
                ListenNext::ConnectAfter(5),
            )
        } else {
            (state, Seq::empty(), ListenNext::ReadStream)
        },
    }
}

/// What the listener does on an event of a stream.
pub struct ListenStep {
    pub outputs: Vec<StreamOutput>,
    pub next: ListenNext,
}

/// A list of one line for the log.
fn log_one(line: String) -> (r: Vec<StreamOutput>)
    ensures
        outputs(r@) == log_outputs(seq![line@]),
{
    let mut r: Vec<StreamOutput> = Vec::new();
    r.push(StreamOutput::Log(line));
    assert(outputs(r@) =~= log_outputs(seq![line@]));
    r
}

/// A list of two lines for the log.
fn log_two(first: String, second: String) -> (r: Vec<StreamOutput>)
    ensures
        outputs(r@) == log_outputs(seq![first@, second@]),
{
    let mut r: Vec<StreamOutput> = Vec::new();
    r.push(StreamOutput::Log(first));
    r.push(StreamOutput::Log(second));
    assert(outputs(r@) =~= log_outputs(seq![first@, second@]));
    r
}

/// Whether reading ended in the middle.
fn has_broken(list: &Vec<StreamOutput>) -> (r: bool)
    ensures
        r == broke(outputs(list@)),
{
    let mut i: usize = 0;
    while i < list.len()
        invariant
            i <= list@.len(),
            forall|j: int| 0 <= j < i ==> outputs(list@)[j] != OutputView::Broken,
        decreases list@.len() - i,
    {
        if let StreamOutput::Broken = list[i] {
            assert(outputs(list@)[i as int] == OutputView::Broken);
            return true;
        }
        i = i + 1;
    }
    false
}

/// Moves the outputs of one list behind those of another.
fn append_outputs(list: &mut Vec<StreamOutput>, more: Vec<StreamOutput>)
    ensures
        outputs(final(list)@) == outputs(old(list)@) + outputs(more@),
{
    let ghost first = list@;
    let ghost second = more@;
    let mut more = more;
    list.append(&mut more);
    assert(outputs(list@) =~= outputs(first) + outputs(second));
}

impl TopicStream {
    /// A stream that is not connected yet.
    pub fn new(server: String, topic: String) -> (r: Self)
        ensures
            r@.server == server@,
            r@.topic == topic@,
            r@.buffer.len() == 0,
            r@.chunks == 0,
    {
        TopicStream { server, topic, buffer: Vec::new(), chunks: 0 }
    }

    /// The address of the stream.
    pub fn url(&self) -> (r: String)
        ensures
            r@ == stream_url(self@.server, self@.topic),
    {
        let base = trim_end_of_text(self.server.as_str(), '/');
        cat4(base.as_str(), "/", self.topic.as_str(), "/sse")
    }

    /// The request that opens the stream, for a day at most.
    pub fn request(&self) -> (r: HttpRequest)
        ensures
            r@ == (HttpRequestView {
                method: Method::Get,
                url: stream_url(self@.server, self@.topic),
                headers: Seq::empty(),
                body: BodyView::Empty,
                timeout_secs: Some(86400),
            }),
    {
        let headers: Vec<Pair> = Vec::new();
        assert(pairs(headers@) =~= Seq::<(Seq<char>, Seq<char>)>::empty());
        HttpRequest {
            method: Method::Get,
            url: self.url(),
            headers,
            body: Body::Empty,
            timeout_secs: Some(86400),
        }
    }

    /// Takes the complete events out of the buffer.
    fn drain(&mut self) -> (r: Vec<StreamOutput>)
        ensures
            (outputs(r@), final(self)@.buffer) == drained(old(self)@.topic, old(self)@.buffer),
            final(self)@ == (StreamView { buffer: final(self)@.buffer, ..old(self)@ }),
    {
        let mut r: Vec<StreamOutput> = Vec::new();
        let ghost topic = self@.topic;
        let ghost whole = self@.buffer;
        let ghost start = self@;
        assert(outputs(r@) + drained(topic, whole).0 =~= drained(topic, whole).0);
        loop
            invariant_except_break
                drained(topic, whole) == (
                    outputs(r@) + drained(topic, self@.buffer).0,
                    drained(topic, self@.buffer).1,
                ),
            invariant
                topic == start.topic,
                self@ == (StreamView { buffer: self@.buffer, ..start }),
            ensures
                (outputs(r@), self@.buffer) == drained(topic, whole),
            decreases self@.buffer.len(),
        {
            let ghost buf = self@.buffer;
            let ghost had = outputs(r@);
            match find_boundary(self.buffer.as_slice()) {
                None => {
                    assert(had + Seq::<OutputView>::empty() =~= had);
                    break;
                },
                Some(pos) => {
                    proof {
                        lemma_boundary(buf);
                    }
                    let wide = self.buffer.len() - pos >= 4 && self.buffer[pos] == 13
                        && self.buffer[pos + 1] == 10 && self.buffer[pos + 2] == 13
                        && self.buffer[pos + 3] == 10;
                    let gap: usize = if wide {
                        4
                    } else {
                        2
                    };
                    proof {
                        if wide {
                            assert(buf.subrange(pos as int, pos + 4) =~= wide_gap());
                        } else if pos + 4 <= buf.len() && buf.subrange(pos as int, pos + 4)
                            == wide_gap() {
                            let window = buf.subrange(pos as int, pos + 4);
                            assert(window[0] == 13 && window[1] == 10 && window[2] == 13
                                && window[3] == 10);
                        }
                        assert(gap == gap_len(buf, pos as int));
                    }
                    let head = slice_subrange(self.buffer.as_slice(), 0, pos);
                    assert(head@ =~= buf.take(pos as int));
                    let event = text_from_utf8_lossy(head);
                    let message = parse_sse_message(event.as_str());
                    let found = outputs_of_event(self.topic.as_str(), event.as_str(), message);
                    let ghost first = outputs(found@);
                    let broken = has_broken(&found);
                    append_outputs(&mut r, found);
                    if broken {
                        break;
                    }
                    let rest = slice_to_vec(
                        slice_subrange(self.buffer.as_slice(), pos + gap, self.buffer.len()),
                    );
                    assert(rest@ =~= buf.skip(pos + gap));
                    self.buffer = rest;
                    assert(had + (first + drained(topic, self@.buffer).0) =~= had + first + drained(
                        topic,
                        self@.buffer,
                    ).0);
                },
            }
        }
        r
    }

    /// What a chunk does to the stream.
    pub fn push_chunk(&mut self, chunk: &Vec<u8>) -> (r: Vec<StreamOutput>)
        requires
            old(self).chunks < u64::MAX,
        ensures
            (final(self)@, outputs(r@)) == chunk_step(old(self)@, chunk@),
    {
        let ghost start = self@;
        self.chunks = self.chunks + 1;
        let mut i: usize = 0;
        while i < chunk.len()
            invariant
                i <= chunk@.len(),
                self@ == (StreamView {
                    buffer: start.buffer + chunk@.take(i as int),
                    chunks: (start.chunks + 1) as u64,
                    ..start
                }),
            decreases chunk@.len() - i,
        {
            self.buffer.push(chunk[i]);
            i = i + 1;
            assert(self@.buffer =~= start.buffer + chunk@.take(i as int));
        }
        assert(chunk@.take(chunk@.len() as int) =~= chunk@);
        let mut r: Vec<StreamOutput> = Vec::new();
        if self.chunks <= 3 || self.chunks % 50 == 0 {
            let number = decimal_text(self.chunks);
            let size = decimal_text(chunk.len() as u64);
            let buffered = decimal_text(self.buffer.len() as u64);
            let line = cat9(
                "ntfy: chunk #",
                number.as_str(),
                " for '",
                self.topic.as_str(),
                "', ",
                size.as_str(),
                " bytes, buffer ",
                buffered.as_str(),
                " bytes",
            );
            r.push(StreamOutput::Log(line));
        }
        assert(outputs(r@) =~= chunk_log(
            start.topic,
            start.chunks + 1,
            chunk@.len(),
            (start.buffer + chunk@).len(),
        ));
        let found = self.drain();
        let broken = has_broken(&found);
        append_outputs(&mut r, found);
        if !broken {
            let len = self.buffer.len();
            let ghost rest = self@.buffer;
            let ghost had = outputs(r@);
            if len > 16384 {
                let drop = decimal_text((len - 8192) as u64);
                let line = cat5(
                    "ntfy: buffer overflow on '",
                    self.topic.as_str(),
                    "', dropping ",
                    drop.as_str(),
                    " bytes",
                );
                r.push(StreamOutput::Log(line));
                let tail = slice_to_vec(
                    slice_subrange(self.buffer.as_slice(), len - 8192, len),
                );
                assert(tail@ =~= rest.skip(rest.len() - 8192));
                self.buffer = tail;
            }
            assert(outputs(r@) =~= had + overflow_log(start.topic, rest));
        }
        r
    }

    /// What the listener does on an event of the stream.
    pub fn listen_topic(&mut self, event: ListenEvent) -> (r: ListenStep)
        requires
            event is Chunk ==> old(self).chunks < u64::MAX,
        ensures
            (final(self)@, outputs(r.outputs@), r.next) == listen_step(old(self)@, event),
    {
        match event {
            ListenEvent::Started => {
                let url = self.url();
                ListenStep {
                    outputs: log_one(cat2("ntfy: connecting to ", url.as_str())),
                    next: ListenNext::Connect,
                }
            },
            ListenEvent::ClientFailed(e) => ListenStep {
                outputs: log_one(
                    cat2("ntfy: failed to create client: ", e.as_str()),
                ),
                next: ListenNext::GiveUp,
            },
            ListenEvent::RequestFailed(e) => ListenStep {
                outputs: log_one(
                    cat4("ntfy: request failed for '", self.topic.as_str(), "': ", e.as_str()),
                ),
                next: ListenNext::ConnectAfter(10),
            },
            ListenEvent::Replied { status, line } => {
                let said = cat5("ntfy: HTTP ", line.as_str(), " for '", self.topic.as_str(), "'");
                if 200 <= status && status < 300 {
                    self.buffer = Vec::new();
                    self.chunks = 0;
                    assert(self@.buffer =~= Seq::<u8>::empty());
                    let started = cat3(
                        "ntfy: SSE stream started for '",
                        self.topic.as_str(),
                        "'",
                    );
                    ListenStep { outputs: log_two(said, started), next: ListenNext::ReadStream }
                } else {
                    ListenStep { outputs: log_one(said), next: ListenNext::ReadBody }
                }
            },
            ListenEvent::ErrorBody(body) => ListenStep {
                outputs: log_one(cat2("ntfy: error body: ", body.as_str())),
                next: ListenNext::ConnectAfter(30),
            },
            ListenEvent::Chunk(chunk) => {
                let found = self.push_chunk(&chunk);
                let next = if has_broken(&found) {
                    ListenNext::GiveUp
                } else {
                    ListenNext::ReadStream
                };
                ListenStep { outputs: found, next }
            },
            ListenEvent::StreamFailed(e) => ListenStep {
                outputs: log_two(
                    cat4("ntfy: stream error for '", self.topic.as_str(), "': ", e.as_str()),
                    self.disconnected(),
                ),
                next: ListenNext::ConnectAfter(5),
            },
            ListenEvent::StreamEnded => ListenStep {
                outputs: log_two(
                    cat3("ntfy: stream ended for '", self.topic.as_str(), "'"),
                    self.disconnected(),
                ),
                next: ListenNext::ConnectAfter(5),
            },
            ListenEvent::Silence { secs } => if secs > 240 {
                ListenStep {
                    outputs: log_two(
                        cat3(
                            "ntfy: stale connection on '",
                            self.topic.as_str(),
                            "', reconnecting",
                        ),
                        self.disconnected(),
                    ),
                    next: ListenNext::ConnectAfter(5),
                }
            } else {
                let none: Vec<StreamOutput> = Vec::new();
                assert(outputs(none@) =~= Seq::<OutputView>::empty());
                ListenStep { outputs: none, next: ListenNext::ReadStream }
            },
        }
    }

    fn disconnected(&self) -> (r: String)
        ensures
            r@ == disconnected_log(self@.topic),
    {
        cat3("ntfy: disconnected from '", self.topic.as_str(), "', reconnecting in 5s...")
    }
}

// ---------------------------------------------------------------------------
// Laws
// ---------------------------------------------------------------------------

/// Every topic that an enabled task waits for is followed, no other topic is, and
/// none is followed twice.
pub proof fn law_each_topic_is_followed_once(tasks: Seq<TaskView>)
    ensures
        subscriptions(tasks).no_duplicates(),
        forall|topic: (Seq<char>, Seq<char>)| #[trigger]
            subscriptions(tasks).contains(topic) <==> exists|i: int|
                0 <= i < tasks.len() && #[trigger] awaited(tasks[i]) == Some(topic),
    decreases tasks.len(),
{
    if tasks.len() > 0 {
        let front = tasks.drop_last();
        let before = subscriptions(front);
        let all = subscriptions(tasks);
        law_each_topic_is_followed_once(front);
        assert(tasks.last() == tasks[tasks.len() - 1]);
        assert forall|topic: (Seq<char>, Seq<char>)|
            #[trigger] all.contains(topic) implies exists|i: int|
            0 <= i < tasks.len() && #[trigger] awaited(tasks[i]) == Some(topic) by {
            if before.contains(topic) {
                let i = choose|i: int|
                    0 <= i < front.len() && #[trigger] awaited(front[i]) == Some(topic);
                assert(awaited(tasks[i]) == Some(topic));
            } else {
                assert(awaited(tasks[tasks.len() - 1]) == Some(topic));
            }
        }
        assert forall|topic: (Seq<char>, Seq<char>)|
            (exists|i: int| 0 <= i < tasks.len() && #[trigger] awaited(tasks[i]) == Some(topic))
            implies #[trigger] all.contains(topic) by {
            let i = choose|i: int|
                0 <= i < tasks.len() && #[trigger] awaited(tasks[i]) == Some(topic);
            if i < front.len() {
                assert(awaited(front[i]) == Some(topic));
                assert(before.contains(topic));
                let k = before.index_of(topic);
                assert(all[k] == topic);
            } else if !before.contains(topic) {
                assert(all[all.len() - 1] == topic);
            }
        }
    }
}

/// What is left of a buffer holds no complete event.
pub proof fn law_complete_events_are_taken(topic: Seq<char>, buf: Seq<u8>)
    ensures
        !broke(drained(topic, buf).0) ==> boundary(drained(topic, buf).1) is None,
    decreases buf.len(),
{
    lemma_boundary(buf);
    if let Some(pos) = boundary(buf) {
        let event = lossy(buf.take(pos));
        let first = event_outputs(topic, event, sse_message(event));
        let later = buf.skip(pos + gap_len(buf, pos));
        law_complete_events_are_taken(topic, later);
        let more = drained(topic, later).0;
        if !broke(first) && broke(more) {
            let k = more.index_of(OutputView::Broken);
            assert((first + more)[first.len() + k] == OutputView::Broken);
        }
    }
}

/// However much a server sends, no more than 16384 bytes are kept from one chunk
/// to the next.
pub proof fn law_buffer_stays_bounded(state: StreamView, chunk: Seq<u8>)
    ensures
        !broke(drained(state.topic, state.buffer + chunk).0) ==> chunk_step(
            state,
            chunk,
        ).0.buffer.len() <= 16384,
{
}

/// Every message that comes out of a stream carries the topic of the stream.
pub proof fn law_messages_carry_their_topic(topic: Seq<char>, buf: Seq<u8>, i: int)
    requires
        0 <= i < drained(topic, buf).0.len(),
    ensures
        drained(topic, buf).0[i] matches OutputView::Message(m) ==> m.topic == topic,
    decreases buf.len(),
{
    lemma_boundary(buf);
    if let Some(pos) = boundary(buf) {
        let event = lossy(buf.take(pos));
        let first = event_outputs(topic, event, sse_message(event));
        if !broke(first) && i >= first.len() {
            law_messages_carry_their_topic(
                topic,
                buf.skip(pos + gap_len(buf, pos)),
                i - first.len(),
            );
        }
    }
}

/// The messages among outputs, in their order.
pub open spec fn messages(list: Seq<OutputView>) -> Seq<MessageView>
    decreases list.len(),
{
    if list.len() == 0 {
        Seq::empty()
    } else {
        let before = messages(list.drop_last());
        match list.last() {
            OutputView::Message(message) => before.push(message),
            _ => before,
        }
    }
}

/// The bytes of chunks, one after the other.
pub open spec fn joined_bytes(chunks: Seq<Seq<u8>>) -> Seq<u8>
    decreases chunks.len(),
{
    if chunks.len() == 0 {
        Seq::empty()
    } else {
        joined_bytes(chunks.drop_last()) + chunks.last()
    }
}

/// A stream after chunks came, and what came out of it. Nothing more is read where
/// reading has ended in the middle.
pub open spec fn chunks_read(state: StreamView, chunks: Seq<Seq<u8>>) -> (
    StreamView,
    Seq<OutputView>,
)
    decreases chunks.len(),
{
    if chunks.len() == 0 {
        (state, Seq::empty())
    } else {
        let (before, found) = chunks_read(state, chunks.drop_last());
        if broke(found) {
            (before, found)
        } else {
            let (next, more) = chunk_step(before, chunks.last());
            (next, found + more)
        }
    }
}

/// Whether bytes hold no carriage return.
pub open spec fn no_returns(buf: Seq<u8>) -> bool {
    forall|i: int| 0 <= i < buf.len() ==> #[trigger] buf[i] != 13
}

/// Whether every event in a buffer, and what is left behind the last of them, is
/// short enough never to be dropped.
pub open spec fn events_fit(buf: Seq<u8>) -> bool
    decreases buf.len(),
    via events_fit_shrinks
{
    match boundary(buf) {
        None => buf.len() <= 16384,
        Some(pos) => pos < 16384 && events_fit(buf.skip(pos + gap_len(buf, pos))),
    }
}

#[via_fn]
proof fn events_fit_shrinks(buf: Seq<u8>) {
    lemma_boundary(buf);
}

/// A pattern that is found in the front of a buffer is found there in the whole.
proof fn lemma_find_in_front(a: Seq<u8>, b: Seq<u8>, pattern: Seq<u8>, from: int)
    requires
        0 <= from,
        find_bytes(a, pattern, from) is Some,
    ensures
        find_bytes(a + b, pattern, from) == find_bytes(a, pattern, from),
    decreases a.len() + 1 - from,
{
    assert((a + b).subrange(from, from + pattern.len()) =~= a.subrange(
        from,
        from + pattern.len(),
    ));
    if a.subrange(from, from + pattern.len()) != pattern {
        lemma_find_in_front(a, b, pattern, from + 1);
    }
}

/// A pattern that stands at an index is found, there or before.
proof fn lemma_find_present(buf: Seq<u8>, pattern: Seq<u8>, from: int, i: int)
    requires
        0 <= from <= i,
        i + pattern.len() <= buf.len(),
        buf.subrange(i, i + pattern.len()) == pattern,
    ensures
        find_bytes(buf, pattern, from) is Some,
    decreases i - from,
{
    if from < i && buf.subrange(from, from + pattern.len()) != pattern {
        lemma_find_present(buf, pattern, from + 1, i);
    }
}

/// Without carriage returns only narrow empty lines end an event.
proof fn lemma_narrow(buf: Seq<u8>)
    requires
        no_returns(buf),
    ensures
        boundary(buf) == find_bytes(buf, narrow_gap(), 0),
        boundary(buf) matches Some(pos) ==> gap_len(buf, pos) == 2 && 0 <= pos && pos + 2
            <= buf.len(),
{
    lemma_find_bytes(buf, wide_gap(), 0);
    lemma_find_bytes(buf, narrow_gap(), 0);
    if let Some(i) = find_bytes(buf, wide_gap(), 0) {
        assert(buf.subrange(i, i + 4)[0] == 13);
        assert(buf[i] == 13);
    }
    if let Some(pos) = boundary(buf) {
        if pos + 4 <= buf.len() && buf.subrange(pos, pos + 4) == wide_gap() {
            assert(buf.subrange(pos, pos + 4)[0] == 13);
            assert(buf[pos] == 13);
        }
    }
}

/// The end of the first event stays where it is when more bytes come.
proof fn lemma_boundary_in_front(a: Seq<u8>, b: Seq<u8>)
    requires
        no_returns(a + b),
        boundary(a) is Some,
    ensures
        no_returns(a),
        boundary(a + b) == boundary(a),
        gap_len(a, boundary(a)->0) == 2,
        gap_len(a + b, boundary(a)->0) == 2,
        0 <= boundary(a)->0,
        boundary(a)->0 + 2 <= a.len(),
        (a + b).take(boundary(a)->0) == a.take(boundary(a)->0),
        (a + b).skip(boundary(a)->0 + 2) == a.skip(boundary(a)->0 + 2) + b,
{
    lemma_front_has_no_returns(a, b);
    lemma_narrow(a);
    lemma_narrow(a + b);
    lemma_find_in_front(a, b, narrow_gap(), 0);
    let pos = boundary(a)->0;
    assert((a + b).take(pos) =~= a.take(pos));
    assert((a + b).skip(pos + 2) =~= a.skip(pos + 2) + b);
}

proof fn lemma_front_has_no_returns(a: Seq<u8>, b: Seq<u8>)
    requires
        no_returns(a + b),
    ensures
        no_returns(a),
{
    assert forall|i: int| 0 <= i < a.len() implies #[trigger] a[i] != 13 by {
        assert((a + b)[i] == a[i]);
    }
}

/// Reading has ended in the middle of two lists where it has in one of them.
proof fn lemma_broke_add(a: Seq<OutputView>, b: Seq<OutputView>)
    ensures
        broke(a + b) == (broke(a) || broke(b)),
{
    if broke(a) {
        let i = choose|i: int| 0 <= i < a.len() && a[i] == OutputView::Broken;
        assert((a + b)[i] == OutputView::Broken);
    }
    if broke(b) {
        let i = choose|i: int| 0 <= i < b.len() && b[i] == OutputView::Broken;
        assert((a + b)[a.len() + i] == OutputView::Broken);
    }
    if broke(a + b) {
        let i = choose|i: int| 0 <= i < (a + b).len() && (a + b)[i] == OutputView::Broken;
        if i < a.len() {
            assert(a[i] == OutputView::Broken);
        } else {
            assert(b[i - a.len()] == OutputView::Broken);
        }
    }
}

proof fn lemma_messages_add(a: Seq<OutputView>, b: Seq<OutputView>)
    ensures
        messages(a + b) == messages(a) + messages(b),
    decreases b.len(),
{
    if b.len() == 0 {
        assert(a + b =~= a);
        assert(messages(a) + messages(b) =~= messages(a));
    } else {
        assert((a + b).drop_last() =~= a + b.drop_last());
        lemma_messages_add(a, b.drop_last());
        assert(messages(a + b) =~= messages(a) + messages(b));
    }
}

/// Bytes that come later go on where the earlier ones left off.
proof fn lemma_drained_add(topic: Seq<char>, a: Seq<u8>, b: Seq<u8>)
    requires
        no_returns(a + b),
    ensures
        broke(drained(topic, a).0) ==> drained(topic, a + b).0 == drained(topic, a).0,
        !broke(drained(topic, a).0) ==> drained(topic, a + b) == (
            drained(topic, a).0 + drained(topic, drained(topic, a).1 + b).0,
            drained(topic, drained(topic, a).1 + b).1,
        ),
    decreases a.len(),
{
    match boundary(a) {
        None => {
            assert(drained(topic, a).0 + drained(topic, a + b).0 =~= drained(topic, a + b).0);
        },
        Some(pos) => {
            lemma_boundary_in_front(a, b);
            let event = lossy(a.take(pos));
            let first = event_outputs(topic, event, sse_message(event));
            if !broke(first) {
                let rest = a.skip(pos + 2);
                assert(no_returns(rest + b)) by {
                    assert forall|i: int| 0 <= i < (rest + b).len() implies #[trigger] (rest
                        + b)[i] != 13 by {
                        assert((a + b)[pos + 2 + i] == (rest + b)[i]);
                    }
                }
                lemma_drained_add(topic, rest, b);
                lemma_broke_add(first, drained(topic, rest).0);
                let left = drained(topic, rest).1;
                assert(first + (drained(topic, rest).0 + drained(topic, left + b).0) =~= (first
                    + drained(topic, rest).0) + drained(topic, left + b).0);
            }
        },
    }
}

/// What is left of the front of short events is short.
proof fn lemma_rest_fits(topic: Seq<char>, a: Seq<u8>, b: Seq<u8>)
    requires
        no_returns(a + b),
        events_fit(a + b),
        !broke(drained(topic, a).0),
    ensures
        drained(topic, a).1.len() <= 16384,
    decreases a.len(),
{
    match boundary(a) {
        None => {
            lemma_narrow(a + b);
            lemma_front_has_no_returns(a, b);
            lemma_narrow(a);
            if let Some(pos) = boundary(a + b) {
                lemma_find_bytes(a + b, narrow_gap(), 0);
                if pos + 2 <= a.len() {
                    assert(a.subrange(pos, pos + 2) =~= (a + b).subrange(pos, pos + 2));
                    lemma_find_present(a, narrow_gap(), 0, pos);
                }
            }
        },
        Some(pos) => {
            lemma_boundary_in_front(a, b);
            let event = lossy(a.take(pos));
            let first = event_outputs(topic, event, sse_message(event));
            let rest = a.skip(pos + 2);
            assert(no_returns(rest + b)) by {
                assert forall|i: int| 0 <= i < (rest + b).len() implies #[trigger] (rest + b)[i]
                    != 13 by {
                    assert((a + b)[pos + 2 + i] == (rest + b)[i]);
                }
            }
            lemma_broke_add(first, drained(topic, rest).0);
            lemma_rest_fits(topic, rest, b);
        },
    }
}

/// Lines for the log are no messages.
proof fn lemma_log_is_no_message(line: Seq<char>)
    ensures
        messages(seq![OutputView::Log(line)]) == Seq::<MessageView>::empty(),
        !broke(seq![OutputView::Log(line)]),
{
    let list = seq![OutputView::Log(line)];
    assert(list.drop_last() =~= Seq::<OutputView>::empty());
    assert(messages(list.drop_last()) =~= Seq::<MessageView>::empty());
    assert(list.last() == OutputView::Log(line));
}

/// What a chunk brings, but for the log, is what the complete events bring.
proof fn lemma_chunk_messages(state: StreamView, chunk: Seq<u8>)
    ensures
        ({
            let (next, found) = chunk_step(state, chunk);
            let (events, rest) = drained(state.topic, state.buffer + chunk);
            &&& messages(found) == messages(events)
            &&& broke(found) == broke(events)
            &&& next.topic == state.topic
            &&& !broke(events) ==> next.buffer == limited(rest)
        }),
{
    let all = state.buffer + chunk;
    let (events, rest) = drained(state.topic, all);
    let before = chunk_log(state.topic, state.chunks + 1, chunk.len(), all.len());
    let behind = overflow_log(state.topic, rest);
    if before.len() > 0 {
        lemma_log_is_no_message(before[0]->Log_0);
        assert(before =~= seq![OutputView::Log(before[0]->Log_0)]);
    }
    if behind.len() > 0 {
        lemma_log_is_no_message(behind[0]->Log_0);
        assert(behind =~= seq![OutputView::Log(behind[0]->Log_0)]);
    }
    lemma_messages_add(before, events);
    lemma_messages_add(before + events, behind);
    lemma_broke_add(before, events);
    lemma_broke_add(before + events, behind);
    assert(messages(before) + messages(events) =~= messages(events));
    assert(messages(before) + messages(events) + messages(behind) =~= messages(events));
}

/// Chunks bring the messages that their bytes together bring.
proof fn lemma_chunks_messages(state: StreamView, chunks: Seq<Seq<u8>>, after: Seq<u8>)
    requires
        state.buffer.len() == 0,
        no_returns(joined_bytes(chunks) + after),
        events_fit(joined_bytes(chunks) + after),
    ensures
        ({
            let (next, found) = chunks_read(state, chunks);
            let (events, rest) = drained(state.topic, joined_bytes(chunks));
            &&& messages(found) == messages(events)
            &&& broke(found) == broke(events)
            &&& next.topic == state.topic
            &&& !broke(events) ==> next.buffer == rest
        }),
    decreases chunks.len(),
{
    let topic = state.topic;
    let all = joined_bytes(chunks);
    if chunks.len() == 0 {
        assert(state.buffer =~= all);
        assert(boundary(all) is None) by {
            lemma_boundary(all);
        }
    } else {
        let front = joined_bytes(chunks.drop_last());
        let last = chunks.last();
        assert(all + after =~= front + (last + after));
        lemma_chunks_messages(state, chunks.drop_last(), last + after);
        let (before, found) = chunks_read(state, chunks.drop_last());
        lemma_front_has_no_returns(all, after);
        lemma_drained_add(topic, front, last);
        if !broke(found) {
            lemma_chunk_messages(before, last);
            let (more, rest) = drained(topic, before.buffer + last);
            lemma_messages_add(found, chunk_step(before, last).1);
            lemma_messages_add(drained(topic, front).0, more);
            lemma_broke_add(found, chunk_step(before, last).1);
            lemma_broke_add(drained(topic, front).0, more);
            if !broke(drained(topic, all).0) {
                lemma_rest_fits(topic, all, after);
            }
        }
    }
}

/// Where a stream is cut into chunks changes no message: the same bytes, without
/// carriage returns and without an event that is too long to be kept, bring the
/// same messages in the same order.
pub proof fn law_cuts_change_no_message(
    state: StreamView,
    chunks: Seq<Seq<u8>>,
    others: Seq<Seq<u8>>,
)
    requires
        state.buffer.len() == 0,
        joined_bytes(chunks) == joined_bytes(others),
        no_returns(joined_bytes(chunks)),
        events_fit(joined_bytes(chunks)),
    ensures
        messages(chunks_read(state, chunks).1) == messages(chunks_read(state, others).1),
        messages(chunks_read(state, chunks).1) == messages(
            drained(state.topic, joined_bytes(chunks)).0,
        ),
{
    let none = Seq::<u8>::empty();
    assert(joined_bytes(chunks) + none =~= joined_bytes(chunks));
    lemma_chunks_messages(state, chunks, none);
    lemma_chunks_messages(state, others, none);
}

/// What came of chunks as events of a stream. Nothing more is told to a stream that
/// was given up.
pub open spec fn chunks_heard(state: StreamView, chunks: Seq<Vec<u8>>) -> (
    StreamView,
    Seq<OutputView>,
    ListenNext,
)
    decreases chunks.len(),
{
    if chunks.len() == 0 {
        (state, Seq::empty(), ListenNext::ReadStream)
    } else {
        let (before, found, next) = chunks_heard(state, chunks.drop_last());
        if next == ListenNext::GiveUp {
            (before, found, next)
        } else {
            let (after, more, then_next) = listen_step(before, ListenEvent::Chunk(chunks.last()));
            (after, found + more, then_next)
        }
    }
}

/// The bytes of each of several chunks.
pub open spec fn chunk_views(chunks: Seq<Vec<u8>>) -> Seq<Seq<u8>> {
    Seq::new(chunks.len(), |i: int| chunks[i]@)
}

proof fn lemma_heard_as_read(state: StreamView, chunks: Seq<Vec<u8>>)
    ensures
        ({
            let (after, found, next) = chunks_heard(state, chunks);
            &&& (after, found) == chunks_read(state, chunk_views(chunks))
            &&& next == if broke(found) {
                ListenNext::GiveUp
            } else {
                ListenNext::ReadStream
            }
        }),
    decreases chunks.len(),
{
    if chunks.len() > 0 {
        let front = chunks.drop_last();
        lemma_heard_as_read(state, front);
        assert(chunk_views(chunks).drop_last() =~= chunk_views(front));
        assert(chunk_views(chunks).last() == chunks.last()@);
        let (before, found, next) = chunks_heard(state, front);
        if next != ListenNext::GiveUp {
            lemma_broke_add(found, chunk_step(before, chunks.last()@).1);
        }
    }
}

proof fn lemma_messages_source(list: Seq<OutputView>, k: int)
    requires
        0 <= k < messages(list).len(),
    ensures
        exists|i: int|
            0 <= i < list.len() && #[trigger] list[i] == OutputView::Message(messages(list)[k]),
    decreases list.len(),
{
    let front = list.drop_last();
    if k < messages(front).len() {
        lemma_messages_source(front, k);
        let i = choose|i: int|
            0 <= i < front.len() && #[trigger] front[i] == OutputView::Message(messages(front)[k]);
        assert(list[i] == OutputView::Message(messages(list)[k]));
    } else {
        assert(list[list.len() - 1] == OutputView::Message(messages(list)[k]));
    }
}

/// Two streams that a server has accepted, and that carry the same bytes, bring the
/// same messages in the same order, wherever the bytes are cut into chunks: those
/// of the events in the bytes. Every one carries the topic of the stream. The bytes
/// hold no carriage return, and no event is too long to be kept.
pub proof fn law_streams_bring_their_messages(
    state: StreamView,
    status: u16,
    line: String,
    chunks: Seq<Vec<u8>>,
    others: Seq<Vec<u8>>,
)
    requires
        is_success(status),
        joined_bytes(chunk_views(chunks)) == joined_bytes(chunk_views(others)),
        no_returns(joined_bytes(chunk_views(chunks))),
        events_fit(joined_bytes(chunk_views(chunks))),
    ensures
        ({
            let opened = listen_step(state, ListenEvent::Replied { status, line }).0;
            let heard = messages(chunks_heard(opened, chunks).1);
            &&& heard == messages(chunks_heard(opened, others).1)
            &&& heard == messages(drained(state.topic, joined_bytes(chunk_views(chunks))).0)
            &&& forall|k: int|
                0 <= k < heard.len() ==> (#[trigger] heard[k]).topic == state.topic
        }),
{
    let opened = listen_step(state, ListenEvent::Replied { status, line }).0;
    let all = joined_bytes(chunk_views(chunks));
    lemma_heard_as_read(opened, chunks);
    lemma_heard_as_read(opened, others);
    law_cuts_change_no_message(opened, chunk_views(chunks), chunk_views(others));
    let found = drained(state.topic, all).0;
    assert forall|k: int| 0 <= k < messages(found).len() implies (#[trigger] messages(
        found,
    )[k]).topic == state.topic by {
        lemma_messages_source(found, k);
        let i = choose|i: int|
            0 <= i < found.len() && #[trigger] found[i] == OutputView::Message(messages(found)[k]);
        law_messages_carry_their_topic(state.topic, all, i);
    }
}

// ---------------------------------------------------------------------------
// What events say
// ---------------------------------------------------------------------------

/// Whether a line is a beginning and something behind it.
pub open spec fn begins_with(line: Seq<char>, beginning: Seq<char>) -> bool {
    exists|rest: Seq<char>| line == #[trigger] (beginning + rest)
}

/// Whether the text of an event is made of lines, each with blanks behind it and none
/// of them blank.
pub open spec fn written_as(
    event: Seq<char>,
    raw: Seq<Seq<char>>,
    lines: Seq<Seq<char>>,
) -> bool {
    &&& raw.len() == lines.len()
    &&& raw.len() > 0
    &&& event == join(raw, seq!['\n'])
    &&& forall|k: int, i: int|
        0 <= k < raw.len() && 0 <= i < raw[k].len() ==> #[trigger] raw[k][i] != '\n'
    &&& forall|k: int|
        0 <= k < raw.len() ==> {
            &&& 0 < (#[trigger] lines[k]).len() <= raw[k].len()
            &&& raw[k].take(lines[k].len() as int) == lines[k]
            &&& !is_space(lines[k].last())
        }
    &&& forall|k: int, i: int|
        0 <= k < raw.len() && lines[k].len() <= i < raw[k].len() ==> is_space(
            #[trigger] raw[k][i],
        )
}

/// Whether indices go up and lie below a bound.
pub open spec fn goes_up(at: Seq<int>, bound: int) -> bool {
    &&& forall|k: int| 0 <= k < at.len() ==> 0 <= #[trigger] at[k] < bound
    &&& forall|j: int, k: int| 0 <= j < k < at.len() ==> #[trigger] at[j] < #[trigger] at[k]
}

/// Whether lines carry data: the lines at these indices begin with `data: ` and have
/// the data behind that; no other line begins so.
pub open spec fn carries(lines: Seq<Seq<char>>, at: Seq<int>, data: Seq<Seq<char>>) -> bool {
    &&& at.len() == data.len()
    &&& goes_up(at, lines.len() as int)
    &&& forall|k: int| 0 <= k < at.len() ==> lines[#[trigger] at[k]] == "data: "@ + data[k]
    &&& forall|i: int|
        0 <= i < lines.len() && !at.contains(i) ==> !begins_with(#[trigger] lines[i], "data: "@)
}

/// Whether lines name a kind: the last line that begins with `event: ` has it behind
/// that. Lines of which none begins so name none.
pub open spec fn names(lines: Seq<Seq<char>>, kind: Option<Seq<char>>) -> bool {
    match kind {
        Some(word) => exists|i: int|
            0 <= i < lines.len() && #[trigger] lines[i] == "event: "@ + word && forall|j: int|
                i < j < lines.len() ==> !begins_with(#[trigger] lines[j], "event: "@),
        None => forall|j: int|
            0 <= j < lines.len() ==> !begins_with(#[trigger] lines[j], "event: "@),
    }
}

/// A line begins with a text if and only if it starts with it.
proof fn lemma_begins(line: Seq<char>, beginning: Seq<char>)
    ensures
        begins_with(line, beginning) <==> starts_with(line, beginning),
{
    if begins_with(line, beginning) {
        let rest = choose|rest: Seq<char>| line == #[trigger] (beginning + rest);
        law_containing_is_having_a_part(line, beginning, Seq::empty(), rest);
    }
    if starts_with(line, beginning) {
        law_containing_is_having_a_part(line, beginning, Seq::empty(), Seq::empty());
        assert(line == beginning + line.skip(beginning.len() as int));
    }
}

/// The lines of an event are its lines, but for the blanks behind them.
proof fn lemma_event_lines(event: Seq<char>, raw: Seq<Seq<char>>, written: Seq<Seq<char>>)
    requires
        written_as(event, raw, written),
    ensures
        lines(event).len() == written.len(),
        forall|k: int| 0 <= k < written.len() ==> trim_end(#[trigger] lines(event)[k]) == written[k],
{
    let n = raw.len() as int;
    assert(0 < written[n - 1].len() <= raw[n - 1].len());
    law_lines_put_together_come_back(raw);
    let found = lines(event);
    assert forall|k: int| 0 <= k < n implies trim_end(#[trigger] found[k]) == written[k] by {
        let line = written[k];
        let pad = raw[k].skip(line.len() as int);
        assert(raw[k] =~= raw[k].take(line.len() as int) + pad);
        assert forall|i: int| 0 <= i < pad.len() implies is_space(#[trigger] pad[i]) by {
            assert(pad[i] == raw[k][line.len() + i]);
        }
        law_blanks_behind_do_not_count(line, pad);
        if k < n - 1 && raw[k].len() > 0 && raw[k].last() == '\r' {
            if pad.len() == 0 {
                assert(raw[k].last() == line.last());
                assert(is_space('\r'));
            }
            let less = pad.drop_last();
            assert(raw[k].drop_last() =~= line + less);
            assert forall|i: int| 0 <= i < less.len() implies is_space(#[trigger] less[i]) by {
                assert(less[i] == pad[i]);
            }
            law_blanks_behind_do_not_count(line, less);
        }
    }
}

/// The data of lines are those that they carry.
proof fn lemma_data_lines(
    found: Seq<Seq<char>>,
    written: Seq<Seq<char>>,
    at: Seq<int>,
    data: Seq<Seq<char>>,
)
    requires
        found.len() == written.len(),
        forall|k: int| 0 <= k < written.len() ==> trim_end(#[trigger] found[k]) == written[k],
        carries(written, at, data),
    ensures
        data_lines(found) == data,
    decreases found.len(),
{
    let n = found.len() as int;
    if n == 0 {
        assert(goes_up(at, written.len() as int));
        if at.len() > 0 {
            assert(at[0] < written.len());
        }
        assert(data =~= Seq::<Seq<char>>::empty());
    } else {
        let line = written[n - 1];
        let fewer = found.drop_last();
        let less = written.drop_last();
        lemma_begins(line, "data: "@);
        lemma_begins(line, "event: "@);
        assert(trim_end(found[n - 1]) == line);
        if at.contains(n - 1) {
            let m = at.len() as int;
            let k = choose|k: int| 0 <= k < at.len() && at[k] == n - 1;
            if k < m - 1 {
                assert(at[k] < at[m - 1]);
                assert(at[m - 1] < n);
            }
            let at2 = at.drop_last();
            let data2 = data.drop_last();
            assert forall|i: int| 0 <= i < less.len() && !at2.contains(i) implies !begins_with(
                #[trigger] less[i],
                "data: "@,
            ) by {
                if at.contains(i) {
                    let j = choose|j: int| 0 <= j < at.len() && at[j] == i;
                    assert(at2[j] == i);
                }
                assert(less[i] == written[i]);
            }
            assert forall|j: int| 0 <= j < at2.len() implies 0 <= #[trigger] at2[j]
                < less.len() by {
                assert(at2[j] == at[j]);
                assert(at[j] < at[m - 1]);
            }
            assert forall|j: int| 0 <= j < at2.len() implies less[#[trigger] at2[j]] == "data: "@
                + data2[j] by {
                assert(at2[j] == at[j]);
            }
            lemma_data_lines(fewer, less, at2, data2);
            assert(line == "data: "@ + data[m - 1]) by {
                assert(at[m - 1] == n - 1);
            }
            assert(begins_with(line, "data: "@));
            reveal_strlit("data: ");
            reveal_strlit("event: ");
            assert(line[0] == 'd');
            if starts_with(line, "event: "@) {
                assert(line.subrange(0, 7)[0] == 'e');
            }
            assert(line.skip(6) =~= data[m - 1]);
            assert(data2.push(data[m - 1]) =~= data);
        } else {
            assert forall|i: int| 0 <= i < less.len() && !at.contains(i) implies !begins_with(
                #[trigger] less[i],
                "data: "@,
            ) by {
                assert(less[i] == written[i]);
            }
            assert forall|j: int| 0 <= j < at.len() implies 0 <= #[trigger] at[j] < less.len() by {
                assert(at.contains(at[j]));
            }
            assert forall|j: int| 0 <= j < at.len() implies less[#[trigger] at[j]] == "data: "@
                + data[j] by {
            }
            lemma_data_lines(fewer, less, at, data);
        }
    }
}

/// The kind of lines is the one that they name.
proof fn lemma_event_type(
    found: Seq<Seq<char>>,
    written: Seq<Seq<char>>,
    kind: Option<Seq<char>>,
)
    requires
        found.len() == written.len(),
        forall|k: int| 0 <= k < written.len() ==> trim_end(#[trigger] found[k]) == written[k],
        names(written, kind),
    ensures
        event_type(found) == match kind {
            Some(word) => Some(trim(word)),
            None => None,
        },
    decreases found.len(),
{
    let n = found.len() as int;
    if n > 0 {
        let line = written[n - 1];
        assert(trim_end(found[n - 1]) == line);
        lemma_begins(line, "event: "@);
        let fewer = found.drop_last();
        let less = written.drop_last();
        if begins_with(line, "event: "@) {
            let word = kind->0;
            let i = choose|i: int|
                0 <= i < written.len() && #[trigger] written[i] == "event: "@ + word
                    && forall|j: int|
                    i < j < written.len() ==> !begins_with(#[trigger] written[j], "event: "@);
            assert(i == n - 1);
            reveal_strlit("event: ");
            assert(line.skip(7) =~= word);
        } else {
            assert(names(less, kind)) by {
                match kind {
                    Some(word) => {
                        let i = choose|i: int|
                            0 <= i < written.len() && #[trigger] written[i] == "event: "@ + word
                                && forall|j: int|
                                i < j < written.len() ==> !begins_with(
                                    #[trigger] written[j],
                                    "event: "@,
                                );
                        if i == n - 1 {
                            assert(line == "event: "@ + word);
                        }
                        assert(less[i] == "event: "@ + word);
                        assert forall|j: int| i < j < less.len() implies !begins_with(
                            #[trigger] less[j],
                            "event: "@,
                        ) by {
                            assert(less[j] == written[j]);
                        }
                    },
                    None => {
                        assert forall|j: int| 0 <= j < less.len() implies !begins_with(
                            #[trigger] less[j],
                            "event: "@,
                        ) by {
                            assert(less[j] == written[j]);
                        }
                    },
                }
            }
            lemma_event_type(fewer, less, kind);
        }
    }
}

/// An event is a message if and only if its kind is `message` or it names none, and it
/// carries data. What it says stands in all of its data, put one below the other.
pub proof fn law_message_events_carry_data(
    event: Seq<char>,
    raw: Seq<Seq<char>>,
    lines: Seq<Seq<char>>,
    at: Seq<int>,
    data: Seq<Seq<char>>,
    kind: Option<Seq<char>>,
)
    requires
        written_as(event, raw, lines),
        carries(lines, at, data),
        names(lines, kind),
    ensures
        message_data(event) is Some <==> (data.len() > 0 && (kind matches Some(word) ==> trim(word)
            == "message"@)),
        message_data(event) matches Some(text) ==> text == join(data, seq!['\n']),
{
    lemma_event_lines(event, raw, lines);
    lemma_data_lines(crate::text::lines(event), lines, at, data);
    lemma_event_type(crate::text::lines(event), lines, kind);
    reveal_strlit("\n");
    assert("\n"@ =~= seq!['\n']);
}

/// Whether texts are those of the strings among items: the items at these indices are
/// the strings, and no other item is one.
pub open spec fn are_strings(items: Seq<JsonView>, at: Seq<int>, texts: Seq<Seq<char>>) -> bool {
    &&& at.len() == texts.len()
    &&& goes_up(at, items.len() as int)
    &&& forall|k: int| 0 <= k < at.len() ==> items[#[trigger] at[k]] == JsonView::Str(texts[k])
    &&& forall|i: int| 0 <= i < items.len() && !at.contains(i) ==> !(#[trigger] items[i] is Str)
}

/// The texts among items are those of its strings.
proof fn lemma_string_items(items: Seq<JsonView>, at: Seq<int>, texts: Seq<Seq<char>>)
    requires
        are_strings(items, at, texts),
    ensures
        string_items(items) == texts,
    decreases items.len(),
{
    let n = items.len() as int;
    if n == 0 {
        assert(goes_up(at, items.len() as int));
        if at.len() > 0 {
            assert(at[0] < items.len());
        }
        assert(texts =~= Seq::<Seq<char>>::empty());
    } else {
        let less = items.drop_last();
        if at.contains(n - 1) {
            let m = at.len() as int;
            let k = choose|k: int| 0 <= k < at.len() && at[k] == n - 1;
            if k < m - 1 {
                assert(at[k] < at[m - 1]);
                assert(at[m - 1] < n);
            }
            let at2 = at.drop_last();
            let texts2 = texts.drop_last();
            assert forall|i: int| 0 <= i < less.len() && !at2.contains(i) implies !(
            #[trigger] less[i] is Str) by {
                if at.contains(i) {
                    let j = choose|j: int| 0 <= j < at.len() && at[j] == i;
                    assert(at2[j] == i);
                }
                assert(less[i] == items[i]);
            }
            assert forall|j: int| 0 <= j < at2.len() implies 0 <= #[trigger] at2[j]
                < less.len() by {
                assert(at2[j] == at[j]);
                assert(at[j] < at[m - 1]);
            }
            assert forall|j: int| 0 <= j < at2.len() implies less[#[trigger] at2[j]]
                == JsonView::Str(texts2[j]) by {
                assert(at2[j] == at[j]);
            }
            lemma_string_items(less, at2, texts2);
            assert(items.last() == JsonView::Str(texts[m - 1])) by {
                assert(at[m - 1] == n - 1);
            }
            assert(texts2.push(texts[m - 1]) =~= texts);
        } else {
            assert forall|i: int| 0 <= i < less.len() && !at.contains(i) implies !(
            #[trigger] less[i] is Str) by {
                assert(less[i] == items[i]);
            }
            assert forall|j: int| 0 <= j < at.len() implies 0 <= #[trigger] at[j] < less.len() by {
                assert(at.contains(at[j]));
            }
            assert forall|j: int| 0 <= j < at.len() implies less[#[trigger] at[j]]
                == JsonView::Str(texts[j]) by {
            }
            assert(!(items[n - 1] is Str));
            lemma_string_items(less, at, texts);
        }
    }
}

/// Whether a message says what a document says: its title and its text are those under
/// `title` and `message`, and empty where there is no text; its tags are the strings
/// under `tags`, with a comma and a space between them, and empty where there are none.
pub open spec fn says_what(message: MessageView, doc: JsonView) -> bool {
    &&& forall|title: Seq<char>| #[trigger] says(doc, "title"@, title) ==> message.title == title
    &&& (forall|title: Seq<char>| !says(doc, "title"@, title)) ==> message.title.len() == 0
    &&& forall|text: Seq<char>| #[trigger] says(doc, "message"@, text) ==> message.message == text
    &&& (forall|text: Seq<char>| !says(doc, "message"@, text)) ==> message.message.len() == 0
    &&& forall|items: Seq<JsonView>, at: Seq<int>, texts: Seq<Seq<char>>|
        has_under(doc, "tags"@, JsonView::Arr(items)) && #[trigger] are_strings(items, at, texts)
            ==> message.tags == join(texts, seq![',', ' '])
    &&& (forall|items: Seq<JsonView>| !has_under(doc, "tags"@, JsonView::Arr(items)))
        ==> message.tags.len() == 0
}

/// What a document says as a message is what it says.
proof fn lemma_says_what(topic: Seq<char>, doc: JsonView)
    ensures
        ({
            let m = document_message(Some(doc));
            says_what(MessageView { topic, title: m.title, message: m.message, tags: m.tags }, doc)
        }),
{
    let p = document_message(Some(doc));
    let m = MessageView { topic, title: p.title, message: p.message, tags: p.tags };
    let none = Seq::<JsonView>::empty();
    law_members_are_read(doc, "title"@, p.title, none);
    law_members_are_read(doc, "message"@, p.message, none);
    law_members_are_read(doc, "tags"@, p.title, none);
    assert forall|title: Seq<char>| #[trigger] says(doc, "title"@, title) implies m.title
        == title by {
        law_members_are_read(doc, "title"@, title, none);
    }
    assert forall|text: Seq<char>| #[trigger] says(doc, "message"@, text) implies m.message
        == text by {
        law_members_are_read(doc, "message"@, text, none);
    }
    reveal_strlit(", ");
    assert(", "@ =~= seq![',', ' ']);
    assert forall|items: Seq<JsonView>, at: Seq<int>, texts: Seq<Seq<char>>|
        has_under(doc, "tags"@, JsonView::Arr(items)) && #[trigger] are_strings(items, at, texts)
        implies m.tags == join(texts, seq![',', ' ']) by {
        law_members_are_read(doc, "tags"@, p.title, items);
        lemma_string_items(items, at, texts);
    }
}

/// Whether bytes end with the empty line that ends an event, and hold none before: one
/// with carriage returns; or, where the whole buffer holds none of those, one without.
pub open spec fn ends_event(front: Seq<u8>, gap: Seq<u8>, rest: Seq<u8>) -> bool {
    let buf = front + gap + rest;
    ||| gap == seq![13u8, 10u8, 13u8, 10u8] && forall|k: int|
        0 <= k < front.len() ==> #[trigger] buf.subrange(k, k + 4) != seq![13u8, 10u8, 13u8, 10u8]
    ||| gap == seq![10u8, 10u8] && (forall|k: int|
        0 <= k <= buf.len() - 4 ==> #[trigger] buf.subrange(k, k + 4) != seq![
            13u8,
            10u8,
            13u8,
            10u8,
        ]) && forall|k: int|
        0 <= k < front.len() ==> #[trigger] buf.subrange(k, k + 2) != seq![10u8, 10u8]
}

/// A pattern is found where it first stands.
proof fn lemma_find_first_bytes(buf: Seq<u8>, pattern: Seq<u8>, from: int, i: int)
    requires
        0 <= from <= i,
        i + pattern.len() <= buf.len(),
        buf.subrange(i, i + pattern.len()) == pattern,
        forall|k: int| from <= k < i ==> #[trigger] buf.subrange(k, k + pattern.len()) != pattern,
    ensures
        find_bytes(buf, pattern, from) == Some(i),
    decreases i - from,
{
    if from < i {
        assert(buf.subrange(from, from + pattern.len()) != pattern);
        lemma_find_first_bytes(buf, pattern, from + 1, i);
    }
}

/// A pattern that stands nowhere is not found.
proof fn lemma_find_no_bytes(buf: Seq<u8>, pattern: Seq<u8>, from: int)
    requires
        0 <= from,
        forall|k: int|
            from <= k <= buf.len() - pattern.len() ==> #[trigger] buf.subrange(
                k,
                k + pattern.len(),
            ) != pattern,
    ensures
        find_bytes(buf, pattern, from) is None,
    decreases buf.len() + 1 - from,
{
    if from + pattern.len() <= buf.len() {
        assert(buf.subrange(from, from + pattern.len()) != pattern);
        lemma_find_no_bytes(buf, pattern, from + 1);
    }
}

/// The first event of a buffer ends where it ends.
proof fn lemma_first_event(front: Seq<u8>, gap: Seq<u8>, rest: Seq<u8>)
    requires
        ends_event(front, gap, rest),
    ensures
        boundary(front + gap + rest) == Some(front.len() as int),
        gap_len(front + gap + rest, front.len() as int) == gap.len(),
        (front + gap + rest).take(front.len() as int) == front,
        (front + gap + rest).skip((front.len() + gap.len()) as int) == rest,
{
    let buf = front + gap + rest;
    let n = front.len() as int;
    assert(buf.take(n) =~= front);
    assert(buf.skip((front.len() + gap.len()) as int) =~= rest);
    assert(buf.subrange(n, n + gap.len()) =~= gap);
    if gap == seq![13u8, 10u8, 13u8, 10u8] {
        assert(gap.len() == 4 && gap[0] == 13);
        assert forall|k: int| 0 <= k < n implies #[trigger] buf.subrange(
            k,
            k + wide_gap().len(),
        ) != wide_gap() by {
            if gap == seq![10u8, 10u8] {
                assert(gap[0] == 10);
            }
            assert(buf.subrange(k, k + 4) != seq![13u8, 10u8, 13u8, 10u8]);
        }
        lemma_find_first_bytes(buf, wide_gap(), 0, n);
    } else {
        assert(gap.len() == 2);
        assert forall|k: int|
            0 <= k <= buf.len() - wide_gap().len() implies #[trigger] buf.subrange(
            k,
            k + wide_gap().len(),
        ) != wide_gap() by {
            assert(buf.subrange(k, k + 4) != seq![13u8, 10u8, 13u8, 10u8]);
        }
        lemma_find_no_bytes(buf, wide_gap(), 0);
        assert forall|k: int| 0 <= k < n implies #[trigger] buf.subrange(
            k,
            k + narrow_gap().len(),
        ) != narrow_gap() by {
            assert(buf.subrange(k, k + 2) != seq![10u8, 10u8]);
        }
        lemma_find_first_bytes(buf, narrow_gap(), 0, n);
        if n + 4 <= buf.len() {
            assert(buf.subrange(n, n + 4) != seq![13u8, 10u8, 13u8, 10u8]);
        }
    }
}

/// A message event in the bytes of a stream is handed on: what comes out is a line for
/// the log and a message on the topic of the stream, which says what the JSON document
/// in the data lines of the event says; behind that comes what the other bytes bring,
/// and the same is left of them.
pub proof fn law_a_message_event_is_handed_on(
    topic: Seq<char>,
    front: Seq<u8>,
    gap: Seq<u8>,
    rest: Seq<u8>,
    raw: Seq<Seq<char>>,
    lines: Seq<Seq<char>>,
    at: Seq<int>,
    data: Seq<Seq<char>>,
    kind: Option<Seq<char>>,
    doc: JsonView,
)
    requires
        ends_event(front, gap, rest),
        written_as(lossy(front), raw, lines),
        carries(lines, at, data),
        names(lines, kind),
        data.len() > 0,
        kind matches Some(word) ==> trim(word) == "message"@,
        json_document(join(data, seq!['\n'])) == Some(doc),
    ensures
        ({
            let all = drained(topic, front + gap + rest);
            let others = drained(topic, rest);
            &&& all.1 == others.1
            &&& all.0.len() == 2 + others.0.len()
            &&& all.0.skip(2) == others.0
            &&& all.0[1] matches OutputView::Message(m) && m.topic == topic && says_what(m, doc)
                && all.0[0] == OutputView::Log(
                "ntfy: EVENT on '"@ + topic + "': title='"@ + m.title + "' msg_len="@ + decimal(
                    encode_utf8(m.message).len(),
                ),
            )
        }),
{
    let buf = front + gap + rest;
    lemma_first_event(front, gap, rest);
    let event = lossy(front);
    law_message_events_carry_data(event, raw, lines, at, data, kind);
    lemma_says_what(topic, doc);
    let first = event_outputs(topic, event, sse_message(event));
    assert(first.len() == 2);
    assert(!broke(first)) by {
        if broke(first) {
            let k = choose|k: int| 0 <= k < first.len() && first[k] == OutputView::Broken;
            assert(k == 0 || k == 1);
        }
    }
    let n = front.len() as int;
    assert(buf.skip(n + gap_len(buf, n)) == rest);
    assert(drained(topic, buf) == (first + drained(topic, rest).0, drained(topic, rest).1));
    assert((first + drained(topic, rest).0).skip(2) =~= drained(topic, rest).0);
}

/// A message event whose data are no JSON document brings a message that says nothing.
pub proof fn law_a_message_without_a_document_says_nothing(
    topic: Seq<char>,
    event: Seq<char>,
    raw: Seq<Seq<char>>,
    lines: Seq<Seq<char>>,
    at: Seq<int>,
    data: Seq<Seq<char>>,
    kind: Option<Seq<char>>,
)
    requires
        written_as(event, raw, lines),
        carries(lines, at, data),
        names(lines, kind),
        data.len() > 0,
        kind matches Some(word) ==> trim(word) == "message"@,
        json_document(join(data, seq!['\n'])) is None,
    ensures
        sse_message(event) matches Some(m) && m.title.len() == 0 && m.message.len() == 0
            && m.tags.len() == 0,
{
    law_message_events_carry_data(event, raw, lines, at, data, kind);
}

/// An event of another kind, or without data, brings no message.
pub proof fn law_other_events_bring_no_message(
    topic: Seq<char>,
    front: Seq<u8>,
    gap: Seq<u8>,
    rest: Seq<u8>,
    raw: Seq<Seq<char>>,
    lines: Seq<Seq<char>>,
    at: Seq<int>,
    data: Seq<Seq<char>>,
    kind: Option<Seq<char>>,
)
    requires
        ends_event(front, gap, rest),
        written_as(lossy(front), raw, lines),
        carries(lines, at, data),
        names(lines, kind),
        data.len() == 0 || (kind matches Some(word) && trim(word) != "message"@),
    ensures
        ({
            let all = drained(topic, front + gap + rest);
            let others = drained(topic, rest);
            ||| messages(all.0) == messages(others.0) && all.1 == others.1
            ||| broke(all.0) && messages(all.0).len() == 0
        }),
{
    let buf = front + gap + rest;
    lemma_first_event(front, gap, rest);
    let event = lossy(front);
    law_message_events_carry_data(event, raw, lines, at, data, kind);
    let first = event_outputs(topic, event, sse_message(event));
    let n = front.len() as int;
    assert(buf.skip(n + gap_len(buf, n)) == rest);
    reveal_with_fuel(messages, 2);
    assert(first.drop_last() =~= Seq::<OutputView>::empty() || first.len() == 0);
    assert(messages(first) =~= Seq::<MessageView>::empty());
    lemma_messages_add(first, drained(topic, rest).0);
    assert(messages(first) + messages(drained(topic, rest).0) =~= messages(
        drained(topic, rest).0,
    ));
}

/// Bytes without the end of an event bring nothing, and all of them are left.
pub proof fn law_incomplete_events_wait(topic: Seq<char>, buf: Seq<u8>)
    requires
        forall|k: int|
            0 <= k <= buf.len() - 4 ==> #[trigger] buf.subrange(k, k + 4) != seq![
                13u8,
                10u8,
                13u8,
                10u8,
            ],
        forall|k: int|
            0 <= k <= buf.len() - 2 ==> #[trigger] buf.subrange(k, k + 2) != seq![10u8, 10u8],
    ensures
        drained(topic, buf).0.len() == 0,
        drained(topic, buf).1 == buf,
{
    assert forall|k: int|
        0 <= k <= buf.len() - wide_gap().len() implies #[trigger] buf.subrange(
        k,
        k + wide_gap().len(),
    ) != wide_gap() by {
        assert(buf.subrange(k, k + 4) != seq![13u8, 10u8, 13u8, 10u8]);
    }
    assert forall|k: int|
        0 <= k <= buf.len() - narrow_gap().len() implies #[trigger] buf.subrange(
        k,
        k + narrow_gap().len(),
    ) != narrow_gap() by {
        assert(buf.subrange(k, k + 2) != seq![10u8, 10u8]);
    }
    lemma_find_no_bytes(buf, wide_gap(), 0);
    lemma_find_no_bytes(buf, narrow_gap(), 0);
}

/// Lines for the log are no messages.
proof fn lemma_no_messages(list: Seq<OutputView>)
    requires
        forall|i: int| 0 <= i < list.len() ==> #[trigger] list[i] is Log,
    ensures
        messages(list) == Seq::<MessageView>::empty(),
        !broke(list),
    decreases list.len(),
{
    if list.len() > 0 {
        lemma_no_messages(list.drop_last());
    }
}

/// A chunk brings the messages of the events that it completes, and nothing but lines
/// for the log beside them; the stream stays that of its server and topic.
pub proof fn law_a_chunk_brings_its_messages(state: StreamView, chunk: Vec<u8>)
    ensures
        ({
            let (after, found, next) = listen_step(state, ListenEvent::Chunk(chunk));
            let (all, rest) = drained(state.topic, state.buffer + chunk@);
            &&& messages(found) == messages(all)
            &&& after.server == state.server && after.topic == state.topic
            &&& broke(found) <==> broke(all)
            &&& next == if broke(found) {
                ListenNext::GiveUp
            } else {
                ListenNext::ReadStream
            }
            &&& !broke(found) && rest.len() <= 16384 ==> after.buffer == rest
            &&& !broke(found) && rest.len() > 16384 ==> after.buffer.len() == 8192 && after.buffer
                == rest.subrange(rest.len() - 8192, rest.len() as int)
        }),
{
    let all = state.buffer + chunk@;
    let (found, rest) = drained(state.topic, all);
    let before = chunk_log(state.topic, state.chunks + 1, chunk@.len(), all.len());
    let behind = overflow_log(state.topic, rest);
    lemma_no_messages(before);
    lemma_no_messages(behind);
    lemma_messages_add(before, found);
    lemma_messages_add(before + found, behind);
    lemma_broke_add(before, found);
    lemma_broke_add(before + found, behind);
    assert(Seq::<MessageView>::empty() + messages(found) =~= messages(found));
    assert(messages(found) + Seq::<MessageView>::empty() =~= messages(found));
    if rest.len() > 16384 {
        assert(limited(rest) =~= rest.subrange(rest.len() - 8192, rest.len() as int));
    }
}

/// A topic on a server is followed if and only if an enabled task waits for messages on
/// it.
pub proof fn law_awaited_topics_are_followed(
    tasks: Seq<TaskView>,
    server: Seq<char>,
    topic: Seq<char>,
)
    ensures
        subscriptions(tasks).contains((server, topic)) <==> exists|i: int|
            0 <= i < tasks.len() && (#[trigger] tasks[i]).enabled && (tasks[i].trigger matches
                TriggerView::Ntfy { server: s, topic: t, .. } && s == server && t == topic),
{
    law_each_topic_is_followed_once(tasks);
    if subscriptions(tasks).contains((server, topic)) {
        let i = choose|i: int|
            0 <= i < tasks.len() && #[trigger] awaited(tasks[i]) == Some((server, topic));
        assert(tasks[i].enabled);
    }
    if exists|i: int|
        0 <= i < tasks.len() && (#[trigger] tasks[i]).enabled && (tasks[i].trigger matches
            TriggerView::Ntfy { server: s, topic: t, .. } && s == server && t == topic) {
        let i = choose|i: int|
            0 <= i < tasks.len() && (#[trigger] tasks[i]).enabled && (tasks[i].trigger matches
                TriggerView::Ntfy { server: s, topic: t, .. } && s == server && t == topic);
        assert(awaited(tasks[i]) == Some((server, topic)));
    }
}

/// The topics are followed in the order in which tasks first wait for them: one more
/// task adds its topic at the end, or nothing.
pub proof fn law_topics_are_followed_in_order(tasks: Seq<TaskView>, task: TaskView)
    ensures
        subscriptions(tasks) == subscriptions(tasks.push(task)).take(
            subscriptions(tasks).len() as int,
        ),
        subscriptions(tasks.push(task)).len() <= subscriptions(tasks).len() + 1,
{
    assert(tasks.push(task).drop_last() =~= tasks);
    let before = subscriptions(tasks);
    let after = subscriptions(tasks.push(task));
    assert(after.take(before.len() as int) =~= before);
}

/// With new tasks, the listener follows their topics and no others, and says how many
/// unless there are none. A message goes on to the scheduler with all of its parts.
/// The listener ends where no command can come any more.
pub proof fn law_the_listener_hands_on(
    event: ListenerEvent,
    step: ListenerStep,
    server: Seq<char>,
    topic: Seq<char>,
)
    requires
        listens(event, step),
    ensures
        event matches ListenerEvent::Message(m) ==> (step matches ListenerStep::Forward(
            SchedulerCommand::NtfyReceived { topic: t, title, message, tags },
        ) && t@ == m.topic@ && title@ == m.title@ && message@ == m.message@ && tags@ == m.tags@),
        event == ListenerEvent::Command(None) ==> step is Stop,
        event matches ListenerEvent::Command(Some(NtfyListenerCommand::UpdateTasks(tasks))) ==> (
        step matches ListenerStep::Follow { subscriptions: list, log } && ((exists|k: int|
            0 <= k < list@.len() && (#[trigger] list@[k]).server@ == server && list@[k].topic@
                == topic) <==> exists|i: int|
            0 <= i < tasks@.len() && (#[trigger] tasks@[i]).enabled && (tasks@[i].trigger matches
                TriggerType::Ntfy { server: s, topic: t, .. } && s@ == server && t@ == topic)) && (
        match log {
            Some(text) => list@.len() > 0 && text@ == "ntfy: monitoring "@ + decimal(list@.len())
                + " topic(s)"@,
            None => list@.len() == 0,
        })),
{
    if let ListenerEvent::Command(Some(NtfyListenerCommand::UpdateTasks(tasks))) = event {
        let list = step->Follow_subscriptions;
        let views = task_views(tasks@);
        law_awaited_topics_are_followed(views, server, topic);
        if exists|k: int|
            0 <= k < list@.len() && (#[trigger] list@[k]).server@ == server && list@[k].topic@
                == topic {
            let k = choose|k: int|
                0 <= k < list@.len() && (#[trigger] list@[k]).server@ == server
                    && list@[k].topic@ == topic;
            assert(topics(list@)[k] == (server, topic));
            assert(subscriptions(views).contains((server, topic)));
            let i = choose|i: int|
                0 <= i < views.len() && (#[trigger] views[i]).enabled && (
                views[i].trigger matches TriggerView::Ntfy { server: s, topic: t, .. } && s
                    == server && t == topic);
            assert(views[i] == tasks@[i]@);
            assert(tasks@[i].enabled);
        }
        if exists|i: int|
            0 <= i < tasks@.len() && (#[trigger] tasks@[i]).enabled && (tasks@[i].trigger matches
                TriggerType::Ntfy { server: s, topic: t, .. } && s@ == server && t@ == topic) {
            let i = choose|i: int|
                0 <= i < tasks@.len() && (#[trigger] tasks@[i]).enabled && (
                tasks@[i].trigger matches TriggerType::Ntfy { server: s, topic: t, .. } && s@
                    == server && t@ == topic);
            assert(views[i] == tasks@[i]@);
            assert(views[i].enabled);
            assert(topics(list@).contains((server, topic)));
            let k = choose|k: int|
                0 <= k < topics(list@).len() && topics(list@)[k] == (server, topic);
            assert(list@[k].server@ == server);
        }
    }
}

/// The address of a stream: the server without the slashes behind it, the topic, and
/// `sse`.
pub proof fn law_streams_have_an_address(
    server: Seq<char>,
    slashes: Seq<char>,
    topic: Seq<char>,
)
    requires
        server.len() > 0 ==> server.last() != '/',
        forall|i: int| 0 <= i < slashes.len() ==> #[trigger] slashes[i] == '/',
    ensures
        stream_url(server + slashes, topic) == server + "/"@ + topic + "/sse"@,
{
    let whole = server + slashes;
    let k = law_trim_end_of_takes_all(whole, '/');
    let n = server.len() as int;
    if k < n {
        assert(whole[n - 1] == server.last());
    }
    if k > n {
        assert(whole[k - 1] == slashes[k - 1 - n]);
    }
    assert(whole.take(n) =~= server);
}

/// How a connection goes on: a stream is asked for and read from its start where the
/// server accepts it. Where the server refuses it, what the server says is read, and
/// the next try comes after half a minute; after ten seconds where no answer came, and
/// after five where the stream failed, ended or was silent for more than four minutes.
/// Only where there is no client the listener gives up.
pub proof fn law_connections_go_on(
    state: StreamView,
    e: String,
    line: String,
    status: u16,
    secs: u64,
)
    ensures
        listen_step(state, ListenEvent::Started).2 == ListenNext::Connect,
        listen_step(state, ListenEvent::ClientFailed(e)).2 == ListenNext::GiveUp,
        listen_step(state, ListenEvent::RequestFailed(e)).2 == ListenNext::ConnectAfter(10),
        200 <= status <= 299 ==> listen_step(
            state,
            ListenEvent::Replied { status, line },
        ).2 == ListenNext::ReadStream,
        200 <= status <= 299 ==> ({
            let opened = listen_step(state, ListenEvent::Replied { status, line }).0;
            opened.buffer.len() == 0 && opened.chunks == 0 && opened.server == state.server
                && opened.topic == state.topic
        }),
        !(200 <= status <= 299) ==> listen_step(
            state,
            ListenEvent::Replied { status, line },
        ).2 == ListenNext::ReadBody,
        listen_step(state, ListenEvent::ErrorBody(e)).2 == ListenNext::ConnectAfter(30),
        listen_step(state, ListenEvent::StreamFailed(e)).2 == ListenNext::ConnectAfter(5),
        listen_step(state, ListenEvent::StreamEnded).2 == ListenNext::ConnectAfter(5),
        secs > 240 ==> listen_step(state, ListenEvent::Silence { secs }).2
            == ListenNext::ConnectAfter(5),
        secs <= 240 ==> listen_step(state, ListenEvent::Silence { secs }).2
            == ListenNext::ReadStream,
        secs <= 240 ==> listen_step(state, ListenEvent::Silence { secs }).1.len() == 0,
{
}

/// What the log says of a connection.
pub proof fn law_the_log_tells_of_connections(
    state: StreamView,
    e: String,
    line: String,
    status: u16,
    secs: u64,
)
    ensures
        ({
            let t = state.topic;
            let again = OutputView::Log(
                "ntfy: disconnected from '"@ + t + "', reconnecting in 5s..."@,
            );
            &&& listen_step(state, ListenEvent::Started).1 == seq![
                OutputView::Log("ntfy: connecting to "@ + stream_url(state.server, t)),
            ]
            &&& listen_step(state, ListenEvent::ClientFailed(e)).1 == seq![
                OutputView::Log("ntfy: failed to create client: "@ + e@),
            ]
            &&& listen_step(state, ListenEvent::RequestFailed(e)).1 == seq![
                OutputView::Log("ntfy: request failed for '"@ + t + "': "@ + e@),
            ]
            &&& 200 <= status <= 299 ==> listen_step(
                state,
                ListenEvent::Replied { status, line },
            ).1 == seq![
                OutputView::Log("ntfy: HTTP "@ + line@ + " for '"@ + t + "'"@),
                OutputView::Log("ntfy: SSE stream started for '"@ + t + "'"@),
            ]
            &&& !(200 <= status <= 299) ==> listen_step(
                state,
                ListenEvent::Replied { status, line },
            ).1 == seq![OutputView::Log("ntfy: HTTP "@ + line@ + " for '"@ + t + "'"@)]
            &&& listen_step(state, ListenEvent::ErrorBody(e)).1 == seq![
                OutputView::Log("ntfy: error body: "@ + e@),
            ]
            &&& listen_step(state, ListenEvent::StreamFailed(e)).1 == seq![
                OutputView::Log("ntfy: stream error for '"@ + t + "': "@ + e@),
                again,
            ]
            &&& listen_step(state, ListenEvent::StreamEnded).1 == seq![
                OutputView::Log("ntfy: stream ended for '"@ + t + "'"@),
                again,
            ]
            &&& secs > 240 ==> listen_step(state, ListenEvent::Silence { secs }).1 == seq![
                OutputView::Log("ntfy: stale connection on '"@ + t + "', reconnecting"@),
                again,
            ]
        }),
{
    let t = state.topic;
    let again = OutputView::Log("ntfy: disconnected from '"@ + t + "', reconnecting in 5s..."@);
    assert(listen_step(state, ListenEvent::Started).1 =~= seq![
        OutputView::Log("ntfy: connecting to "@ + stream_url(state.server, t)),
    ]);
    assert(listen_step(state, ListenEvent::ClientFailed(e)).1 =~= seq![
        OutputView::Log("ntfy: failed to create client: "@ + e@),
    ]);
    assert(listen_step(state, ListenEvent::RequestFailed(e)).1 =~= seq![
        OutputView::Log("ntfy: request failed for '"@ + t + "': "@ + e@),
    ]);
    if 200 <= status <= 299 {
        assert(listen_step(state, ListenEvent::Replied { status, line }).1 =~= seq![
            OutputView::Log("ntfy: HTTP "@ + line@ + " for '"@ + t + "'"@),
            OutputView::Log("ntfy: SSE stream started for '"@ + t + "'"@),
        ]);
    } else {
        assert(listen_step(state, ListenEvent::Replied { status, line }).1 =~= seq![
            OutputView::Log("ntfy: HTTP "@ + line@ + " for '"@ + t + "'"@),
        ]);
    }
    assert(listen_step(state, ListenEvent::ErrorBody(e)).1 =~= seq![
        OutputView::Log("ntfy: error body: "@ + e@),
    ]);
    assert(listen_step(state, ListenEvent::StreamFailed(e)).1 =~= seq![
        OutputView::Log("ntfy: stream error for '"@ + t + "': "@ + e@),
        again,
    ]);
    assert(listen_step(state, ListenEvent::StreamEnded).1 =~= seq![
        OutputView::Log("ntfy: stream ended for '"@ + t + "'"@),
        again,
    ]);
    if secs > 240 {
        assert(listen_step(state, ListenEvent::Silence { secs }).1 =~= seq![
            OutputView::Log("ntfy: stale connection on '"@ + t + "', reconnecting"@),
            again,
        ]);
    }
}

/// Only a chunk brings messages, and only an acceptance and a chunk change a stream.
pub proof fn law_only_chunks_bring_messages(state: StreamView, event: ListenEvent)
    requires
        !(event is Chunk),
    ensures
        messages(listen_step(state, event).1).len() == 0,
        !(event is Replied) ==> listen_step(state, event).0 == state,
{
    lemma_no_messages(listen_step(state, event).1);
}

/// The chunks of a connection are counted. The log tells of the first three and of
/// every fiftieth: how long it is, and how much is kept with it.
pub proof fn law_chunks_are_counted(state: StreamView, chunk: Vec<u8>)
    requires
        state.chunks < u64::MAX,
    ensures
        ({
            let (after, found, next) = listen_step(state, ListenEvent::Chunk(chunk));
            let number = state.chunks + 1;
            let told = "ntfy: chunk #"@ + decimal(number as nat) + " for '"@ + state.topic + "', "@
                + decimal(chunk@.len()) + " bytes, buffer "@ + decimal(
                state.buffer.len() + chunk@.len(),
            ) + " bytes"@;
            &&& after.chunks == number
            &&& (number <= 3 || number % 50 == 0) ==> found.len() > 0 && found[0]
                == OutputView::Log(told)
        }),
{
}

/// What is dropped from a stream for want of room is told: the log says how many bytes.
pub proof fn law_dropped_bytes_are_told(state: StreamView, chunk: Vec<u8>)
    requires
        ({
            let (all, rest) = drained(state.topic, state.buffer + chunk@);
            !broke(all) && rest.len() > 16384
        }),
    ensures
        ({
            let (all, rest) = drained(state.topic, state.buffer + chunk@);
            let found = listen_step(state, ListenEvent::Chunk(chunk)).1;
            found.len() > 0 && found.last() == OutputView::Log(
                "ntfy: buffer overflow on '"@ + state.topic + "', dropping "@ + decimal(
                    (rest.len() - 8192) as nat,
                ) + " bytes"@,
            )
        }),
{
}

/// Of an event that is no message the log tells the kind that its first line with one
/// names, and its first line, sixty characters at most.
pub proof fn law_the_log_tells_of_other_events(
    topic: Seq<char>,
    parts: Seq<Seq<char>>,
    i: int,
    word: Seq<char>,
)
    requires
        parts.len() > 0,
        forall|k: int, j: int|
            0 <= k < parts.len() && 0 <= j < parts[k].len() ==> #[trigger] parts[k][j] != '\n'
                && parts[k][j] != '\r',
        parts.last().len() > 0,
        0 <= i < parts.len(),
        parts[i] == "event:"@ + word,
        forall|k: int| 0 <= k < i ==> !begins_with(trim_start(#[trigger] parts[k]), "event:"@),
    ensures
        ({
            let event = join(parts, seq!['\n']);
            let shown = if parts[0].len() <= 60 {
                parts[0]
            } else {
                parts[0].take(60)
            };
            &&& kind_readable(event)
            &&& other_event_log(topic, event) == "ntfy: non-message event on '"@ + topic
                + "': type='"@ + trim(word) + "' first_line='"@ + shown + "'"@
        }),
{
    let event = join(parts, seq!['\n']);
    law_lines_put_together_come_back(parts);
    let found = lines(event);
    assert forall|k: int| 0 <= k < parts.len() implies #[trigger] found[k] == parts[k] by {
        if parts[k].len() > 0 {
            assert(parts[k][parts[k].len() - 1] != '\r');
        }
        if k == parts.len() - 1 {
            assert(found[k] == found.last());
        }
    }
    assert(found =~= parts);
    reveal_strlit("event:");
    assert(trim_start(parts[i]) == parts[i]) by {
        assert(parts[i][0] == 'e');
    }
    lemma_begins(trim_start(parts[i]), "event:"@);
    assert(begins_with(parts[i], "event:"@));
    lemma_kind_line(found, 0, i);
    is_ascii_chars_encode_utf8("event:"@);
    law_cuts_take_nothing_away("event:"@, word);
}

/// The first line that names the kind is the one that is found.
proof fn lemma_kind_line(found: Seq<Seq<char>>, from: int, i: int)
    requires
        0 <= from <= i < found.len(),
        names_kind(found[i]),
        forall|k: int| from <= k < i ==> !begins_with(trim_start(#[trigger] found[k]), "event:"@),
    ensures
        kind_line(found, from) == Some(i),
    decreases i - from,
{
    if from < i {
        lemma_begins(trim_start(found[from]), "event:"@);
        lemma_kind_line(found, from + 1, i);
    }
}

/// A blank event brings nothing; any other event that is no message and whose kind can
/// be told brings one line for the log.
pub proof fn law_other_events_are_told(topic: Seq<char>, event: Seq<char>)
    requires
        sse_message(event) is None,
    ensures
        (forall|i: int| 0 <= i < event.len() ==> is_space(#[trigger] event[i])) ==> event_outputs(
            topic,
            event,
            sse_message(event),
        ).len() == 0,
        (exists|i: int| 0 <= i < event.len() && !is_space(#[trigger] event[i])) && kind_readable(
            event,
        ) ==> event_outputs(topic, event, sse_message(event)) == seq![
            OutputView::Log(other_event_log(topic, event)),
        ],
{
    let (a, b) = law_trim_takes_blanks(event);
    if forall|i: int| 0 <= i < event.len() ==> is_space(#[trigger] event[i]) {
        if a < b {
            assert(is_space(event[a]));
        }
    } else {
        let i = choose|i: int| 0 <= i < event.len() && !is_space(#[trigger] event[i]);
        assert(a <= i < b);
    }
}

/// An event without a line that names its kind is told as such.
pub proof fn law_events_without_a_kind_are_told(parts: Seq<Seq<char>>)
    requires
        parts.len() > 0,
        forall|k: int, j: int|
            0 <= k < parts.len() && 0 <= j < parts[k].len() ==> #[trigger] parts[k][j] != '\n'
                && parts[k][j] != '\r',
        parts.last().len() > 0,
        forall|k: int|
            0 <= k < parts.len() ==> !begins_with(trim_start(#[trigger] parts[k]), "event:"@),
    ensures
        event_kind(join(parts, seq!['\n'])) == "(no event type)"@,
        kind_readable(join(parts, seq!['\n'])),
{
    let event = join(parts, seq!['\n']);
    law_lines_put_together_come_back(parts);
    let found = lines(event);
    assert forall|k: int| 0 <= k < parts.len() implies #[trigger] found[k] == parts[k] by {
        if parts[k].len() > 0 {
            assert(parts[k][parts[k].len() - 1] != '\r');
        }
        if k == parts.len() - 1 {
            assert(found[k] == found.last());
        }
    }
    assert(found =~= parts);
    lemma_no_kind_line(found, 0);
}

/// Where no line names the kind, none is found.
proof fn lemma_no_kind_line(found: Seq<Seq<char>>, from: int)
    requires
        0 <= from <= found.len(),
        forall|k: int|
            from <= k < found.len() ==> !begins_with(trim_start(#[trigger] found[k]), "event:"@),
    ensures
        kind_line(found, from) is None,
    decreases found.len() - from,
{
    if from < found.len() {
        lemma_begins(trim_start(found[from]), "event:"@);
        lemma_no_kind_line(found, from + 1);
    }
}

/// What is said of a message is said of its parts.
pub proof fn law_messages_are_seen_whole(m: NtfyMessage)
    ensures
        m@.topic == m.topic@,
        m@.title == m.title@,
        m@.message == m.message@,
        m@.tags == m.tags@,
{
}

} // verus!
