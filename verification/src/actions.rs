//! What the runs of tasks ask for, and what they make of the answers.

use crate::cloudflare::bool_result;
use crate::cloudflare::dns_step;
use crate::cloudflare::list_start;
use crate::cloudflare::ClientView;
use crate::cloudflare::CloudflareClient;
use crate::cloudflare::CloudflareStep;
use crate::cloudflare::CloudflareStepView;
use crate::cloudflare::DnsUpdate;
use crate::cloudflare::DnsUpdateView;
use crate::cloudflare::ListEdit;
use crate::cloudflare::ListEditView;
use crate::config::Config;
use crate::config::ConfigView;
use crate::crypto::decrypted;
use crate::crypto::text_result;
use crate::crypto::Crypto;
use crate::hash::compute_file_hash;
use crate::hash::file_hash;
use crate::http::is_success;
use crate::http::outcome_view;
use crate::http::pairs;
use crate::http::push_pair;
use crate::http::Body;
use crate::http::BodyView;
use crate::http::HttpReplyView;
use crate::http::HttpRequest;
use crate::http::HttpRequestView;
use crate::http::Method;
use crate::http::Outcome;
use crate::http::Pair;
use crate::json::get_str;
use crate::json::json_document;
use crate::json::json_view;
use crate::json::law_members_are_read;
use crate::json::parse_json;
use crate::json::says;
use crate::json::str_member;
use crate::json::JsonView;
use crate::number::decimal;
use crate::number::decimal_text;
use crate::number::law_decimal_reads_back;
use crate::number::lemma_decimal_digits;
use crate::number::parse_unsigned;
use crate::number::parse_unsigned_text;
use crate::scheduler::Scheduler;
use crate::scheduler::SchedulerView;
use crate::task::copy_opt_bytes;
use crate::task::copy_opt_text;
use crate::task::opt_bytes;
use crate::task::NtfyAction;
use crate::task::NtfyContext;
use crate::task::NtfyContextView;
use crate::task::TaskType;
use crate::task::TaskTypeView;
use crate::text::after_bytes;
use crate::text::byte_len;
use crate::text::can_cut_at;
use crate::text::cat2;
use crate::text::cat3;
use crate::text::cat4;
use crate::text::cat8;
use crate::text::cat9;
use crate::text::chars_of;
use crate::text::contains;
use crate::text::copy_text;
use crate::text::cuts_at;
use crate::text::find_char;
use crate::text::find_char_in;
use crate::text::is_space;
use crate::text::law_containing_is_standing_in;
use crate::text::law_cuts_take_nothing_away;
use crate::text::law_lines_end_with_line_feeds;
use crate::text::law_trim_end_of_takes_all;
use crate::text::lemma_find_char;
use crate::text::lines;
use crate::text::lines_of;
use crate::text::lossy;
use crate::text::opt_text;
use crate::text::same_text;
use crate::text::stands_in;
use crate::text::text_after_bytes;
use crate::text::text_between;
use crate::text::text_contains;
use crate::text::text_from_utf8_lossy;
use crate::text::texts;
use crate::text::trim;
use crate::text::trim_end_of;
use crate::text::trim_end_of_text;
use crate::text::trim_text;
use crate::variables::context_of;
use crate::variables::law_variables_are_read;
use crate::variables::reads_as;
use crate::variables::substitute_variables;
use crate::variables::substituted;
use crate::variables::text_of;
use vstd::prelude::*;
use vstd::string::StringExecFns;
use vstd::utf8::encode_utf8;
use vstd::utf8::encode_utf8_decode_utf8;

verus! {

// ---------------------------------------------------------------------------
// Variables in what a task does
// ---------------------------------------------------------------------------

/// What a task does, with the variables in its texts replaced.
pub open spec fn prepared(
    task_type: TaskTypeView,
    context: Option<NtfyContextView>,
    ip: Option<Seq<char>>,
) -> TaskTypeView {
    match task_type {
        TaskTypeView::HttpGet { url } => TaskTypeView::HttpGet {
            url: substituted(url, context, ip),
        },
        TaskTypeView::HttpPost { url, body, headers } => TaskTypeView::HttpPost {
            url: substituted(url, context, ip),
            body: substituted(body, context, ip),
            headers: substituted(headers, context, ip),
        },
        TaskTypeView::Command { command, args, working_dir } => TaskTypeView::Command {
            command: substituted(command, context, ip),
            args: substituted(args, context, ip),
            working_dir: substituted(working_dir, context, ip),
        },
        TaskTypeView::PathCheck { path, check_file_exists, file_path } => TaskTypeView::PathCheck {
            path: substituted(path, context, ip),
            check_file_exists,
            file_path: substituted(file_path, context, ip),
        },
        TaskTypeView::FileChanged { file_path, baseline_hash } => TaskTypeView::FileChanged {
            file_path: substituted(file_path, context, ip),
            baseline_hash,
        },
        TaskTypeView::Ntfy {
            server,
            topic,
            title,
            message,
            priority,
            tags,
            action,
            subscribe_timeout_secs,
        } => TaskTypeView::Ntfy {
            server: substituted(server, context, ip),
            topic: substituted(topic, context, ip),
            title: substituted(title, context, ip),
            message: substituted(message, context, ip),
            priority: substituted(priority, context, ip),
            tags: substituted(tags, context, ip),
            action,
            subscribe_timeout_secs,
        },
        TaskTypeView::GetPublicIp => TaskTypeView::GetPublicIp,
        TaskTypeView::CloudflareDnsUpdate {
            zone_id,
            record_name,
            record_type,
            record_id,
            content,
            proxied,
            ttl,
            api_token_plain,
            api_email_plain,
            api_token_encrypted,
            api_email_encrypted,
        } => TaskTypeView::CloudflareDnsUpdate {
            zone_id: substituted(zone_id, context, ip),
            record_name: substituted(record_name, context, ip),
            record_type: substituted(record_type, context, ip),
            record_id: substituted(record_id, context, ip),
            content: substituted(content, context, ip),
            proxied,
            ttl,
            api_token_plain,
            api_email_plain,
            api_token_encrypted,
            api_email_encrypted,
        },
        TaskTypeView::CloudflareIpListUpdate {
            account_id,
            list_id,
            list_name,
            ip: address,
            comment,
            action,
            api_token_plain,
            api_email_plain,
            api_token_encrypted,
            api_email_encrypted,
        } => TaskTypeView::CloudflareIpListUpdate {
            account_id: substituted(account_id, context, ip),
            list_id: substituted(list_id, context, ip),
            list_name: substituted(list_name, context, ip),
            ip: substituted(address, context, ip),
            comment: substituted(comment, context, ip),
            action,
            api_token_plain,
            api_email_plain,
            api_token_encrypted,
            api_email_encrypted,
        },
    }
}

/// What a task does, with the variables in its texts replaced.
pub fn run_task_action(
    task_type: &TaskType,
    ntfy: Option<&NtfyContext>,
    public_ip: Option<&str>,
) -> (r: TaskType)
    ensures
        r@ == prepared(task_type@, context_of(ntfy), text_of(public_ip)),
{
    match task_type {
        TaskType::HttpGet { url } => TaskType::HttpGet {
            url: substitute_variables(url.as_str(), ntfy, public_ip),
        },
        TaskType::HttpPost { url, body, headers } => TaskType::HttpPost {
            url: substitute_variables(url.as_str(), ntfy, public_ip),
            body: substitute_variables(body.as_str(), ntfy, public_ip),
            headers: substitute_variables(headers.as_str(), ntfy, public_ip),
        },
        TaskType::Command { command, args, working_dir } => TaskType::Command {
            command: substitute_variables(command.as_str(), ntfy, public_ip),
            args: substitute_variables(args.as_str(), ntfy, public_ip),
            working_dir: substitute_variables(working_dir.as_str(), ntfy, public_ip),
        },
        TaskType::PathCheck { path, check_file_exists, file_path } => TaskType::PathCheck {
            path: substitute_variables(path.as_str(), ntfy, public_ip),
            check_file_exists: *check_file_exists,
            file_path: substitute_variables(file_path.as_str(), ntfy, public_ip),
        },
        TaskType::FileChanged { file_path, baseline_hash } => TaskType::FileChanged {
            file_path: substitute_variables(file_path.as_str(), ntfy, public_ip),
            baseline_hash: copy_opt_text(baseline_hash),
        },
        TaskType::Ntfy {
            server,
            topic,
            title,
            message,
            priority,
            tags,
            action,
            subscribe_timeout_secs,
        } => TaskType::Ntfy {
            server: substitute_variables(server.as_str(), ntfy, public_ip),
            topic: substitute_variables(topic.as_str(), ntfy, public_ip),
            title: substitute_variables(title.as_str(), ntfy, public_ip),
            message: substitute_variables(message.as_str(), ntfy, public_ip),
            priority: substitute_variables(priority.as_str(), ntfy, public_ip),
            tags: substitute_variables(tags.as_str(), ntfy, public_ip),
            action: *action,
            subscribe_timeout_secs: *subscribe_timeout_secs,
        },
        TaskType::GetPublicIp => TaskType::GetPublicIp,
        TaskType::CloudflareDnsUpdate {
            zone_id,
            record_name,
            record_type,
            record_id,
            content,
            proxied,
            ttl,
            api_token_plain,
            api_email_plain,
            api_token_encrypted,
            api_email_encrypted,
        } => TaskType::CloudflareDnsUpdate {
            zone_id: substitute_variables(zone_id.as_str(), ntfy, public_ip),
            record_name: substitute_variables(record_name.as_str(), ntfy, public_ip),
            record_type: substitute_variables(record_type.as_str(), ntfy, public_ip),
            record_id: substitute_variables(record_id.as_str(), ntfy, public_ip),
            content: substitute_variables(content.as_str(), ntfy, public_ip),
            proxied: *proxied,
            ttl: *ttl,
            api_token_plain: copy_opt_text(api_token_plain),
            api_email_plain: copy_opt_text(api_email_plain),
            api_token_encrypted: copy_opt_bytes(api_token_encrypted),
            api_email_encrypted: copy_opt_bytes(api_email_encrypted),
        },
        TaskType::CloudflareIpListUpdate {
            account_id,
            list_id,
            list_name,
            ip,
            comment,
            action,
            api_token_plain,
            api_email_plain,
            api_token_encrypted,
            api_email_encrypted,
        } => TaskType::CloudflareIpListUpdate {
            account_id: substitute_variables(account_id.as_str(), ntfy, public_ip),
            list_id: substitute_variables(list_id.as_str(), ntfy, public_ip),
            list_name: substitute_variables(list_name.as_str(), ntfy, public_ip),
            ip: substitute_variables(ip.as_str(), ntfy, public_ip),
            comment: substitute_variables(comment.as_str(), ntfy, public_ip),
            action: *action,
            api_token_plain: copy_opt_text(api_token_plain),
            api_email_plain: copy_opt_text(api_email_plain),
            api_token_encrypted: copy_opt_bytes(api_token_encrypted),
            api_email_encrypted: copy_opt_bytes(api_email_encrypted),
        },
    }
}

// ---------------------------------------------------------------------------
// Requests of tasks
// ---------------------------------------------------------------------------

/// A request that gives up after half a minute.
pub open spec fn plain_request(
    method: Method,
    url: Seq<char>,
    headers: Seq<(Seq<char>, Seq<char>)>,
    body: BodyView,
) -> HttpRequestView {
    HttpRequestView { method, url, headers, body, timeout_secs: Some(30) }
}

/// The headers that lines of the form `name: value` give; a line without a colon
/// gives none.
pub open spec fn header_pairs(lines: Seq<Seq<char>>) -> Seq<(Seq<char>, Seq<char>)>
    decreases lines.len(),
{
    if lines.len() == 0 {
        Seq::empty()
    } else {
        let before = header_pairs(lines.drop_last());
        let line = lines.last();
        match find_char(line, ':') {
            Some(pos) => before.push((trim(line.take(pos)), trim(line.skip(pos + 1)))),
            None => before,
        }
    }
}

/// What a task makes of the reply to its request.
pub open spec fn reply_result(outcome: Result<HttpReplyView, Seq<char>>) -> Result<
    bool,
    Seq<char>,
> {
    match outcome {
        Ok(reply) => Ok(is_success(reply.status)),
        Err(e) => Err(e),
    }
}

/// The request of a task that fetches an address.
pub fn run_http_get(url: &str) -> (r: HttpRequest)
    ensures
        r@ == plain_request(Method::Get, url@, Seq::empty(), BodyView::Empty),
{
    let headers: Vec<Pair> = Vec::new();
    assert(pairs(headers@) =~= Seq::<(Seq<char>, Seq<char>)>::empty());
    HttpRequest {
        method: Method::Get,
        url: copy_text(url),
        headers,
        body: Body::Empty,
        timeout_secs: Some(30),
    }
}

/// The headers that lines give.
fn headers_of(text: &str) -> (r: Vec<Pair>)
    ensures
        pairs(r@) == header_pairs(lines(text@)),
{
    let list = lines_of(text);
    let ghost all = lines(text@);
    let mut r: Vec<Pair> = Vec::new();
    let mut i: usize = 0;
    assert(pairs(r@) =~= header_pairs(all.take(0)));
    while i < list.len()
        invariant
            all == texts(list@),
            i <= list@.len(),
            pairs(r@) == header_pairs(all.take(i as int)),
        decreases list@.len() - i,
    {
        assert(all.take(i + 1).drop_last() =~= all.take(i as int));
        let ghost line = list@[i as int]@;
        assert(all.take(i + 1).last() == line);
        let chars = chars_of(list[i].as_str());
        proof {
            lemma_find_char(line, ':');
        }
        if let Some(pos) = find_char_in(&chars, ':') {
            assert(pos < chars.len());
            let name = text_between(&chars, 0, pos);
            let value = text_between(&chars, pos + 1, chars.len());
            assert(name@ =~= line.take(pos as int));
            assert(value@ =~= line.skip(pos + 1));
            let name = trim_text(name.as_str());
            let value = trim_text(value.as_str());
            push_pair(&mut r, name.as_str(), value.as_str());
        }
        i = i + 1;
    }
    assert(all.take(list@.len() as int) =~= all);
    r
}

/// The request of a task that posts to an address.
pub fn run_http_post(url: &str, body: &str, headers: &str) -> (r: HttpRequest)
    ensures
        r@ == plain_request(
            Method::Post,
            url@,
            header_pairs(lines(headers@)),
            BodyView::Text(body@),
        ),
{
    HttpRequest {
        method: Method::Post,
        url: copy_text(url),
        headers: headers_of(headers),
        body: Body::Text(copy_text(body)),
        timeout_secs: Some(30),
    }
}

/// What a task makes of the reply to its request.
pub fn result_of_reply(outcome: &Outcome) -> (r: Result<bool, String>)
    ensures
        bool_result(r) == reply_result(outcome_view(*outcome)),
{
    match outcome {
        Ok(reply) => Ok(reply.is_success()),
        Err(e) => Err(e.clone()),
    }
}

// ---------------------------------------------------------------------------
// Commands
// ---------------------------------------------------------------------------

/// A command to be run.
#[derive(Debug)]
pub struct CommandLine {
    pub program: String,
    pub args: Vec<String>,
    /// The directory to run it in, if it is not the current one.
    pub dir: Option<String>,
}

/// What a command is started with: the command, and its arguments if it has any.
pub open spec fn command_args(command: Seq<char>, args: Seq<char>) -> Seq<Seq<char>> {
    if args.len() == 0 {
        seq!["/C"@, command]
    } else {
        seq!["/C"@, command, args]
    }
}

/// The directory that a command is run in, if it is not the current one.
pub open spec fn command_dir(working_dir: Seq<char>) -> Option<Seq<char>> {
    if working_dir.len() == 0 {
        None
    } else {
        Some(working_dir)
    }
}

/// The command line of a task.
pub fn run_command(command: &str, args: &str, working_dir: &str) -> (r: CommandLine)
    ensures
        r.program@ == "cmd"@,
        texts(r.args@) == command_args(command@, args@),
        opt_text(r.dir) == command_dir(working_dir@),
{
    let mut list: Vec<String> = Vec::new();
    list.push(copy_text("/C"));
    list.push(copy_text(command));
    if !args.is_empty() {
        list.push(copy_text(args));
        assert(texts(list@) =~= seq!["/C"@, command@, args@]);
    } else {
        assert(texts(list@) =~= seq!["/C"@, command@]);
    }
    let dir = if !working_dir.is_empty() {
        Some(copy_text(working_dir))
    } else {
        None
    };
    CommandLine { program: copy_text("cmd"), args: list, dir }
}

/// What became of a command.
#[derive(Debug)]
pub enum CommandOutcome {
    /// It ran, and ended well or not; this is what it wrote to its error output.
    Ended { success: bool, stderr: Vec<u8> },
    /// It could not be started.
    NotStarted(String),
}

/// What a task makes of what became of its command.
pub open spec fn command_result(outcome: CommandOutcome) -> Result<bool, Seq<char>> {
    match outcome {
        CommandOutcome::Ended { success, stderr } => if success {
            Ok(true)
        } else {
            Err("Command failed: "@ + lossy(stderr@))
        },
        CommandOutcome::NotStarted(e) => Err("Failed to execute: "@ + e@),
    }
}

/// The error of a command that wrote this to its error output.
pub fn command_failure(stderr: &str) -> (r: String)
    ensures
        r@ == "Command failed: "@ + stderr@,
{
    cat2("Command failed: ", stderr)
}

/// What a task makes of what became of its command.
pub fn result_of_command(outcome: &CommandOutcome) -> (r: Result<bool, String>)
    ensures
        bool_result(r) == command_result(*outcome),
{
    match outcome {
        CommandOutcome::Ended { success, stderr } => {
            if *success {
                Ok(true)
            } else {
                let text = text_from_utf8_lossy(stderr.as_slice());
                Err(command_failure(text.as_str()))
            }
        },
        CommandOutcome::NotStarted(e) => Err(cat2("Failed to execute: ", e.as_str())),
    }
}

// ---------------------------------------------------------------------------
// Paths and files
// ---------------------------------------------------------------------------

/// How a check of a path goes on.
#[derive(Debug, Clone, Copy, PartialEq, Eq, Structural)]
pub enum PathStep {
    Done(bool),
    /// It looks for the file below the path.
    LookForFile,
}

/// How a check of a path goes on: a path that is not there fails it, and one that is there
/// passes it unless a file is to be there too.
pub open spec fn path_step(path_exists: bool, check_file: bool) -> PathStep {
    if path_exists && check_file {
        PathStep::LookForFile
    } else {
        PathStep::Done(path_exists)
    }
}

/// How a check of a path goes on when it is known whether the path exists.
pub fn run_path_check(path_exists: bool, check_file: bool) -> (r: PathStep)
    ensures
        r == path_step(path_exists, check_file),
        r == if !path_exists {
            PathStep::Done(false)
        } else if !check_file {
            PathStep::Done(true)
        } else {
            PathStep::LookForFile
        },
{
    if !path_exists {
        PathStep::Done(false)
    } else if !check_file {
        PathStep::Done(true)
    } else {
        PathStep::LookForFile
    }
}

/// Whether a file with a hash differs from its baseline.
pub open spec fn changed(current: Option<Seq<char>>, baseline: Option<Seq<char>>) -> Result<
    bool,
    Seq<char>,
> {
    match (current, baseline) {
        (None, _) => Err("Cannot read file"@),
        (Some(_), None) => Err("No baseline hash set"@),
        (Some(c), Some(b)) => Ok(c != b),
    }
}

/// Whether a file with a hash differs from its baseline.
pub fn is_changed(current: Option<&str>, baseline: Option<&str>) -> (r: Result<bool, String>)
    ensures
        bool_result(r) == changed(text_of(current), text_of(baseline)),
{
    match current {
        None => Err(copy_text("Cannot read file")),
        Some(c) => match baseline {
            None => Err(copy_text("No baseline hash set")),
            Some(b) => Ok(!same_text(c, b)),
        },
    }
}

/// The hash of contents that may be missing.
pub open spec fn opt_hash(contents: Option<Vec<u8>>) -> Option<Seq<char>> {
    match contents {
        Some(bytes) => Some(file_hash(bytes@)),
        None => None,
    }
}

/// Whether the contents of a file differ from its baseline.
pub fn run_file_changed(contents: &Option<Vec<u8>>, baseline: Option<&str>) -> (r: Result<
    bool,
    String,
>)
    ensures
        bool_result(r) == changed(opt_hash(*contents), text_of(baseline)),
{
    match contents {
        Some(bytes) => {
            let hash = compute_file_hash(bytes.as_slice());
            is_changed(Some(hash.as_str()), baseline)
        },
        None => is_changed(None, baseline),
    }
}

// ---------------------------------------------------------------------------
// The public address
// ---------------------------------------------------------------------------

/// The request that asks for the public address.
pub fn public_ip_request() -> (r: HttpRequest)
    ensures
        r@ == plain_request(
            Method::Get,
            "https://api.ipify.org"@,
            Seq::empty(),
            BodyView::Empty,
        ),
{
    run_http_get("https://api.ipify.org")
}

/// The public address that a reply tells, whatever its status.
pub open spec fn told_address(outcome: Result<HttpReplyView, Seq<char>>) -> Result<
    Seq<char>,
    Seq<char>,
> {
    match outcome {
        Ok(reply) => match reply.body {
            Ok(bytes) => Ok(trim(lossy(bytes))),
            Err(e) => Err(e),
        },
        Err(e) => Err(e),
    }
}

/// The public address that a reply tells.
pub fn run_get_public_ip(outcome: &Outcome) -> (r: Result<String, String>)
    ensures
        text_result(r) == told_address(outcome_view(*outcome)),
{
    match outcome {
        Ok(reply) => match &reply.body {
            Ok(bytes) => {
                let text = text_from_utf8_lossy(bytes.as_slice());
                Ok(trim_text(text.as_str()))
            },
            Err(e) => Err(e.clone()),
        },
        Err(e) => Err(e.clone()),
    }
}

/// A configuration with a new public address.
pub open spec fn with_address(config: ConfigView, ip: Seq<char>) -> ConfigView {
    ConfigView { public_ip: Some(ip), ..config }
}

/// The configuration with a new public address.
pub fn with_public_ip(config: Config, ip: &str) -> (r: Config)
    ensures
        r@ == with_address(config@, ip@),
        r@ == (ConfigView { public_ip: Some(ip@), ..config@ }),
{
    let mut config = config;
    config.public_ip = Some(copy_text(ip));
    config
}

/// How a run that asked for the public address ends, when the configuration was saved or
/// was not, for this reason.
pub open spec fn address_saved(failure: Option<Seq<char>>, ip: Seq<char>) -> (
    Option<Seq<char>>,
    Result<bool, Seq<char>>,
) {
    match failure {
        None => (Some("Public IP updated: "@ + ip), Ok(true)),
        Some(e) => (None, Err("Failed to save config: "@ + e)),
    }
}

/// The end of a run that asked for the public address, when the configuration
/// was saved or not: what the log says, and the result.
pub fn public_ip_saved(saved: &Result<(), String>, ip: &str) -> (r: (
    Option<String>,
    Result<bool, String>,
))
    ensures
        (opt_text(r.0), bool_result(r.1)) == address_saved(
            match *saved {
                Ok(_) => None,
                Err(e) => Some(e@),
            },
            ip@,
        ),
        match *saved {
            Ok(_) => opt_text(r.0) == Some("Public IP updated: "@ + ip@) && r.1 == Ok::<
                bool,
                String,
            >(true),
            Err(e) => r.0 is None && bool_result(r.1) == Err::<bool, Seq<char>>(
                "Failed to save config: "@ + e@,
            ),
        },
{
    match saved {
        Ok(_) => (Some(cat2("Public IP updated: ", ip)), Ok(true)),
        Err(e) => (None, Err(cat2("Failed to save config: ", e.as_str()))),
    }
}

// ---------------------------------------------------------------------------
// Cloudflare
// ---------------------------------------------------------------------------

/// The client for a secret and, where it is not blank, the address of its
/// account; both without the blanks around them.
pub open spec fn client_for(token: Option<Seq<char>>, email: Option<Seq<char>>) -> Option<
    ClientView,
> {
    match token {
        Some(token) => Some(
            ClientView {
                token: trim(token),
                email: match email {
                    Some(email) => if trim(email).len() == 0 {
                        None
                    } else {
                        Some(trim(email))
                    },
                    None => None,
                },
            },
        ),
        None => None,
    }
}

/// The secret that sealed bytes hold, if there are any and they can be opened.
pub open spec fn opened(sealed: Option<Seq<u8>>, password: Seq<char>, salt: Seq<u8>) -> Option<
    Seq<char>,
> {
    match sealed {
        Some(bytes) => match decrypted(bytes, password, salt) {
            Ok(text) => Some(text),
            Err(_) => None,
        },
        None => None,
    }
}

/// The bytes of an optional reference.
pub open spec fn bytes_of(bytes: Option<&Vec<u8>>) -> Option<Seq<u8>> {
    match bytes {
        Some(b) => Some(b@),
        None => None,
    }
}

/// The client of a task of its own: where the password and the salt are known and
/// the secret of the task can be opened.
pub open spec fn per_task_client(
    scheduler: SchedulerView,
    token: Option<Seq<u8>>,
    email: Option<Seq<u8>>,
) -> Option<ClientView> {
    match (scheduler.master_password, scheduler.password_salt) {
        (Some(password), Some(salt)) => client_for(
            opened(token, password, salt),
            opened(email, password, salt),
        ),
        _ => None,
    }
}

/// The contents of an optional client.
pub open spec fn opt_client(client: Option<CloudflareClient>) -> Option<ClientView> {
    match client {
        Some(c) => Some(c@),
        None => None,
    }
}

/// The client for secrets that were opened.
pub fn client_from(token: Option<String>, email: Option<String>) -> (r: Option<CloudflareClient>)
    ensures
        opt_client(r) == client_for(opt_text(token), opt_text(email)),
{
    match token {
        Some(token) => {
            let token = trim_text(token.as_str());
            match email {
                Some(email) => {
                    let email = trim_text(email.as_str());
                    if email.as_str().is_empty() {
                        Some(CloudflareClient::with_token(token))
                    } else {
                        Some(CloudflareClient::with_global_key(email, token))
                    }
                },
                None => Some(CloudflareClient::with_token(token)),
            }
        },
        None => None,
    }
}

/// The secret that sealed bytes hold.
pub(crate) fn open_secret(sealed: Option<&Vec<u8>>, password: &str, salt: &[u8]) -> (r: Option<
    String,
>)
    ensures
        opt_text(r) == opened(bytes_of(sealed), password@, salt@),
{
    match sealed {
        Some(bytes) => match Crypto::decrypt(bytes.as_slice(), password, salt) {
            Ok(text) => Some(text),
            Err(_) => None,
        },
        None => None,
    }
}

/// The defaults for records: zone, name, whether traffic is proxied, and how long
/// a record lives.
pub struct RecordDefaults {
    pub zone_id: String,
    pub record_name: String,
    pub proxied: String,
    pub ttl: String,
}

pub struct DefaultsView {
    pub zone_id: Seq<char>,
    pub record_name: Seq<char>,
    pub proxied: Seq<char>,
    pub ttl: Seq<char>,
}

impl View for RecordDefaults {
    type V = DefaultsView;

    open spec fn view(&self) -> DefaultsView {
        DefaultsView {
            zone_id: self.zone_id@,
            record_name: self.record_name@,
            proxied: self.proxied@,
            ttl: self.ttl@,
        }
    }
}

/// The first text, or the second where the first is empty.
pub open spec fn or_else(text: Seq<char>, other: Seq<char>) -> Seq<char> {
    if text.len() == 0 {
        other
    } else {
        text
    }
}

/// Defaults with what others say where they are empty.
pub open spec fn filled(defaults: DefaultsView, other: Option<DefaultsView>) -> DefaultsView {
    match other {
        Some(o) => DefaultsView {
            zone_id: or_else(defaults.zone_id, o.zone_id),
            record_name: or_else(defaults.record_name, o.record_name),
            proxied: or_else(defaults.proxied, o.proxied),
            ttl: or_else(defaults.ttl, o.ttl),
        },
        None => defaults,
    }
}

pub open spec fn member_or_empty(doc: JsonView, key: Seq<char>) -> Seq<char> {
    match str_member(doc, key) {
        Some(s) => s,
        None => Seq::empty(),
    }
}

/// The defaults that a document gives.
pub open spec fn defaults_in(doc: JsonView) -> DefaultsView {
    DefaultsView {
        zone_id: member_or_empty(doc, "cloudflare_default_zone_id"@),
        record_name: member_or_empty(doc, "cloudflare_default_record_name"@),
        proxied: member_or_empty(doc, "cloudflare_default_proxied"@),
        ttl: member_or_empty(doc, "cloudflare_default_ttl"@),
    }
}

/// The defaults that the text of the configuration file gives, if it is a JSON
/// document.
pub open spec fn stored_defaults(raw: Option<Seq<char>>) -> Option<DefaultsView> {
    match raw {
        Some(text) => match json_document(text) {
            Some(doc) => Some(defaults_in(doc)),
            None => None,
        },
        None => None,
    }
}

/// The defaults of a configuration.
pub open spec fn config_defaults(config: ConfigView) -> DefaultsView {
    DefaultsView {
        zone_id: config.cloudflare_default_zone_id,
        record_name: config.cloudflare_default_record_name,
        proxied: config.cloudflare_default_proxied,
        ttl: config.cloudflare_default_ttl,
    }
}

/// A truth value as text.
pub open spec fn bool_text(b: bool) -> Seq<char> {
    if b {
        "true"@
    } else {
        "false"@
    }
}

/// The truth value that a text says.
pub open spec fn parse_bool(s: Seq<char>) -> Option<bool> {
    if s == "true"@ {
        Some(true)
    } else if s == "false"@ {
        Some(false)
    } else {
        None
    }
}

/// A record as a task and the defaults give it.
pub struct ResolvedRecord {
    pub zone_id: String,
    pub record_name: String,
    pub proxied: bool,
    pub ttl: u32,
}

/// What the log says of the defaults.
pub open spec fn defaults_log(d: DefaultsView) -> Seq<char> {
    "Cloudflare defaults loaded: zone_id='"@ + d.zone_id + "' record_name='"@ + d.record_name
        + "' proxied='"@ + d.proxied + "' ttl='"@ + d.ttl + "'"@
}

/// What the log says of what a task and the defaults give.
pub open spec fn resolved_log(task: DefaultsView, used: DefaultsView) -> Seq<char> {
    "Cloudflare resolved: zone_id='"@ + used.zone_id + "' record_name='"@ + used.record_name
        + "' proxied='"@ + used.proxied + "' ttl='"@ + used.ttl + (
    "' (task empty: zone="@ + bool_text(task.zone_id.len() == 0) + " name="@ + bool_text(
        task.record_name.len() == 0,
    ) + " proxied="@ + bool_text(task.proxied.len() == 0) + " ttl="@ + bool_text(
        task.ttl.len() == 0,
    ) + ")"@)
}

pub struct RecordView {
    pub zone_id: Seq<char>,
    pub record_name: Seq<char>,
    pub proxied: bool,
    pub ttl: u32,
}

/// The contents of a record or the error in its place.
pub open spec fn record_result(r: Result<ResolvedRecord, String>) -> Result<RecordView, Seq<char>> {
    match r {
        Ok(record) => Ok(
            RecordView {
                zone_id: record.zone_id@,
                record_name: record.record_name@,
                proxied: record.proxied,
                ttl: record.ttl,
            },
        ),
        Err(e) => Err(e@),
    }
}

/// The record that texts give, or what is wrong with them.
pub open spec fn resolved(used: DefaultsView) -> Result<RecordView, Seq<char>> {
    if used.zone_id.len() == 0 {
        Err("Zone ID is empty and no default is configured in Settings"@)
    } else if used.record_name.len() == 0 {
        Err("Record Name is empty and no default is configured in Settings"@)
    } else {
        match (parse_bool(trim(used.proxied)), parse_unsigned(trim(used.ttl), u32::MAX as nat)) {
            (None, _) => Err(
                "Invalid proxied value '"@ + used.proxied + "'. Use 'true' or 'false'."@,
            ),
            (Some(_), None) => Err("Invalid TTL value '"@ + used.ttl + "'. Must be a number."@),
            (Some(proxied), Some(ttl)) => Ok(
                RecordView {
                    zone_id: used.zone_id,
                    record_name: used.record_name,
                    proxied,
                    ttl: ttl as u32,
                },
            ),
        }
    }
}

/// A truth value as text.
pub fn text_of_bool(b: bool) -> (r: String)
    ensures
        r@ == bool_text(b),
{
    if b {
        copy_text("true")
    } else {
        copy_text("false")
    }
}

/// The truth value that a text says.
pub fn parse_bool_text(s: &str) -> (r: Option<bool>)
    ensures
        r == parse_bool(s@),
{
    if same_text(s, "true") {
        Some(true)
    } else if same_text(s, "false") {
        Some(false)
    } else {
        None
    }
}

/// A copy of the first text, or of the second where the first is empty.
fn first_of(text: &str, other: &str) -> (r: String)
    ensures
        r@ == or_else(text@, other@),
{
    if text.is_empty() {
        copy_text(other)
    } else {
        copy_text(text)
    }
}

/// Defaults with what others say where they are empty.
pub fn fill_defaults(defaults: RecordDefaults, other: &Option<RecordDefaults>) -> (r:
    RecordDefaults)
    ensures
        r@ == filled(
            defaults@,
            match *other {
                Some(o) => Some(o@),
                None => None,
            },
        ),
{
    match other {
        Some(o) => RecordDefaults {
            zone_id: first_of(defaults.zone_id.as_str(), o.zone_id.as_str()),
            record_name: first_of(defaults.record_name.as_str(), o.record_name.as_str()),
            proxied: first_of(defaults.proxied.as_str(), o.proxied.as_str()),
            ttl: first_of(defaults.ttl.as_str(), o.ttl.as_str()),
        },
        None => defaults,
    }
}

/// The text of a string member, or an empty text.
fn member_text(doc: &serde_json::Value, key: &str) -> (r: String)
    ensures
        r@ == member_or_empty(json_view(*doc), key@),
{
    match get_str(doc, key) {
        Some(s) => copy_text(s),
        None => String::new(),
    }
}

/// The defaults that a document gives.
pub fn defaults_of_document(doc: &serde_json::Value) -> (r: RecordDefaults)
    ensures
        r@ == defaults_in(json_view(*doc)),
{
    RecordDefaults {
        zone_id: member_text(doc, "cloudflare_default_zone_id"),
        record_name: member_text(doc, "cloudflare_default_record_name"),
        proxied: member_text(doc, "cloudflare_default_proxied"),
        ttl: member_text(doc, "cloudflare_default_ttl"),
    }
}

/// The defaults that the text of the configuration file gives.
pub fn read_defaults(raw: Option<&str>) -> (r: Option<RecordDefaults>)
    ensures
        match r {
            Some(d) => stored_defaults(text_of(raw)) == Some(d@),
            None => stored_defaults(text_of(raw)) is None,
        },
{
    match raw {
        Some(text) => match parse_json(text) {
            Some(doc) => Some(defaults_of_document(&doc)),
            None => None,
        },
        None => None,
    }
}

/// What a task and the defaults give for a record, and what the log says of it.
pub fn resolve_record(task: &RecordDefaults, defaults: &RecordDefaults) -> (r: (
    Vec<String>,
    Result<ResolvedRecord, String>,
))
    ensures
        texts(r.0@) == seq![
            defaults_log(defaults@),
            resolved_log(task@, filled(task@, Some(defaults@))),
        ],
        record_result(r.1) == resolved(filled(task@, Some(defaults@))),
{
    let mut log: Vec<String> = Vec::new();
    log.push(
        cat9(
            "Cloudflare defaults loaded: zone_id='",
            defaults.zone_id.as_str(),
            "' record_name='",
            defaults.record_name.as_str(),
            "' proxied='",
            defaults.proxied.as_str(),
            "' ttl='",
            defaults.ttl.as_str(),
            "'",
        ),
    );
    let zone_id = first_of(task.zone_id.as_str(), defaults.zone_id.as_str());
    let record_name = first_of(task.record_name.as_str(), defaults.record_name.as_str());
    let proxied = first_of(task.proxied.as_str(), defaults.proxied.as_str());
    let ttl = first_of(task.ttl.as_str(), defaults.ttl.as_str());
    let front = cat8(
        "Cloudflare resolved: zone_id='",
        zone_id.as_str(),
        "' record_name='",
        record_name.as_str(),
        "' proxied='",
        proxied.as_str(),
        "' ttl='",
        ttl.as_str(),
    );
    let no_zone = text_of_bool(task.zone_id.as_str().is_empty());
    let no_name = text_of_bool(task.record_name.as_str().is_empty());
    let no_proxied = text_of_bool(task.proxied.as_str().is_empty());
    let no_ttl = text_of_bool(task.ttl.as_str().is_empty());
    let back = cat9(
        "' (task empty: zone=",
        no_zone.as_str(),
        " name=",
        no_name.as_str(),
        " proxied=",
        no_proxied.as_str(),
        " ttl=",
        no_ttl.as_str(),
        ")",
    );
    log.push(cat2(front.as_str(), back.as_str()));
    assert(texts(log@) =~= seq![
        defaults_log(defaults@),
        resolved_log(task@, filled(task@, Some(defaults@))),
    ]);
    if zone_id.as_str().is_empty() {
        return (
            log,
            Err(copy_text("Zone ID is empty and no default is configured in Settings")),
        );
    }
    if record_name.as_str().is_empty() {
        return (
            log,
            Err(copy_text("Record Name is empty and no default is configured in Settings")),
        );
    }
    let proxied_text = trim_text(proxied.as_str());
    match parse_bool_text(proxied_text.as_str()) {
        None => (
            log,
            Err(
                cat3("Invalid proxied value '", proxied.as_str(), "'. Use 'true' or 'false'."),
            ),
        ),
        Some(is_proxied) => {
            let ttl_text = trim_text(ttl.as_str());
            match parse_unsigned_text(ttl_text.as_str(), u32::MAX as u64) {
                None => (
                    log,
                    Err(cat3("Invalid TTL value '", ttl.as_str(), "'. Must be a number.")),
                ),
                Some(seconds) => (
                    log,
                    Ok(
                        ResolvedRecord {
                            zone_id,
                            record_name,
                            proxied: is_proxied,
                            ttl: seconds as u32,
                        },
                    ),
                ),
            }
        },
    }
}

/// A run of requests to Cloudflare: its client, and its next step. Without a
/// client the run has failed.
pub struct CloudflareRun {
    pub client: Option<CloudflareClient>,
    pub step: CloudflareStep,
}

/// A step with more lines for the log before its own.
pub open spec fn with_log(lines: Seq<Seq<char>>, step: CloudflareStepView) -> CloudflareStepView {
    match step {
        CloudflareStepView::Send { log, request, state } => CloudflareStepView::Send {
            log: lines + log,
            request,
            state,
        },
        CloudflareStepView::Done { log, result } => CloudflareStepView::Done {
            log: lines + log,
            result,
        },
    }
}

/// The end of a run with lines for the log and an error.
pub open spec fn failed_with(lines: Seq<Seq<char>>, e: Seq<char>) -> CloudflareStepView {
    CloudflareStepView::Done { log: lines, result: Err(e) }
}

/// What the log says of the credentials of a run.
pub open spec fn credentials_log(label: Seq<char>, per_task: bool, global: bool) -> Seq<char> {
    label + bool_text(per_task) + " global="@ + bool_text(global)
}

/// Adds the lines of one list behind those of another.
fn append_texts(list: &mut Vec<String>, more: Vec<String>)
    ensures
        texts(final(list)@) == texts(old(list)@) + texts(more@),
{
    let ghost first = list@;
    let ghost second = more@;
    let mut more = more;
    list.append(&mut more);
    assert(texts(list@) =~= texts(first) + texts(second));
}

/// A step with more lines for the log before its own.
fn put_log(lines: Vec<String>, step: CloudflareStep) -> (r: CloudflareStep)
    ensures
        r@ == with_log(texts(lines@), step@),
{
    let mut lines = lines;
    match step {
        CloudflareStep::Send { log, request, state } => {
            append_texts(&mut lines, log);
            CloudflareStep::Send { log: lines, request, state }
        },
        CloudflareStep::Done { log, result } => {
            append_texts(&mut lines, log);
            CloudflareStep::Done { log: lines, result }
        },
    }
}

/// The client that a run uses: that of the task before that of the scheduler.
pub open spec fn client_of_run(
    scheduler: SchedulerView,
    token: Option<Seq<u8>>,
    email: Option<Seq<u8>>,
) -> Option<ClientView> {
    match per_task_client(scheduler, token, email) {
        Some(client) => Some(client),
        None => scheduler.cloudflare,
    }
}

/// The first step of a task that updates a record.
pub open spec fn dns_run(
    scheduler: SchedulerView,
    task: DefaultsView,
    record_type: Seq<char>,
    record_id: Seq<char>,
    content: Seq<char>,
    token: Option<Seq<u8>>,
    email: Option<Seq<u8>>,
    config: ConfigView,
    defaults: DefaultsView,
) -> CloudflareStepView {
    match client_of_run(scheduler, token, email) {
        None => failed_with(Seq::empty(), "Cloudflare credentials not configured"@),
        Some(client) => {
            let lines = seq![
                credentials_log(
                    "Cloudflare client: per_task="@,
                    per_task_client(scheduler, token, email) is Some,
                    scheduler.cloudflare is Some,
                ),
                defaults_log(defaults),
                resolved_log(task, filled(task, Some(defaults))),
            ];
            match resolved(filled(task, Some(defaults))) {
                Err(e) => failed_with(lines, e),
                Ok(record) => if content.len() == 0 && config.public_ip is None {
                    failed_with(
                        lines,
                        "No public IP saved in config. Run a GetPublicIp task first."@,
                    )
                } else {
                    with_log(
                        lines,
                        dns_step(
                            client,
                            DnsUpdateView {
                                zone_id: record.zone_id,
                                record_type,
                                record_name: record.record_name,
                                content: if content.len() == 0 {
                                    config.public_ip->0
                                } else {
                                    content
                                },
                                proxied: record.proxied,
                                ttl: record.ttl,
                            },
                            record_id,
                        ),
                    )
                },
            }
        },
    }
}

/// The client of a task that edits a list; without an account or an address it
/// needs none.
pub open spec fn list_client(
    scheduler: SchedulerView,
    edit: ListEditView,
    token: Option<Seq<u8>>,
    email: Option<Seq<u8>>,
) -> Option<ClientView> {
    if edit.account_id.len() == 0 || edit.ip.len() == 0 {
        None
    } else {
        client_of_run(scheduler, token, email)
    }
}

/// The first step of a task that edits a list.
pub open spec fn list_run(
    scheduler: SchedulerView,
    edit: ListEditView,
    list_id: Seq<char>,
    list_name: Seq<char>,
    token: Option<Seq<u8>>,
    email: Option<Seq<u8>>,
) -> CloudflareStepView {
    if edit.account_id.len() == 0 {
        failed_with(Seq::empty(), "Account ID is required for IP List operations"@)
    } else if edit.ip.len() == 0 {
        failed_with(Seq::empty(), "IP address is required"@)
    } else {
        match client_of_run(scheduler, token, email) {
            None => failed_with(Seq::empty(), "Cloudflare credentials not configured"@),
            Some(client) => with_log(
                seq![
                    credentials_log(
                        "Cloudflare IP List: per_task="@,
                        per_task_client(scheduler, token, email) is Some,
                        scheduler.cloudflare is Some,
                    ),
                ],
                list_start(client, edit, list_id, list_name),
            ),
        }
    }
}

/// A run that has failed before it had a client.
fn no_client(e: &str) -> (r: CloudflareRun)
    ensures
        r.client is None,
        r.step@ == failed_with(Seq::empty(), e@),
{
    let log: Vec<String> = Vec::new();
    assert(texts(log@) =~= Seq::<Seq<char>>::empty());
    CloudflareRun { client: None, step: CloudflareStep::Done { log, result: Err(copy_text(e)) } }
}

/// A record as a task gives it.
pub struct RecordTask {
    /// What the task says of the record itself.
    pub given: RecordDefaults,
    pub record_type: String,
    pub record_id: String,
    pub content: String,
    pub api_token_encrypted: Option<Vec<u8>>,
    pub api_email_encrypted: Option<Vec<u8>>,
}

impl Scheduler {
    /// The client of a task of its own.
    pub fn decrypt_per_task_client(
        &self,
        api_token_encrypted: Option<&Vec<u8>>,
        api_email_encrypted: Option<&Vec<u8>>,
    ) -> (r: Option<CloudflareClient>)
        ensures
            opt_client(r) == per_task_client(
                self@,
                bytes_of(api_token_encrypted),
                bytes_of(api_email_encrypted),
            ),
    {
        match (&self.master_password, &self.password_salt) {
            (Some(password), Some(salt)) => {
                let token = open_secret(api_token_encrypted, password.as_str(), salt.as_slice());
                let email = open_secret(api_email_encrypted, password.as_str(), salt.as_slice());
                client_from(token, email)
            },
            _ => None,
        }
    }

    /// What a task, the configuration and its file give for a record.
    pub fn resolve_cloudflare_defaults(
        &self,
        task: &RecordDefaults,
        config: &Config,
        raw: Option<&str>,
    ) -> (r: (Vec<String>, Result<ResolvedRecord, String>))
        ensures
            ({
                let defaults = filled(config_defaults(config@), stored_defaults(text_of(raw)));
                let used = filled(task@, Some(defaults));
                &&& texts(r.0@) == seq![defaults_log(defaults), resolved_log(task@, used)]
                &&& record_result(r.1) == resolved(used)
            }),
    {
        let own = RecordDefaults {
            zone_id: config.cloudflare_default_zone_id.clone(),
            record_name: config.cloudflare_default_record_name.clone(),
            proxied: config.cloudflare_default_proxied.clone(),
            ttl: config.cloudflare_default_ttl.clone(),
        };
        let stored = read_defaults(raw);
        let defaults = fill_defaults(own, &stored);
        resolve_record(task, &defaults)
    }

    /// The first step of a task that updates a record.
    pub fn run_cloudflare_dns_update(
        &self,
        task: &RecordTask,
        config: &Config,
        raw: Option<&str>,
    ) -> (r: CloudflareRun)
        ensures
            opt_client(r.client) == client_of_run(
                self@,
                opt_bytes(task.api_token_encrypted),
                opt_bytes(task.api_email_encrypted),
            ),
            r.step@ == dns_run(
                self@,
                task.given@,
                task.record_type@,
                task.record_id@,
                task.content@,
                opt_bytes(task.api_token_encrypted),
                opt_bytes(task.api_email_encrypted),
                config@,
                filled(config_defaults(config@), stored_defaults(text_of(raw))),
            ),
    {
        let token: Option<&Vec<u8>> = match &task.api_token_encrypted {
            Some(bytes) => Some(bytes),
            None => None,
        };
        let email: Option<&Vec<u8>> = match &task.api_email_encrypted {
            Some(bytes) => Some(bytes),
            None => None,
        };
        let (more, record) = self.resolve_cloudflare_defaults(&task.given, config, raw);
        let ghost wanted = dns_run(
            self@,
            task.given@,
            task.record_type@,
            task.record_id@,
            task.content@,
            bytes_of(token),
            bytes_of(email),
            config@,
            filled(config_defaults(config@), stored_defaults(text_of(raw))),
        );
        let own = self.decrypt_per_task_client(token, email);
        let per_task = own.is_some();
        let global = self.cloudflare.is_some();
        let client = match own {
            Some(client) => client,
            None => match &self.cloudflare {
                Some(client) => client.clone(),
                None => {
                    let r = no_client("Cloudflare credentials not configured");
                    assert(r.step@ == wanted);
                    return r;
                },
            },
        };
        let mut log: Vec<String> = Vec::new();
        let own_text = text_of_bool(per_task);
        let global_text = text_of_bool(global);
        log.push(
            cat4(
                "Cloudflare client: per_task=",
                own_text.as_str(),
                " global=",
                global_text.as_str(),
            ),
        );
        append_texts(&mut log, more);
        proof {
            let defaults = filled(config_defaults(config@), stored_defaults(text_of(raw)));
            assert(texts(log@) =~= seq![
                credentials_log("Cloudflare client: per_task="@, per_task, global),
                defaults_log(defaults),
                resolved_log(task.given@, filled(task.given@, Some(defaults))),
            ]);
        }
        let step = match &record {
            Err(e) => CloudflareStep::Done { log, result: Err(e.clone()) },
            Ok(record) => {
                let content = if task.content.as_str().is_empty() {
                    match &config.public_ip {
                        Some(ip) => ip.clone(),
                        None => {
                            let step = CloudflareStep::Done {
                                log,
                                result: Err(
                                    copy_text(
                                        "No public IP saved in config. Run a GetPublicIp task first.",
                                    ),
                                ),
                            };
                            assert(step@ == wanted);
                            return CloudflareRun { client: Some(client), step };
                        },
                    }
                } else {
                    task.content.clone()
                };
                let update = DnsUpdate {
                    zone_id: record.zone_id.clone(),
                    record_type: task.record_type.clone(),
                    record_name: record.record_name.clone(),
                    content,
                    proxied: record.proxied,
                    ttl: record.ttl,
                };
                let step = client.start_dns(update, task.record_id.as_str());
                put_log(log, step)
            },
        };
        assert(step@ == wanted);
        CloudflareRun { client: Some(client), step }
    }

    /// The first step of a task that edits a list.
    pub fn run_cloudflare_ip_list_update(
        &self,
        edit: ListEdit,
        list_id: String,
        list_name: String,
        api_token_encrypted: Option<&Vec<u8>>,
        api_email_encrypted: Option<&Vec<u8>>,
    ) -> (r: CloudflareRun)
        ensures
            r.step@ == list_run(
                self@,
                edit@,
                list_id@,
                list_name@,
                bytes_of(api_token_encrypted),
                bytes_of(api_email_encrypted),
            ),
            opt_client(r.client) == list_client(
                self@,
                edit@,
                bytes_of(api_token_encrypted),
                bytes_of(api_email_encrypted),
            ),
    {
        if edit.account_id.as_str().is_empty() {
            return no_client("Account ID is required for IP List operations");
        }
        if edit.ip.as_str().is_empty() {
            return no_client("IP address is required");
        }
        let own = self.decrypt_per_task_client(api_token_encrypted, api_email_encrypted);
        let per_task = own.is_some();
        let global = self.cloudflare.is_some();
        let client = match own {
            Some(client) => client,
            None => match &self.cloudflare {
                Some(client) => client.clone(),
                None => {
                    return no_client("Cloudflare credentials not configured");
                },
            },
        };
        let mut log: Vec<String> = Vec::new();
        let own_text = text_of_bool(per_task);
        let global_text = text_of_bool(global);
        log.push(
            cat4(
                "Cloudflare IP List: per_task=",
                own_text.as_str(),
                " global=",
                global_text.as_str(),
            ),
        );
        assert(texts(log@) =~= seq![
            credentials_log("Cloudflare IP List: per_task="@, per_task, global),
        ]);
        let step = client.start_list(edit, list_id, list_name);
        CloudflareRun { client: Some(client), step: put_log(log, step) }
    }
}

impl RecordTask {
    /// The record of a task that says itself whether traffic is proxied and how
    /// long the record lives.
    pub fn new(
        zone_id: &str,
        record_name: &str,
        record_type: &str,
        record_id: &str,
        content: &str,
        proxied: bool,
        ttl: u32,
        api_token_encrypted: &Option<Vec<u8>>,
        api_email_encrypted: &Option<Vec<u8>>,
    ) -> (r: Self)
        ensures
            r.given@ == (DefaultsView {
                zone_id: zone_id@,
                record_name: record_name@,
                proxied: bool_text(proxied),
                ttl: decimal(ttl as nat),
            }),
            r.record_type@ == record_type@,
            r.record_id@ == record_id@,
            r.content@ == content@,
            opt_bytes(r.api_token_encrypted) == opt_bytes(*api_token_encrypted),
            opt_bytes(r.api_email_encrypted) == opt_bytes(*api_email_encrypted),
    {
        RecordTask {
            given: RecordDefaults {
                zone_id: copy_text(zone_id),
                record_name: copy_text(record_name),
                proxied: text_of_bool(proxied),
                ttl: decimal_text(ttl as u64),
            },
            record_type: copy_text(record_type),
            record_id: copy_text(record_id),
            content: copy_text(content),
            api_token_encrypted: copy_opt_bytes(api_token_encrypted),
            api_email_encrypted: copy_opt_bytes(api_email_encrypted),
        }
    }
}

// ---------------------------------------------------------------------------
// Messages to and from a topic
// ---------------------------------------------------------------------------

/// What a task that talks to a topic asks for.
#[derive(Debug)]
pub enum NtfyStep {
    /// It publishes a message; the log says so before.
    Publish { log: String, request: HttpRequest },
    /// It listens on the topic.
    Subscribe(HttpRequest),
}

pub enum NtfyStepView {
    Publish { log: Seq<char>, request: HttpRequestView },
    Subscribe(HttpRequestView),
}

impl View for NtfyStep {
    type V = NtfyStepView;

    open spec fn view(&self) -> NtfyStepView {
        match *self {
            NtfyStep::Publish { log, request } => NtfyStepView::Publish {
                log: log@,
                request: request@,
            },
            NtfyStep::Subscribe(request) => NtfyStepView::Subscribe(request@),
        }
    }
}

/// One header, unless its value is empty.
pub open spec fn header_part(name: Seq<char>, value: Seq<char>) -> Seq<(Seq<char>, Seq<char>)> {
    if value.len() == 0 {
        Seq::empty()
    } else {
        seq![(name, value)]
    }
}

/// What a task that talks to a topic asks for. The title and the message of what
/// it publishes have the variables of the message replaced once more.
pub open spec fn ntfy_step(
    server: Seq<char>,
    topic: Seq<char>,
    title: Seq<char>,
    message: Seq<char>,
    priority: Seq<char>,
    tags: Seq<char>,
    action: NtfyAction,
    timeout_secs: u64,
    context: Option<NtfyContextView>,
) -> NtfyStepView {
    let base = trim_end_of(server, '/');
    match action {
        NtfyAction::Publish => {
            let url = base + "/"@ + topic;
            NtfyStepView::Publish {
                log: "ntfy: publishing to "@ + url,
                request: plain_request(
                    Method::Post,
                    url,
                    header_part("Title"@, substituted(title, context, None)) + header_part(
                        "Priority"@,
                        priority,
                    ) + header_part("Tags"@, tags),
                    BodyView::Text(substituted(message, context, None)),
                ),
            }
        },
        NtfyAction::Subscribe => NtfyStepView::Subscribe(
            HttpRequestView {
                method: Method::Get,
                url: base + "/"@ + topic + "/sse"@,
                headers: Seq::empty(),
                body: BodyView::Empty,
                timeout_secs: Some((timeout_secs + 5) as u64),
            },
        ),
    }
}

/// Adds a header, unless its value is empty.
fn push_header_part(headers: &mut Vec<Pair>, name: &str, value: &str)
    ensures
        pairs(final(headers)@) == pairs(old(headers)@) + header_part(name@, value@),
{
    let ghost before = pairs(headers@);
    if !value.is_empty() {
        push_pair(headers, name, value);
        assert(pairs(headers@) =~= before + header_part(name@, value@));
    } else {
        assert(pairs(headers@) =~= before + header_part(name@, value@));
    }
}

/// What a task that talks to a topic asks for.
pub fn run_ntfy(
    server: &str,
    topic: &str,
    title: &str,
    message: &str,
    priority: &str,
    tags: &str,
    action: NtfyAction,
    timeout_secs: u64,
    ntfy: Option<&NtfyContext>,
) -> (r: NtfyStep)
    requires
        action == NtfyAction::Subscribe ==> timeout_secs <= u64::MAX - 5,
    ensures
        r@ == ntfy_step(
            server@,
            topic@,
            title@,
            message@,
            priority@,
            tags@,
            action,
            timeout_secs,
            context_of(ntfy),
        ),
{
    let base = trim_end_of_text(server, '/');
    match action {
        NtfyAction::Publish => {
            let url = cat3(base.as_str(), "/", topic);
            let log = cat2("ntfy: publishing to ", url.as_str());
            let title = substitute_variables(title, ntfy, None);
            let message = substitute_variables(message, ntfy, None);
            let mut headers: Vec<Pair> = Vec::new();
            assert(pairs(headers@) =~= Seq::<(Seq<char>, Seq<char>)>::empty());
            push_header_part(&mut headers, "Title", title.as_str());
            push_header_part(&mut headers, "Priority", priority);
            push_header_part(&mut headers, "Tags", tags);
            assert(pairs(headers@) =~= header_part("Title"@, title@) + header_part(
                "Priority"@,
                priority@,
            ) + header_part("Tags"@, tags@));
            NtfyStep::Publish {
                log,
                request: HttpRequest {
                    method: Method::Post,
                    url,
                    headers,
                    body: Body::Text(message),
                    timeout_secs: Some(30),
                },
            }
        },
        NtfyAction::Subscribe => {
            let headers: Vec<Pair> = Vec::new();
            assert(pairs(headers@) =~= Seq::<(Seq<char>, Seq<char>)>::empty());
            NtfyStep::Subscribe(
                HttpRequest {
                    method: Method::Get,
                    url: cat4(base.as_str(), "/", topic, "/sse"),
                    headers,
                    body: Body::Empty,
                    timeout_secs: Some(timeout_secs + 5),
                },
            )
        },
    }
}

/// How many bytes of a stream a subscription looks back on.
pub const SUBSCRIPTION_WINDOW: usize = 4096;

/// What a subscription has read and not yet forgotten.
pub struct SubscriptionBuffer {
    pub text: String,
}

/// Whether a text holds a message event.
pub open spec fn holds_message(s: Seq<char>) -> bool {
    contains(s, "event: message"@) && contains(s, "data: {"@)
}

/// The last bytes of a text that has grown too long.
pub open spec fn window(s: Seq<char>) -> Seq<char> {
    if encode_utf8(s).len() > SUBSCRIPTION_WINDOW {
        after_bytes(s, encode_utf8(s).len() - SUBSCRIPTION_WINDOW)
    } else {
        s
    }
}

/// Whether a text that has grown too long can be cut where it has to be.
pub open spec fn window_starts_at_char(s: Seq<char>) -> bool {
    encode_utf8(s).len() > SUBSCRIPTION_WINDOW ==> cuts_at(
        s,
        encode_utf8(s).len() - SUBSCRIPTION_WINDOW,
    )
}

/// What a subscription has heard.
#[derive(Debug, Clone, Copy, PartialEq, Eq, Structural)]
pub enum Heard {
    Message,
    Nothing,
    /// Nothing, and the text cannot be cut where it has to be.
    Split,
}

impl SubscriptionBuffer {
    pub fn new() -> (r: Self)
        ensures
            r.text@.len() == 0,
    {
        SubscriptionBuffer { text: String::new() }
    }

    /// Takes in more text; whether it holds a message now.
    pub fn push_text(&mut self, more: &str) -> (r: bool)
        requires
            holds_message(old(self).text@ + more@) || window_starts_at_char(
                old(self).text@ + more@,
            ),
        ensures
            r == holds_message(old(self).text@ + more@),
            final(self).text@ == if r {
                old(self).text@ + more@
            } else {
                window(old(self).text@ + more@)
            },
    {
        let ghost all = self.text@ + more@;
        self.text.append(more);
        assert(self.text@ =~= all);
        if text_contains(self.text.as_str(), "event: message") && text_contains(
            self.text.as_str(),
            "data: {",
        ) {
            return true;
        }
        let len = byte_len(self.text.as_str());
        if len > SUBSCRIPTION_WINDOW {
            self.text = text_after_bytes(self.text.as_str(), len - SUBSCRIPTION_WINDOW);
        }
        false
    }

    /// Takes in a chunk of a stream, unless the text could not be cut then.
    pub fn push_chunk(&mut self, chunk: &[u8]) -> (r: Heard)
        ensures
            ({
                let all = old(self).text@ + lossy(chunk@);
                if holds_message(all) {
                    r == Heard::Message && final(self).text@ == all
                } else if window_starts_at_char(all) {
                    r == Heard::Nothing && final(self).text@ == window(all)
                } else {
                    r == Heard::Split && final(self).text@ == old(self).text@
                }
            }),
    {
        let more = text_from_utf8_lossy(chunk);
        let all = cat2(self.text.as_str(), more.as_str());
        if !text_contains(all.as_str(), "event: message") || !text_contains(
            all.as_str(),
            "data: {",
        ) {
            let len = byte_len(all.as_str());
            if len > SUBSCRIPTION_WINDOW && !can_cut_at(
                all.as_str(),
                len - SUBSCRIPTION_WINDOW,
            ) {
                return Heard::Split;
            }
        }
        if self.push_text(more.as_str()) {
            Heard::Message
        } else {
            Heard::Nothing
        }
    }
}

/// For how many seconds a subscription waits for the next chunk before it looks at
/// the clock again.
pub const SUBSCRIPTION_WAIT_SECS: u64 = 1;

/// What happens to a subscription.
#[derive(Debug)]
pub enum SubscriptionEvent {
    RequestFailed(String),
    /// The server answered.
    Replied { status: u16 },
    Chunk(Vec<u8>),
    /// Nothing came while it waited.
    Silence,
    StreamFailed(String),
    StreamEnded,
}

/// What a subscription does next.
#[derive(Debug)]
pub enum SubscriptionNext {
    /// It waits for a chunk.
    Wait,
    Done(Result<bool, String>),
    /// The text cannot be cut where it has to be; reading ends there.
    Broken,
}

pub enum SubscriptionNextView {
    Wait,
    Done(Result<bool, Seq<char>>),
    Broken,
}

impl View for SubscriptionNext {
    type V = SubscriptionNextView;

    open spec fn view(&self) -> SubscriptionNextView {
        match *self {
            SubscriptionNext::Wait => SubscriptionNextView::Wait,
            SubscriptionNext::Done(result) => SubscriptionNextView::Done(bool_result(result)),
            SubscriptionNext::Broken => SubscriptionNextView::Broken,
        }
    }
}

/// Whether the time of a subscription has passed, so many nanoseconds after the
/// server answered.
pub open spec fn deadline_passed(elapsed_nanos: u128, timeout_secs: u64) -> bool {
    elapsed_nanos >= timeout_secs * 1_000_000_000
}

/// A subscription goes on while its time lasts, and ends without a message then.
pub open spec fn while_time_lasts(elapsed_nanos: u128, timeout_secs: u64) -> SubscriptionNextView {
    if deadline_passed(elapsed_nanos, timeout_secs) {
        SubscriptionNextView::Done(Ok(false))
    } else {
        SubscriptionNextView::Wait
    }
}

/// What a subscription does on an event: what it remembers afterwards, and what is
/// next. It succeeds with the first message.
pub open spec fn subscription_step(
    text: Seq<char>,
    event: SubscriptionEvent,
    elapsed_nanos: u128,
    timeout_secs: u64,
) -> (Seq<char>, SubscriptionNextView) {
    let on = while_time_lasts(elapsed_nanos, timeout_secs);
    match event {
        SubscriptionEvent::RequestFailed(e) => (text, SubscriptionNextView::Done(Err(e@))),
        SubscriptionEvent::Replied { status } => (
            text,
            if is_success(status) {
                on
            } else {
                SubscriptionNextView::Done(Ok(false))
            },
        ),
        SubscriptionEvent::Chunk(chunk) => {
            let all = text + lossy(chunk@);
            if holds_message(all) {
                (all, SubscriptionNextView::Done(Ok(true)))
            } else if window_starts_at_char(all) {
                (window(all), on)
            } else {
                (text, SubscriptionNextView::Broken)
            }
        },
        SubscriptionEvent::Silence => (text, on),
        SubscriptionEvent::StreamFailed(e) => (
            text,
            SubscriptionNextView::Done(Err("SSE stream error: "@ + e@)),
        ),
        SubscriptionEvent::StreamEnded => (text, SubscriptionNextView::Done(Ok(false))),
    }
}

impl SubscriptionBuffer {
    /// What a subscription does on an event, so many nanoseconds after the server
    /// answered.
    pub fn next(&mut self, event: SubscriptionEvent, elapsed_nanos: u128, timeout_secs: u64) -> (r:
        SubscriptionNext)
        ensures
            (final(self).text@, r@) == subscription_step(
                old(self).text@,
                event,
                elapsed_nanos,
                timeout_secs,
            ),
    {
        let passed = elapsed_nanos >= timeout_secs as u128 * 1_000_000_000;
        match event {
            SubscriptionEvent::RequestFailed(e) => SubscriptionNext::Done(Err(e)),
            SubscriptionEvent::Replied { status } => {
                let accepted = 200 <= status && status < 300;
                if !accepted || passed {
                    SubscriptionNext::Done(Ok(false))
                } else {
                    SubscriptionNext::Wait
                }
            },
            SubscriptionEvent::Chunk(chunk) => match self.push_chunk(chunk.as_slice()) {
                Heard::Message => SubscriptionNext::Done(Ok(true)),
                Heard::Split => SubscriptionNext::Broken,
                Heard::Nothing => if passed {
                    SubscriptionNext::Done(Ok(false))
                } else {
                    SubscriptionNext::Wait
                },
            },
            SubscriptionEvent::Silence => if passed {
                SubscriptionNext::Done(Ok(false))
            } else {
                SubscriptionNext::Wait
            },
            SubscriptionEvent::StreamFailed(e) => {
                SubscriptionNext::Done(Err(cat2("SSE stream error: ", e.as_str())))
            },
            SubscriptionEvent::StreamEnded => SubscriptionNext::Done(Ok(false)),
        }
    }
}

// ---------------------------------------------------------------------------
// The first step of an action
// ---------------------------------------------------------------------------

/// What an action asks for first.
pub enum ActionStep {
    /// It sends a request; the status of the reply is the result.
    Send(HttpRequest),
    /// It runs a command.
    Execute(CommandLine),
    /// It looks for a path, and for a file below it if that is asked for.
    LookFor { path: String, check_file: bool, file_path: String },
    /// It reads a file, and holds its hash against the baseline.
    Hash { file_path: String, baseline: Option<String> },
    /// It talks to a topic; a subscription lasts so many seconds.
    Talk { step: NtfyStep, timeout_secs: u64 },
    /// It asks for the public address.
    AskAddress(HttpRequest),
    /// It talks to Cloudflare.
    AskCloudflare(CloudflareRun),
}

pub enum ActionStepView {
    Send(HttpRequestView),
    Execute { program: Seq<char>, args: Seq<Seq<char>>, dir: Option<Seq<char>> },
    LookFor { path: Seq<char>, check_file: bool, file_path: Seq<char> },
    Hash { file_path: Seq<char>, baseline: Option<Seq<char>> },
    Talk { step: NtfyStepView, timeout_secs: u64 },
    AskAddress(HttpRequestView),
    AskCloudflare { client: Option<ClientView>, step: CloudflareStepView },
}

impl View for ActionStep {
    type V = ActionStepView;

    open spec fn view(&self) -> ActionStepView {
        match *self {
            ActionStep::Send(request) => ActionStepView::Send(request@),
            ActionStep::Execute(line) => ActionStepView::Execute {
                program: line.program@,
                args: texts(line.args@),
                dir: opt_text(line.dir),
            },
            ActionStep::LookFor { path, check_file, file_path } => ActionStepView::LookFor {
                path: path@,
                check_file,
                file_path: file_path@,
            },
            ActionStep::Hash { file_path, baseline } => ActionStepView::Hash {
                file_path: file_path@,
                baseline: opt_text(baseline),
            },
            ActionStep::Talk { step, timeout_secs } => ActionStepView::Talk {
                step: step@,
                timeout_secs,
            },
            ActionStep::AskAddress(request) => ActionStepView::AskAddress(request@),
            ActionStep::AskCloudflare(run) => ActionStepView::AskCloudflare {
                client: opt_client(run.client),
                step: run.step@,
            },
        }
    }
}

/// Whether the time limit of the request of a subscription can be told: it is a
/// little longer than the subscription.
pub open spec fn limit_fits(task_type: TaskTypeView) -> bool {
    task_type matches TaskTypeView::Ntfy { action, subscribe_timeout_secs, .. } ==> (action
        == NtfyAction::Subscribe ==> subscribe_timeout_secs <= u64::MAX - 5)
}

/// Whether the time limit of the request of a subscription can be told.
pub fn has_limit(task_type: &TaskType) -> (r: bool)
    ensures
        r == limit_fits(task_type@),
{
    match task_type {
        TaskType::Ntfy { action, subscribe_timeout_secs, .. } => {
            *action != NtfyAction::Subscribe || *subscribe_timeout_secs <= u64::MAX - 5
        },
        _ => true,
    }
}

/// What an action asks for first. The variables in its texts have been replaced
/// before.
pub open spec fn action_step(
    scheduler: SchedulerView,
    task_type: TaskTypeView,
    context: Option<NtfyContextView>,
    config: ConfigView,
    raw: Option<Seq<char>>,
) -> ActionStepView {
    match task_type {
        TaskTypeView::HttpGet { url } => ActionStepView::Send(
            plain_request(Method::Get, url, Seq::empty(), BodyView::Empty),
        ),
        TaskTypeView::HttpPost { url, body, headers } => ActionStepView::Send(
            plain_request(
                Method::Post,
                url,
                header_pairs(lines(headers)),
                BodyView::Text(body),
            ),
        ),
        TaskTypeView::Command { command, args, working_dir } => ActionStepView::Execute {
            program: "cmd"@,
            args: command_args(command, args),
            dir: command_dir(working_dir),
        },
        TaskTypeView::PathCheck { path, check_file_exists, file_path } => ActionStepView::LookFor {
            path,
            check_file: check_file_exists,
            file_path,
        },
        TaskTypeView::FileChanged { file_path, baseline_hash } => ActionStepView::Hash {
            file_path,
            baseline: baseline_hash,
        },
        TaskTypeView::Ntfy {
            server,
            topic,
            title,
            message,
            priority,
            tags,
            action,
            subscribe_timeout_secs,
        } => ActionStepView::Talk {
            step: ntfy_step(
                server,
                topic,
                title,
                message,
                priority,
                tags,
                action,
                subscribe_timeout_secs,
                context,
            ),
            timeout_secs: subscribe_timeout_secs,
        },
        TaskTypeView::GetPublicIp => ActionStepView::AskAddress(
            plain_request(Method::Get, "https://api.ipify.org"@, Seq::empty(), BodyView::Empty),
        ),
        TaskTypeView::CloudflareDnsUpdate {
            zone_id,
            record_name,
            record_type,
            record_id,
            content,
            proxied,
            ttl,
            api_token_encrypted,
            api_email_encrypted,
            ..
        } => ActionStepView::AskCloudflare {
            client: client_of_run(scheduler, api_token_encrypted, api_email_encrypted),
            step: dns_run(
                scheduler,
                DefaultsView {
                    zone_id,
                    record_name,
                    proxied: bool_text(proxied),
                    ttl: decimal(ttl as nat),
                },
                record_type,
                record_id,
                content,
                api_token_encrypted,
                api_email_encrypted,
                config,
                filled(config_defaults(config), stored_defaults(raw)),
            ),
        },
        TaskTypeView::CloudflareIpListUpdate {
            account_id,
            list_id,
            list_name,
            ip,
            comment,
            action,
            api_token_encrypted,
            api_email_encrypted,
            ..
        } => {
            let edit = ListEditView { account_id, ip, comment, action };
            ActionStepView::AskCloudflare {
                client: list_client(scheduler, edit, api_token_encrypted, api_email_encrypted),
                step: list_run(
                    scheduler,
                    edit,
                    list_id,
                    list_name,
                    api_token_encrypted,
                    api_email_encrypted,
                ),
            }
        },
    }
}

impl Scheduler {
    /// What an action asks for first, once the variables in its texts have been
    /// replaced.
    pub fn start_action(
        &self,
        action: TaskType,
        ntfy: Option<&NtfyContext>,
        config: &Config,
        raw: Option<&str>,
    ) -> (r: ActionStep)
        requires
            limit_fits(action@),
        ensures
            r@ == action_step(self@, action@, context_of(ntfy), config@, text_of(raw)),
    {
        match action {
            TaskType::HttpGet { url } => ActionStep::Send(run_http_get(url.as_str())),
            TaskType::HttpPost { url, body, headers } => ActionStep::Send(
                run_http_post(url.as_str(), body.as_str(), headers.as_str()),
            ),
            TaskType::Command { command, args, working_dir } => ActionStep::Execute(
                run_command(command.as_str(), args.as_str(), working_dir.as_str()),
            ),
            TaskType::PathCheck { path, check_file_exists, file_path } => ActionStep::LookFor {
                path,
                check_file: check_file_exists,
                file_path,
            },
            TaskType::FileChanged { file_path, baseline_hash } => ActionStep::Hash {
                file_path,
                baseline: baseline_hash,
            },
            TaskType::Ntfy {
                server,
                topic,
                title,
                message,
                priority,
                tags,
                action,
                subscribe_timeout_secs,
            } => ActionStep::Talk {
                step: run_ntfy(
                    server.as_str(),
                    topic.as_str(),
                    title.as_str(),
                    message.as_str(),
                    priority.as_str(),
                    tags.as_str(),
                    action,
                    subscribe_timeout_secs,
                    ntfy,
                ),
                timeout_secs: subscribe_timeout_secs,
            },
            TaskType::GetPublicIp => ActionStep::AskAddress(public_ip_request()),
            TaskType::CloudflareDnsUpdate {
                zone_id,
                record_name,
                record_type,
                record_id,
                content,
                proxied,
                ttl,
                api_token_encrypted,
                api_email_encrypted,
                ..
            } => {
                let task = RecordTask::new(
                    zone_id.as_str(),
                    record_name.as_str(),
                    record_type.as_str(),
                    record_id.as_str(),
                    content.as_str(),
                    proxied,
                    ttl,
                    &api_token_encrypted,
                    &api_email_encrypted,
                );
                ActionStep::AskCloudflare(self.run_cloudflare_dns_update(&task, config, raw))
            },
            TaskType::CloudflareIpListUpdate {
                account_id,
                list_id,
                list_name,
                ip,
                comment,
                action,
                api_token_encrypted,
                api_email_encrypted,
                ..
            } => {
                let token: Option<&Vec<u8>> = match &api_token_encrypted {
                    Some(bytes) => Some(bytes),
                    None => None,
                };
                let email: Option<&Vec<u8>> = match &api_email_encrypted {
                    Some(bytes) => Some(bytes),
                    None => None,
                };
                ActionStep::AskCloudflare(
                    self.run_cloudflare_ip_list_update(
                        ListEdit { account_id, ip, comment, action },
                        list_id,
                        list_name,
                        token,
                        email,
                    ),
                )
            },
        }
    }
}

// ---------------------------------------------------------------------------
// Laws
// ---------------------------------------------------------------------------

/// A text that neither begins nor ends with a blank stays as it is.
proof fn lemma_trim_solid(s: Seq<char>)
    requires
        s.len() > 0,
        !is_space(s[0]),
        !is_space(s.last()),
    ensures
        trim(s) == s,
{
}

/// What a task says itself of its record wins over every default: where it says
/// whether traffic is proxied and how long the record lives, no default changes
/// that.
pub proof fn law_task_wins_over_defaults(
    zone_id: Seq<char>,
    record_name: Seq<char>,
    proxied: bool,
    ttl: u32,
    defaults: DefaultsView,
)
    ensures
        ({
            let task = DefaultsView {
                zone_id,
                record_name,
                proxied: bool_text(proxied),
                ttl: decimal(ttl as nat),
            };
            let zone = or_else(zone_id, defaults.zone_id);
            let name = or_else(record_name, defaults.record_name);
            zone.len() > 0 && name.len() > 0 ==> resolved(filled(task, Some(defaults))) == Ok::<
                RecordView,
                Seq<char>,
            >(RecordView { zone_id: zone, record_name: name, proxied, ttl })
        }),
{
    reveal_strlit("true");
    reveal_strlit("false");
    lemma_trim_solid(bool_text(proxied));
    assert("true"@ != "false"@) by {
        assert("true"@[0] != "false"@[0]);
    }
    let digits = decimal(ttl as nat);
    lemma_decimal_digits(ttl as nat);
    lemma_trim_solid(digits);
    law_decimal_reads_back(ttl as nat, u32::MAX as nat);
}

/// The credentials of a task win over those of the scheduler, which serve where
/// the task has none.
pub proof fn law_task_credentials_come_first(
    scheduler: SchedulerView,
    token: Option<Seq<u8>>,
    email: Option<Seq<u8>>,
)
    ensures
        per_task_client(scheduler, token, email) is Some ==> client_of_run(scheduler, token, email)
            == per_task_client(scheduler, token, email),
        per_task_client(scheduler, token, email) is None ==> client_of_run(scheduler, token, email)
            == scheduler.cloudflare,
        token is None ==> per_task_client(scheduler, token, email) is None,
{
}

/// A file whose contents are those of the baseline has not changed.
pub proof fn law_same_contents_are_no_change(contents: Vec<u8>)
    ensures
        changed(opt_hash(Some(contents)), Some(file_hash(contents@))) == Ok::<bool, Seq<char>>(
            false,
        ),
{
}

/// Every text of a task that sends a request reads with the values of its variables
/// when the action is run.
pub proof fn law_request_tasks_read_their_variables(
    url: Seq<char>,
    body: Seq<char>,
    headers: Seq<char>,
    c: Option<NtfyContextView>,
    ip: Option<Seq<char>>,
)
    ensures
        prepared(TaskTypeView::HttpGet { url }, c, ip) matches TaskTypeView::HttpGet { url: u }
            && reads_as(url, u, c, ip),
        prepared(TaskTypeView::HttpPost { url, body, headers }, c, ip) matches
            TaskTypeView::HttpPost { url: u, body: b, headers: h } && reads_as(url, u, c, ip)
            && reads_as(body, b, c, ip) && reads_as(headers, h, c, ip),
{
    law_variables_are_read(url, c, ip);
    law_variables_are_read(body, c, ip);
    law_variables_are_read(headers, c, ip);
}

/// Every text of a task that runs a command reads with the values of its variables when
/// the action is run: the command, its arguments and its directory.
pub proof fn law_command_tasks_read_their_variables(
    command: Seq<char>,
    args: Seq<char>,
    working_dir: Seq<char>,
    c: Option<NtfyContextView>,
    ip: Option<Seq<char>>,
)
    ensures
        prepared(TaskTypeView::Command { command, args, working_dir }, c, ip) matches
            TaskTypeView::Command { command: p, args: a, working_dir: d } && reads_as(
            command,
            p,
            c,
            ip,
        ) && reads_as(args, a, c, ip) && reads_as(working_dir, d, c, ip),
{
    law_variables_are_read(command, c, ip);
    law_variables_are_read(args, c, ip);
    law_variables_are_read(working_dir, c, ip);
}

/// Every text of a task that looks at a path or a file reads with the values of its
/// variables when the action is run; what else the task says stays as it is.
pub proof fn law_path_tasks_read_their_variables(
    path: Seq<char>,
    check_file_exists: bool,
    file_path: Seq<char>,
    baseline_hash: Option<Seq<char>>,
    c: Option<NtfyContextView>,
    ip: Option<Seq<char>>,
)
    ensures
        prepared(TaskTypeView::PathCheck { path, check_file_exists, file_path }, c, ip) matches
            TaskTypeView::PathCheck { path: p, check_file_exists: check, file_path: f }
            && reads_as(path, p, c, ip) && check == check_file_exists && reads_as(
            file_path,
            f,
            c,
            ip,
        ),
        prepared(TaskTypeView::FileChanged { file_path, baseline_hash }, c, ip) matches
            TaskTypeView::FileChanged { file_path: f, baseline_hash: b } && reads_as(
            file_path,
            f,
            c,
            ip,
        ) && b == baseline_hash,
        prepared(TaskTypeView::GetPublicIp, c, ip) is GetPublicIp,
{
    law_variables_are_read(path, c, ip);
    law_variables_are_read(file_path, c, ip);
}

/// Every text of a task that talks to a topic reads with the values of its variables
/// when the action is run; what else the task says stays as it is.
pub proof fn law_topic_tasks_read_their_variables(
    server: Seq<char>,
    topic: Seq<char>,
    title: Seq<char>,
    message: Seq<char>,
    priority: Seq<char>,
    tags: Seq<char>,
    action: NtfyAction,
    subscribe_timeout_secs: u64,
    c: Option<NtfyContextView>,
    ip: Option<Seq<char>>,
)
    ensures
        prepared(
            TaskTypeView::Ntfy {
                server,
                topic,
                title,
                message,
                priority,
                tags,
                action,
                subscribe_timeout_secs,
            },
            c,
            ip,
        ) matches TaskTypeView::Ntfy {
            server: s,
            topic: t,
            title: n,
            message: m,
            priority: p,
            tags: g,
            action: a,
            subscribe_timeout_secs: secs,
        } && reads_as(server, s, c, ip) && reads_as(topic, t, c, ip) && reads_as(title, n, c, ip)
            && reads_as(message, m, c, ip) && reads_as(priority, p, c, ip) && reads_as(
            tags,
            g,
            c,
            ip,
        ) && a == action && secs == subscribe_timeout_secs,
{
    law_variables_are_read(server, c, ip);
    law_variables_are_read(topic, c, ip);
    law_variables_are_read(title, c, ip);
    law_variables_are_read(message, c, ip);
    law_variables_are_read(priority, c, ip);
    law_variables_are_read(tags, c, ip);
}

/// Every text of a task that updates a record reads with the values of its variables
/// when the action is run; what else the task says stays as it is, its secrets among
/// that.
pub proof fn law_record_tasks_read_their_variables(
    task_type: TaskTypeView,
    c: Option<NtfyContextView>,
    ip: Option<Seq<char>>,
)
    requires
        task_type is CloudflareDnsUpdate,
    ensures
        ({
            let read = prepared(task_type, c, ip);
            &&& read is CloudflareDnsUpdate
            &&& reads_as(
                task_type->CloudflareDnsUpdate_zone_id,
                read->CloudflareDnsUpdate_zone_id,
                c,
                ip,
            )
            &&& reads_as(
                task_type->CloudflareDnsUpdate_record_name,
                read->CloudflareDnsUpdate_record_name,
                c,
                ip,
            )
            &&& reads_as(
                task_type->CloudflareDnsUpdate_record_type,
                read->CloudflareDnsUpdate_record_type,
                c,
                ip,
            )
            &&& reads_as(
                task_type->CloudflareDnsUpdate_record_id,
                read->CloudflareDnsUpdate_record_id,
                c,
                ip,
            )
            &&& reads_as(
                task_type->CloudflareDnsUpdate_content,
                read->CloudflareDnsUpdate_content,
                c,
                ip,
            )
            &&& read->CloudflareDnsUpdate_proxied == task_type->CloudflareDnsUpdate_proxied
            &&& read->CloudflareDnsUpdate_ttl == task_type->CloudflareDnsUpdate_ttl
            &&& read->CloudflareDnsUpdate_api_token_plain
                == task_type->CloudflareDnsUpdate_api_token_plain
            &&& read->CloudflareDnsUpdate_api_email_plain
                == task_type->CloudflareDnsUpdate_api_email_plain
            &&& read->CloudflareDnsUpdate_api_token_encrypted
                == task_type->CloudflareDnsUpdate_api_token_encrypted
            &&& read->CloudflareDnsUpdate_api_email_encrypted
                == task_type->CloudflareDnsUpdate_api_email_encrypted
        }),
{
    law_variables_are_read(task_type->CloudflareDnsUpdate_zone_id, c, ip);
    law_variables_are_read(task_type->CloudflareDnsUpdate_record_name, c, ip);
    law_variables_are_read(task_type->CloudflareDnsUpdate_record_type, c, ip);
    law_variables_are_read(task_type->CloudflareDnsUpdate_record_id, c, ip);
    law_variables_are_read(task_type->CloudflareDnsUpdate_content, c, ip);
}

/// Every text of a task that edits a list reads with the values of its variables when
/// the action is run; what else the task says stays as it is, its secrets among that.
pub proof fn law_list_tasks_read_their_variables(
    task_type: TaskTypeView,
    c: Option<NtfyContextView>,
    ip: Option<Seq<char>>,
)
    requires
        task_type is CloudflareIpListUpdate,
    ensures
        ({
            let read = prepared(task_type, c, ip);
            &&& read is CloudflareIpListUpdate
            &&& reads_as(
                task_type->CloudflareIpListUpdate_account_id,
                read->CloudflareIpListUpdate_account_id,
                c,
                ip,
            )
            &&& reads_as(
                task_type->CloudflareIpListUpdate_list_id,
                read->CloudflareIpListUpdate_list_id,
                c,
                ip,
            )
            &&& reads_as(
                task_type->CloudflareIpListUpdate_list_name,
                read->CloudflareIpListUpdate_list_name,
                c,
                ip,
            )
            &&& reads_as(
                task_type->CloudflareIpListUpdate_ip,
                read->CloudflareIpListUpdate_ip,
                c,
                ip,
            )
            &&& reads_as(
                task_type->CloudflareIpListUpdate_comment,
                read->CloudflareIpListUpdate_comment,
                c,
                ip,
            )
            &&& read->CloudflareIpListUpdate_action == task_type->CloudflareIpListUpdate_action
            &&& read->CloudflareIpListUpdate_api_token_plain
                == task_type->CloudflareIpListUpdate_api_token_plain
            &&& read->CloudflareIpListUpdate_api_email_plain
                == task_type->CloudflareIpListUpdate_api_email_plain
            &&& read->CloudflareIpListUpdate_api_token_encrypted
                == task_type->CloudflareIpListUpdate_api_token_encrypted
            &&& read->CloudflareIpListUpdate_api_email_encrypted
                == task_type->CloudflareIpListUpdate_api_email_encrypted
        }),
{
    law_variables_are_read(task_type->CloudflareIpListUpdate_account_id, c, ip);
    law_variables_are_read(task_type->CloudflareIpListUpdate_list_id, c, ip);
    law_variables_are_read(task_type->CloudflareIpListUpdate_list_name, c, ip);
    law_variables_are_read(task_type->CloudflareIpListUpdate_ip, c, ip);
    law_variables_are_read(task_type->CloudflareIpListUpdate_comment, c, ip);
}

/// A task that sends a request asks for that request: a GET without headers and body,
/// or a POST with the body. It gives up after half a minute.
pub proof fn law_requests_are_sent(
    scheduler: SchedulerView,
    url: Seq<char>,
    body: Seq<char>,
    headers: Seq<char>,
    c: Option<NtfyContextView>,
    config: ConfigView,
    raw: Option<Seq<char>>,
)
    ensures
        action_step(scheduler, TaskTypeView::HttpGet { url }, c, config, raw) matches
            ActionStepView::Send(r) && r.method == Method::Get && r.url == url && r.headers.len()
            == 0 && r.body is Empty && r.timeout_secs == Some(30u64),
        action_step(
            scheduler,
            TaskTypeView::HttpPost { url, body, headers },
            c,
            config,
            raw,
        ) matches ActionStepView::Send(r) && r.method == Method::Post && r.url == url && r.body
            == BodyView::Text(body) && r.timeout_secs == Some(30u64),
{
}

/// The headers of a request, as its task gives them.
pub open spec fn sent_headers(
    scheduler: SchedulerView,
    headers: Seq<char>,
    config: ConfigView,
) -> Seq<(Seq<char>, Seq<char>)> {
    let task = TaskTypeView::HttpPost { url: Seq::empty(), body: Seq::empty(), headers };
    action_step(scheduler, task, None, config, None)->Send_0.headers
}

/// Each line of the headers of a task gives a header: what stands before its first
/// colon is the name, and what stands behind it is the value, both without the blanks
/// around them. A line without a colon gives none. The lines come one after the other.
pub proof fn law_each_line_is_a_header(
    scheduler: SchedulerView,
    config: ConfigView,
    name: Seq<char>,
    value: Seq<char>,
    other: Seq<char>,
    rest: Seq<char>,
)
    requires
        forall|i: int|
            0 <= i < name.len() ==> #[trigger] name[i] != ':' && name[i] != '\n' && name[i] != '\r',
        forall|i: int| 0 <= i < value.len() ==> #[trigger] value[i] != '\n' && value[i] != '\r',
        forall|i: int|
            0 <= i < other.len() ==> #[trigger] other[i] != ':' && other[i] != '\n' && other[i]
                != '\r',
    ensures
        sent_headers(scheduler, Seq::empty(), config).len() == 0,
        sent_headers(scheduler, name + seq![':'] + value, config) == seq![
            (trim(name), trim(value)),
        ],
        sent_headers(scheduler, name + seq![':'] + value + seq!['\n'] + rest, config) == seq![
            (trim(name), trim(value)),
        ] + sent_headers(scheduler, rest, config),
        sent_headers(scheduler, other, config).len() == 0,
        sent_headers(scheduler, other + seq!['\n'] + rest, config) == sent_headers(
            scheduler,
            rest,
            config,
        ),
{
    let line = name + seq![':'] + value;
    assert forall|i: int| 0 <= i < line.len() implies #[trigger] line[i] != '\n' && line[i]
        != '\r' by {
        if i < name.len() {
            assert(line[i] == name[i]);
        } else if i > name.len() {
            assert(line[i] == value[i - name.len() - 1]);
        }
    }
    law_lines_end_with_line_feeds(line, rest);
    law_lines_end_with_line_feeds(other, rest);
    let none = Seq::<Seq<char>>::empty();
    assert(lines(Seq::<char>::empty()) =~= none);
    lemma_header_line(line, name, value);
    lemma_no_header_line(other);
    lemma_header_pairs_add(seq![line], lines(rest));
    lemma_header_pairs_add(seq![other], lines(rest));
    assert(header_pairs(none).len() == 0);
    if other.len() == 0 {
        assert(other =~= Seq::<char>::empty());
    }
    assert(Seq::<(Seq<char>, Seq<char>)>::empty() + header_pairs(lines(rest)) =~= header_pairs(
        lines(rest),
    ));
}

/// A line with a colon gives a header.
proof fn lemma_header_line(line: Seq<char>, name: Seq<char>, value: Seq<char>)
    requires
        line == name + seq![':'] + value,
        forall|i: int| 0 <= i < name.len() ==> #[trigger] name[i] != ':',
    ensures
        header_pairs(seq![line]) == seq![(trim(name), trim(value))],
{
    let n = name.len() as int;
    lemma_find_char(line, ':');
    assert(line[n] == ':');
    assert(find_char(line, ':') == Some(n)) by {
        let i = find_char(line, ':')->0;
        if i < n {
            assert(line[i] == name[i]);
        }
    }
    assert(line.take(n) =~= name);
    assert(line.skip(n + 1) =~= value);
    reveal_with_fuel(header_pairs, 2);
    assert(seq![line].drop_last() =~= Seq::<Seq<char>>::empty());
    assert(header_pairs(seq![line]) =~= seq![(trim(name), trim(value))]);
}

/// A line without a colon gives none.
proof fn lemma_no_header_line(line: Seq<char>)
    requires
        forall|i: int| 0 <= i < line.len() ==> #[trigger] line[i] != ':',
    ensures
        header_pairs(seq![line]) == Seq::<(Seq<char>, Seq<char>)>::empty(),
{
    lemma_find_char(line, ':');
    reveal_with_fuel(header_pairs, 2);
    assert(seq![line].drop_last() =~= Seq::<Seq<char>>::empty());
}

/// The headers of lines are those of the first ones, and behind them those of the others.
proof fn lemma_header_pairs_add(a: Seq<Seq<char>>, b: Seq<Seq<char>>)
    ensures
        header_pairs(a + b) == header_pairs(a) + header_pairs(b),
    decreases b.len(),
{
    if b.len() == 0 {
        assert(a + b =~= a);
        assert(header_pairs(a) + header_pairs(b) =~= header_pairs(a));
    } else {
        assert((a + b).drop_last() =~= a + b.drop_last());
        lemma_header_pairs_add(a, b.drop_last());
        assert(header_pairs(a + b) =~= header_pairs(a) + header_pairs(b));
    }
}

/// A request of a task succeeds if and only if its reply has a status between 200 and
/// 299; where no reply came, what went wrong is the error.
pub proof fn law_replies_decide(reply: HttpReplyView, e: Seq<char>)
    ensures
        reply_result(Ok(reply)) == Ok::<bool, Seq<char>>(200 <= reply.status <= 299),
        reply_result(Err(e)) == Err::<bool, Seq<char>>(e),
{
}

/// A task that runs a command hands it to the command interpreter, with its arguments
/// behind it unless there are none, and in its directory unless there is none.
pub proof fn law_commands_are_executed(
    scheduler: SchedulerView,
    command: Seq<char>,
    args: Seq<char>,
    working_dir: Seq<char>,
    c: Option<NtfyContextView>,
    config: ConfigView,
    raw: Option<Seq<char>>,
)
    ensures
        action_step(
            scheduler,
            TaskTypeView::Command { command, args, working_dir },
            c,
            config,
            raw,
        ) matches ActionStepView::Execute { program, args: list, dir } && program == "cmd"@ && (
        args.len() > 0 ==> list == seq!["/C"@, command, args]) && (args.len() == 0 ==> list == seq![
            "/C"@,
            command,
        ]) && (working_dir.len() > 0 ==> dir == Some(working_dir)) && (working_dir.len() == 0
            ==> dir is None),
{
}

/// A command succeeds where it ends well. Otherwise the error tells what it wrote to its
/// error output, or why it could not be started.
pub proof fn law_commands_end(success: bool, stderr: Vec<u8>, e: String)
    ensures
        success ==> command_result(CommandOutcome::Ended { success, stderr }) == Ok::<
            bool,
            Seq<char>,
        >(true),
        !success ==> command_result(CommandOutcome::Ended { success, stderr }) == Err::<
            bool,
            Seq<char>,
        >("Command failed: "@ + lossy(stderr@)),
        command_result(CommandOutcome::NotStarted(e)) == Err::<bool, Seq<char>>(
            "Failed to execute: "@ + e@,
        ),
{
}

/// A task that looks at a path, at a file or for the public address asks for just that.
pub proof fn law_paths_and_addresses_are_asked_for(
    scheduler: SchedulerView,
    path: Seq<char>,
    check_file_exists: bool,
    file_path: Seq<char>,
    baseline_hash: Option<Seq<char>>,
    c: Option<NtfyContextView>,
    config: ConfigView,
    raw: Option<Seq<char>>,
)
    ensures
        action_step(
            scheduler,
            TaskTypeView::PathCheck { path, check_file_exists, file_path },
            c,
            config,
            raw,
        ) == (ActionStepView::LookFor { path, check_file: check_file_exists, file_path }),
        action_step(
            scheduler,
            TaskTypeView::FileChanged { file_path, baseline_hash },
            c,
            config,
            raw,
        ) == (ActionStepView::Hash { file_path, baseline: baseline_hash }),
        action_step(scheduler, TaskTypeView::GetPublicIp, c, config, raw) matches
            ActionStepView::AskAddress(r) && r.method == Method::Get && r.url
            == "https://api.ipify.org"@ && r.headers.len() == 0 && r.body is Empty && r.timeout_secs
            == Some(30u64),
{
}

/// A file has changed if and only if its hash is not the one that it is held against;
/// without contents or without such a hash nothing can be said.
pub proof fn law_changes_are_told_by_hashes(contents: Vec<u8>, baseline: Seq<char>)
    ensures
        changed(opt_hash(Some(contents)), Some(baseline)) == Ok::<bool, Seq<char>>(
            file_hash(contents@) != baseline,
        ),
        changed(opt_hash(Some(contents)), None) == Err::<bool, Seq<char>>("No baseline hash set"@),
        changed(opt_hash(None), Some(baseline)) == Err::<bool, Seq<char>>("Cannot read file"@),
        changed(opt_hash(None), None) == Err::<bool, Seq<char>>("Cannot read file"@),
{
}

/// The public address is the text of the reply without the blanks around it; where no
/// reply came, or none that can be read, what went wrong is the error.
pub proof fn law_the_address_is_the_reply(status: u16, bytes: Seq<u8>, e: Seq<char>)
    ensures
        told_address(Ok(HttpReplyView { status, body: Ok(bytes) })) == Ok::<Seq<char>, Seq<char>>(
            trim(lossy(bytes)),
        ),
        told_address(Ok(HttpReplyView { status, body: Err(e) })) == Err::<Seq<char>, Seq<char>>(e),
        told_address(Err(e)) == Err::<Seq<char>, Seq<char>>(e),
{
}

/// A task that publishes on a topic posts its message to the address of the topic, with
/// its title, its priority and its tags as headers, each unless it is empty, and says so
/// in the log. The server is named without the slashes behind it.
pub proof fn law_messages_are_published(
    scheduler: SchedulerView,
    server: Seq<char>,
    slashes: Seq<char>,
    topic: Seq<char>,
    title: Seq<char>,
    message: Seq<char>,
    priority: Seq<char>,
    tags: Seq<char>,
    subscribe_timeout_secs: u64,
    c: Option<NtfyContextView>,
    config: ConfigView,
    raw: Option<Seq<char>>,
)
    requires
        server.len() > 0 ==> server.last() != '/',
        forall|i: int| 0 <= i < slashes.len() ==> #[trigger] slashes[i] == '/',
    ensures
        ({
            let task = TaskTypeView::Ntfy {
                server: server + slashes,
                topic,
                title,
                message,
                priority,
                tags,
                action: NtfyAction::Publish,
                subscribe_timeout_secs,
            };
            action_step(scheduler, task, c, config, raw) matches ActionStepView::Talk { step, .. }
                && (step matches NtfyStepView::Publish { log, request } && log
                == "ntfy: publishing to "@ + (server + "/"@ + topic) && request.method
                == Method::Post && request.url == server + "/"@ + topic && request.timeout_secs
                == Some(30u64) && (request.body matches BodyView::Text(text) && reads_as(
                message,
                text,
                c,
                None,
            )) && exists|read: Seq<char>|
                #[trigger] reads_as(title, read, c, None) && request.headers == (if read.len() > 0 {
                    seq![("Title"@, read)]
                } else {
                    Seq::<(Seq<char>, Seq<char>)>::empty()
                }) + (if priority.len() > 0 {
                    seq![("Priority"@, priority)]
                } else {
                    Seq::<(Seq<char>, Seq<char>)>::empty()
                }) + (if tags.len() > 0 {
                    seq![("Tags"@, tags)]
                } else {
                    Seq::<(Seq<char>, Seq<char>)>::empty()
                }))
        }),
{
    lemma_server(server, slashes);
    law_variables_are_read(message, c, None);
    law_variables_are_read(title, c, None);
    let read = substituted(title, c, None);
    assert(reads_as(title, read, c, None));
}

/// The server without the slashes behind it.
proof fn lemma_server(server: Seq<char>, slashes: Seq<char>)
    requires
        server.len() > 0 ==> server.last() != '/',
        forall|i: int| 0 <= i < slashes.len() ==> #[trigger] slashes[i] == '/',
    ensures
        trim_end_of(server + slashes, '/') == server,
{
    let whole = server + slashes;
    let k = law_trim_end_of_takes_all(whole, '/');
    let n = server.len() as int;
    if k < n {
        assert(whole[n - 1] == server.last());
    }
    if k > n {
        assert(whole[k - 1] == slashes[k - 1 - n]);
    }
    assert(whole.take(n) =~= server);
}

/// A task that listens on a topic asks for the stream of the topic, for five seconds
/// more than it listens.
pub proof fn law_topics_are_listened_to(
    scheduler: SchedulerView,
    server: Seq<char>,
    slashes: Seq<char>,
    topic: Seq<char>,
    title: Seq<char>,
    message: Seq<char>,
    priority: Seq<char>,
    tags: Seq<char>,
    subscribe_timeout_secs: u64,
    c: Option<NtfyContextView>,
    config: ConfigView,
    raw: Option<Seq<char>>,
)
    requires
        server.len() > 0 ==> server.last() != '/',
        forall|i: int| 0 <= i < slashes.len() ==> #[trigger] slashes[i] == '/',
        subscribe_timeout_secs <= u64::MAX - 5,
    ensures
        ({
            let task = TaskTypeView::Ntfy {
                server: server + slashes,
                topic,
                title,
                message,
                priority,
                tags,
                action: NtfyAction::Subscribe,
                subscribe_timeout_secs,
            };
            action_step(scheduler, task, c, config, raw) matches ActionStepView::Talk {
                step,
                timeout_secs,
            } && timeout_secs == subscribe_timeout_secs && (step matches NtfyStepView::Subscribe(r)
                && r.method == Method::Get && r.url == server + "/"@ + topic + "/sse"@
                && r.headers.len() == 0 && r.body is Empty && (r.timeout_secs matches Some(secs)
                && secs == subscribe_timeout_secs + 5))
        }),
{
    lemma_server(server, slashes);
}

/// A subscription succeeds with a message: with a chunk after which what it remembers
/// holds both the name of a message event and the start of its data. It fails where the
/// server cannot be asked or the stream breaks, and ends without success where the
/// server refuses, the stream ends or the time has passed. Otherwise it waits.
pub proof fn law_subscriptions_end(
    text: Seq<char>,
    chunk: Vec<u8>,
    status: u16,
    e: String,
    elapsed_nanos: u128,
    timeout_secs: u64,
)
    ensures
        ({
            let late = elapsed_nanos >= timeout_secs * 1_000_000_000;
            let after = |event: SubscriptionEvent|
                subscription_step(text, event, elapsed_nanos, timeout_secs);
            let goes_on = if late {
                SubscriptionNextView::Done(Ok(false))
            } else {
                SubscriptionNextView::Wait
            };
            let all = text + lossy(chunk@);
            &&& after(SubscriptionEvent::RequestFailed(e)).1 == SubscriptionNextView::Done(Err(e@))
            &&& after(SubscriptionEvent::StreamFailed(e)).1 == SubscriptionNextView::Done(
                Err("SSE stream error: "@ + e@),
            )
            &&& after(SubscriptionEvent::StreamEnded).1 == SubscriptionNextView::Done(Ok(false))
            &&& after(SubscriptionEvent::Silence) == (text, goes_on)
            &&& 200 <= status <= 299 ==> after(SubscriptionEvent::Replied { status }) == (
                text,
                goes_on,
            )
            &&& !(200 <= status <= 299) ==> after(SubscriptionEvent::Replied { status }).1
                == SubscriptionNextView::Done(Ok(false))
            &&& (stands_in("event: message"@, all) && stands_in("data: {"@, all)) <==> after(
                SubscriptionEvent::Chunk(chunk),
            ).1 == SubscriptionNextView::Done(Ok(true))
            &&& !(stands_in("event: message"@, all) && stands_in("data: {"@, all)) && encode_utf8(
                all,
            ).len() <= 4096 ==> after(SubscriptionEvent::Chunk(chunk)) == (all, goes_on)
        }),
{
    let all = text + lossy(chunk@);
    law_containing_is_standing_in(all, "event: message"@);
    law_containing_is_standing_in(all, "data: {"@);
}

/// A subscription that has read too much remembers the last 4096 bytes, where they begin
/// with a character.
pub proof fn law_subscriptions_remember_the_end(
    text: Seq<char>,
    chunk: Vec<u8>,
    front: Seq<char>,
    back: Seq<char>,
    elapsed_nanos: u128,
    timeout_secs: u64,
)
    requires
        text + lossy(chunk@) == front + back,
        front.len() > 0,
        encode_utf8(back).len() == 4096,
        !(stands_in("event: message"@, front + back) && stands_in("data: {"@, front + back)),
    ensures
        subscription_step(
            text,
            SubscriptionEvent::Chunk(chunk),
            elapsed_nanos,
            timeout_secs,
        ).0 == back,
{
    let all = front + back;
    law_containing_is_standing_in(all, "event: message"@);
    law_containing_is_standing_in(all, "data: {"@);
    law_cuts_take_nothing_away(front, back);
    assert(encode_utf8(all).len() - 4096 == encode_utf8(front).len());
    assert(encode_utf8(front).len() > 0) by {
        encode_utf8_decode_utf8(front);
        if encode_utf8(front).len() == 0 {
            assert(encode_utf8(front) =~= encode_utf8(Seq::<char>::empty()));
            encode_utf8_decode_utf8(Seq::<char>::empty());
        }
    }
}

/// Defaults are filled up text by text: what is not empty stays, and what is empty is
/// taken from the others.
pub proof fn law_defaults_are_filled(d: DefaultsView, o: DefaultsView)
    ensures
        ({
            let f = filled(d, Some(o));
            &&& d.zone_id.len() > 0 ==> f.zone_id == d.zone_id
            &&& d.zone_id.len() == 0 ==> f.zone_id == o.zone_id
            &&& d.record_name.len() > 0 ==> f.record_name == d.record_name
            &&& d.record_name.len() == 0 ==> f.record_name == o.record_name
            &&& d.proxied.len() > 0 ==> f.proxied == d.proxied
            &&& d.proxied.len() == 0 ==> f.proxied == o.proxied
            &&& d.ttl.len() > 0 ==> f.ttl == d.ttl
            &&& d.ttl.len() == 0 ==> f.ttl == o.ttl
        }),
        filled(d, None) == d,
{
}

/// The defaults in the text of the configuration file are the texts that its document has
/// under their names, and empty where it has none.
pub proof fn law_defaults_are_read(text: Seq<char>, doc: JsonView, value: Seq<char>)
    requires
        json_document(text) == Some(doc),
    ensures
        stored_defaults(Some(text)) matches Some(d) && (says(
            doc,
            "cloudflare_default_zone_id"@,
            value,
        ) ==> d.zone_id == value) && (says(doc, "cloudflare_default_record_name"@, value)
            ==> d.record_name == value) && (says(doc, "cloudflare_default_proxied"@, value)
            ==> d.proxied == value) && (says(doc, "cloudflare_default_ttl"@, value) ==> d.ttl
            == value) && ((forall|v: Seq<char>| !says(doc, "cloudflare_default_zone_id"@, v))
            ==> d.zone_id.len() == 0) && ((forall|v: Seq<char>|
            !says(doc, "cloudflare_default_record_name"@, v)) ==> d.record_name.len() == 0) && ((
        forall|v: Seq<char>| !says(doc, "cloudflare_default_proxied"@, v)) ==> d.proxied.len()
            == 0) && ((forall|v: Seq<char>| !says(doc, "cloudflare_default_ttl"@, v))
            ==> d.ttl.len() == 0),
        stored_defaults(None) is None,
{
    let none = Seq::<JsonView>::empty();
    law_members_are_read(doc, "cloudflare_default_zone_id"@, value, none);
    law_members_are_read(doc, "cloudflare_default_record_name"@, value, none);
    law_members_are_read(doc, "cloudflare_default_proxied"@, value, none);
    law_members_are_read(doc, "cloudflare_default_ttl"@, value, none);
}

/// The defaults of a configuration are its texts for them.
pub proof fn law_defaults_are_configured(config: ConfigView)
    ensures
        ({
            let d = config_defaults(config);
            d.zone_id == config.cloudflare_default_zone_id && d.record_name
                == config.cloudflare_default_record_name && d.proxied
                == config.cloudflare_default_proxied && d.ttl == config.cloudflare_default_ttl
        }),
{
}

/// A record needs a zone, a name, a word whether it is proxied and a time to live. The
/// word is `true` or `false` and the time a number, with blanks around them or not;
/// everything else is an error that tells what is wrong.
pub proof fn law_records_are_resolved(used: DefaultsView, ttl: u32)
    ensures
        ({
            let word = trim(used.proxied);
            &&& used.zone_id.len() == 0 ==> resolved(used) == Err::<RecordView, Seq<char>>(
                "Zone ID is empty and no default is configured in Settings"@,
            )
            &&& used.zone_id.len() > 0 && used.record_name.len() == 0 ==> resolved(used) == Err::<
                RecordView,
                Seq<char>,
            >("Record Name is empty and no default is configured in Settings"@)
            &&& used.zone_id.len() > 0 && used.record_name.len() > 0 && word != "true"@ && word
                != "false"@ ==> resolved(used) == Err::<RecordView, Seq<char>>(
                "Invalid proxied value '"@ + used.proxied + "'. Use 'true' or 'false'."@,
            )
            &&& used.zone_id.len() > 0 && used.record_name.len() > 0 && (word == "true"@ || word
                == "false"@) && trim(used.ttl) == decimal(ttl as nat) ==> resolved(used) == Ok::<
                RecordView,
                Seq<char>,
            >(
                RecordView {
                    zone_id: used.zone_id,
                    record_name: used.record_name,
                    proxied: word == "true"@,
                    ttl,
                },
            )
            &&& used.zone_id.len() > 0 && used.record_name.len() > 0 && (word == "true"@ || word
                == "false"@) && parse_unsigned(trim(used.ttl), u32::MAX as nat) is None ==> resolved(
                used,
            ) == Err::<RecordView, Seq<char>>(
                "Invalid TTL value '"@ + used.ttl + "'. Must be a number."@,
            )
        }),
{
    law_decimal_reads_back(ttl as nat, u32::MAX as nat);
    reveal_strlit("true");
    reveal_strlit("false");
    assert("true"@ != "false"@) by {
        assert("true"@[0] != "false"@[0]);
    }
}

/// A truth value is written as `true` or `false`, and read back from that.
pub proof fn law_truth_values_are_read_back(b: bool, s: Seq<char>)
    ensures
        bool_text(true) == "true"@,
        bool_text(false) == "false"@,
        parse_bool(bool_text(b)) == Some(b),
        s != "true"@ && s != "false"@ ==> parse_bool(s) is None,
{
    reveal_strlit("true");
    reveal_strlit("false");
    assert("true"@ != "false"@) by {
        assert("true"@[0] != "false"@[0]);
    }
}

/// The secrets of a task that can be opened with the password make its client, without
/// the blanks around them; an address that is blank does not count.
pub proof fn law_secrets_make_a_client(
    scheduler: SchedulerView,
    token: Seq<u8>,
    email: Option<Seq<u8>>,
    password: Seq<char>,
    salt: Seq<u8>,
    secret: Seq<char>,
)
    requires
        scheduler.master_password == Some(password),
        scheduler.password_salt == Some(salt),
        decrypted(token, password, salt) == Ok::<Seq<char>, Seq<char>>(secret),
    ensures
        client_of_run(scheduler, Some(token), email) matches Some(client) && client.token == trim(
            secret,
        ) && (email is None ==> client.email is None) && (email matches Some(bytes) ==> match decrypted(
            bytes,
            password,
            salt,
        ) {
            Ok(address) => if trim(address).len() > 0 {
                client.email == Some(trim(address))
            } else {
                client.email is None
            },
            Err(_) => client.email is None,
        }),
{
}

/// The scheduler's own client serves where the task has no secret, where its secret
/// cannot be opened, and where there is no password or no salt to open it with.
pub proof fn law_the_common_client_serves(
    scheduler: SchedulerView,
    token: Option<Seq<u8>>,
    email: Option<Seq<u8>>,
)
    requires
        token is None || scheduler.master_password is None || scheduler.password_salt is None
            || decrypted(
            token->0,
            scheduler.master_password->0,
            scheduler.password_salt->0,
        ) is Err,
    ensures
        client_of_run(scheduler, token, email) == scheduler.cloudflare,
{
}

/// Whether a step of a run is another step with more lines for the log before its own.
pub open spec fn is_with_log(step: CloudflareStepView, inner: CloudflareStepView) -> bool {
    match inner {
        CloudflareStepView::Send { log, request, state } => step matches CloudflareStepView::Send {
            log: l,
            request: r,
            state: s,
        } && r == request && s == state && l.len() >= log.len() && l.skip(l.len() - log.len())
            == log,
        CloudflareStepView::Done { log, result } => step matches CloudflareStepView::Done {
            log: l,
            result: r,
        } && r == result && l.len() >= log.len() && l.skip(l.len() - log.len()) == log,
    }
}

/// A step with lines before its own is the step.
proof fn lemma_with_log(more: Seq<Seq<char>>, step: CloudflareStepView)
    ensures
        is_with_log(with_log(more, step), step),
{
    match step {
        CloudflareStepView::Send { log, .. } => {
            assert((more + log).skip(more.len() as int) =~= log);
        },
        CloudflareStepView::Done { log, .. } => {
            assert((more + log).skip(more.len() as int) =~= log);
        },
    }
}

/// Whether a step ends a run with an error.
pub open spec fn ends_with_error(step: CloudflareStepView, e: Seq<char>) -> bool {
    step matches CloudflareStepView::Done { result, .. } && result == Err::<bool, Seq<char>>(e)
}

/// A task that updates a record starts the update of that record. The zone and the name
/// are those of the task; where one is empty, that of the configuration, and where this
/// is empty too, that of the configuration file. The content is that of the task, or the
/// public address where it is empty. Whether it is proxied, and how long it lives, the
/// task says.
pub proof fn law_record_tasks_update_their_record(
    scheduler: SchedulerView,
    task_type: TaskTypeView,
    c: Option<NtfyContextView>,
    config: ConfigView,
    raw: Option<Seq<char>>,
    client: ClientView,
    update: DnsUpdateView,
)
    requires
        task_type is CloudflareDnsUpdate,
        client_of_run(
            scheduler,
            task_type->CloudflareDnsUpdate_api_token_encrypted,
            task_type->CloudflareDnsUpdate_api_email_encrypted,
        ) == Some(client),
        ({
            let zone = task_type->CloudflareDnsUpdate_zone_id;
            let stored = stored_defaults(raw);
            &&& zone.len() > 0 ==> update.zone_id == zone
            &&& zone.len() == 0 && config.cloudflare_default_zone_id.len() > 0 ==> update.zone_id
                == config.cloudflare_default_zone_id
            &&& zone.len() == 0 && config.cloudflare_default_zone_id.len() == 0 ==> (
            stored matches Some(d) && update.zone_id == d.zone_id)
        }),
        ({
            let name = task_type->CloudflareDnsUpdate_record_name;
            let stored = stored_defaults(raw);
            &&& name.len() > 0 ==> update.record_name == name
            &&& name.len() == 0 && config.cloudflare_default_record_name.len() > 0
                ==> update.record_name == config.cloudflare_default_record_name
            &&& name.len() == 0 && config.cloudflare_default_record_name.len() == 0 ==> (
            stored matches Some(d) && update.record_name == d.record_name)
        }),
        update.zone_id.len() > 0,
        update.record_name.len() > 0,
        update.record_type == task_type->CloudflareDnsUpdate_record_type,
        update.proxied == task_type->CloudflareDnsUpdate_proxied,
        update.ttl == task_type->CloudflareDnsUpdate_ttl,
        task_type->CloudflareDnsUpdate_content.len() > 0 ==> update.content
            == task_type->CloudflareDnsUpdate_content,
        task_type->CloudflareDnsUpdate_content.len() == 0 ==> config.public_ip == Some(
            update.content,
        ),
    ensures
        action_step(scheduler, task_type, c, config, raw) matches ActionStepView::AskCloudflare {
            client: used,
            step,
        } && used == Some(client) && is_with_log(
            step,
            dns_step(client, update, task_type->CloudflareDnsUpdate_record_id),
        ),
{
    let zone = task_type->CloudflareDnsUpdate_zone_id;
    let name = task_type->CloudflareDnsUpdate_record_name;
    let defaults = filled(config_defaults(config), stored_defaults(raw));
    law_task_wins_over_defaults(zone, name, update.proxied, update.ttl, defaults);
    let used = DefaultsView {
        zone_id: zone,
        record_name: name,
        proxied: bool_text(update.proxied),
        ttl: decimal(update.ttl as nat),
    };
    assert(or_else(zone, defaults.zone_id) == update.zone_id);
    assert(or_else(name, defaults.record_name) == update.record_name);
    let more = seq![
        credentials_log(
            "Cloudflare client: per_task="@,
            per_task_client(
                scheduler,
                task_type->CloudflareDnsUpdate_api_token_encrypted,
                task_type->CloudflareDnsUpdate_api_email_encrypted,
            ) is Some,
            scheduler.cloudflare is Some,
        ),
        defaults_log(defaults),
        resolved_log(used, filled(used, Some(defaults))),
    ];
    lemma_with_log(more, dns_step(client, update, task_type->CloudflareDnsUpdate_record_id));
}

/// A task that updates a record fails without a client; without a zone or a name,
/// wherever they might have come from; and without a content where no public address is
/// known.
pub proof fn law_record_tasks_fail(
    scheduler: SchedulerView,
    task_type: TaskTypeView,
    c: Option<NtfyContextView>,
    config: ConfigView,
    raw: Option<Seq<char>>,
)
    requires
        task_type is CloudflareDnsUpdate,
    ensures
        action_step(scheduler, task_type, c, config, raw) matches ActionStepView::AskCloudflare {
            client,
            step,
        } && client == client_of_run(
            scheduler,
            task_type->CloudflareDnsUpdate_api_token_encrypted,
            task_type->CloudflareDnsUpdate_api_email_encrypted,
        ) && ({
            let no_zone = task_type->CloudflareDnsUpdate_zone_id.len() == 0
                && config.cloudflare_default_zone_id.len() == 0 && (stored_defaults(raw) matches
                Some(d) ==> d.zone_id.len() == 0);
            let no_name = task_type->CloudflareDnsUpdate_record_name.len() == 0
                && config.cloudflare_default_record_name.len() == 0 && (stored_defaults(
                raw,
            ) matches Some(d) ==> d.record_name.len() == 0);
            let no_content = task_type->CloudflareDnsUpdate_content.len() == 0
                && config.public_ip is None;
            &&& client is None ==> ends_with_error(
                step,
                "Cloudflare credentials not configured"@,
            )
            &&& client is Some && no_zone ==> ends_with_error(
                step,
                "Zone ID is empty and no default is configured in Settings"@,
            )
            &&& client is Some && !no_zone && no_name ==> ends_with_error(
                step,
                "Record Name is empty and no default is configured in Settings"@,
            )
            &&& client is Some && !no_zone && !no_name && no_content ==> ends_with_error(
                step,
                "No public IP saved in config. Run a GetPublicIp task first."@,
            )
        }),
{
    let zone = task_type->CloudflareDnsUpdate_zone_id;
    let name = task_type->CloudflareDnsUpdate_record_name;
    let defaults = filled(config_defaults(config), stored_defaults(raw));
    law_task_wins_over_defaults(
        zone,
        name,
        task_type->CloudflareDnsUpdate_proxied,
        task_type->CloudflareDnsUpdate_ttl,
        defaults,
    );
}

/// A task that edits a list starts the edit of that list; it fails without an account,
/// without an address and without a client.
pub proof fn law_list_tasks_edit_their_list(
    scheduler: SchedulerView,
    task_type: TaskTypeView,
    c: Option<NtfyContextView>,
    config: ConfigView,
    raw: Option<Seq<char>>,
)
    requires
        task_type is CloudflareIpListUpdate,
    ensures
        action_step(scheduler, task_type, c, config, raw) matches ActionStepView::AskCloudflare {
            client,
            step,
        } && ({
            let account = task_type->CloudflareIpListUpdate_account_id;
            let ip = task_type->CloudflareIpListUpdate_ip;
            let edit = ListEditView {
                account_id: account,
                ip,
                comment: task_type->CloudflareIpListUpdate_comment,
                action: task_type->CloudflareIpListUpdate_action,
            };
            let own = client_of_run(
                scheduler,
                task_type->CloudflareIpListUpdate_api_token_encrypted,
                task_type->CloudflareIpListUpdate_api_email_encrypted,
            );
            &&& account.len() == 0 ==> ends_with_error(
                step,
                "Account ID is required for IP List operations"@,
            )
            &&& account.len() > 0 && ip.len() == 0 ==> ends_with_error(
                step,
                "IP address is required"@,
            )
            &&& account.len() == 0 || ip.len() == 0 ==> client is None
            &&& account.len() > 0 && ip.len() > 0 ==> client == own
            &&& account.len() > 0 && ip.len() > 0 && own is None ==> ends_with_error(
                step,
                "Cloudflare credentials not configured"@,
            )
            &&& account.len() > 0 && ip.len() > 0 ==> (own matches Some(used) ==> is_with_log(
                step,
                list_start(
                    used,
                    edit,
                    task_type->CloudflareIpListUpdate_list_id,
                    task_type->CloudflareIpListUpdate_list_name,
                ),
            ))
        }),
{
    let edit = ListEditView {
        account_id: task_type->CloudflareIpListUpdate_account_id,
        ip: task_type->CloudflareIpListUpdate_ip,
        comment: task_type->CloudflareIpListUpdate_comment,
        action: task_type->CloudflareIpListUpdate_action,
    };
    let token = task_type->CloudflareIpListUpdate_api_token_encrypted;
    let email = task_type->CloudflareIpListUpdate_api_email_encrypted;
    if let Some(used) = client_of_run(scheduler, token, email) {
        lemma_with_log(
            seq![
                credentials_log(
                    "Cloudflare IP List: per_task="@,
                    per_task_client(scheduler, token, email) is Some,
                    scheduler.cloudflare is Some,
                ),
            ],
            list_start(
                used,
                edit,
                task_type->CloudflareIpListUpdate_list_id,
                task_type->CloudflareIpListUpdate_list_name,
            ),
        );
    }
}

/// The log tells the defaults that a record can have, and what was taken from where: for
/// each text, what is used, and whether the task left it empty.
pub proof fn law_the_log_tells_of_records(
    scheduler: SchedulerView,
    task: DefaultsView,
    used: DefaultsView,
)
    ensures
        defaults_log(used) == "Cloudflare defaults loaded: zone_id='"@ + used.zone_id
            + "' record_name='"@ + used.record_name + "' proxied='"@ + used.proxied + "' ttl='"@
            + used.ttl + "'"@,
        resolved_log(task, used) == "Cloudflare resolved: zone_id='"@ + used.zone_id
            + "' record_name='"@ + used.record_name + "' proxied='"@ + used.proxied + "' ttl='"@
            + used.ttl + "' (task empty: zone="@ + yes_or_no(task.zone_id.len() == 0) + " name="@
            + yes_or_no(task.record_name.len() == 0) + " proxied="@ + yes_or_no(
            task.proxied.len() == 0,
        ) + " ttl="@ + yes_or_no(task.ttl.len() == 0) + ")"@,
        credentials_log("Cloudflare client: per_task="@, true, false)
            == "Cloudflare client: per_task=true global=false"@,
        credentials_log("Cloudflare client: per_task="@, false, true)
            == "Cloudflare client: per_task=false global=true"@,
{
    assert(resolved_log(task, used) =~= "Cloudflare resolved: zone_id='"@ + used.zone_id
        + "' record_name='"@ + used.record_name + "' proxied='"@ + used.proxied + "' ttl='"@
        + used.ttl + "' (task empty: zone="@ + yes_or_no(task.zone_id.len() == 0) + " name="@
        + yes_or_no(task.record_name.len() == 0) + " proxied="@ + yes_or_no(
        task.proxied.len() == 0,
    ) + " ttl="@ + yes_or_no(task.ttl.len() == 0) + ")"@);
    reveal_strlit("Cloudflare client: per_task=");
    reveal_strlit("true");
    reveal_strlit("false");
    reveal_strlit(" global=");
    reveal_strlit("Cloudflare client: per_task=true global=false");
    reveal_strlit("Cloudflare client: per_task=false global=true");
    assert(credentials_log("Cloudflare client: per_task="@, true, false)
        =~= "Cloudflare client: per_task=true global=false"@);
    assert(credentials_log("Cloudflare client: per_task="@, false, true)
        =~= "Cloudflare client: per_task=false global=true"@);
}

/// The word for a truth value.
pub open spec fn yes_or_no(b: bool) -> Seq<char> {
    if b {
        "true"@
    } else {
        "false"@
    }
}

/// Only a subscription can be too long: where five seconds more than it lasts cannot be
/// told.
pub proof fn law_only_long_subscriptions_have_no_limit(task_type: TaskTypeView)
    ensures
        !limit_fits(task_type) <==> (task_type matches TaskTypeView::Ntfy {
            action,
            subscribe_timeout_secs,
            ..
        } && action == NtfyAction::Subscribe && subscribe_timeout_secs + 5 > u64::MAX),
{
}

/// The client of a task is made of texts without the blanks around them; without a secret
/// there is none, and an address that is blank does not count.
pub proof fn law_clients_are_made(token: Seq<char>, email: Seq<char>)
    ensures
        client_for(Some(token), None) == Some(ClientView { token: trim(token), email: None }),
        trim(email).len() > 0 ==> client_for(Some(token), Some(email)) == Some(
            ClientView { token: trim(token), email: Some(trim(email)) },
        ),
        trim(email).len() == 0 ==> client_for(Some(token), Some(email)) == Some(
            ClientView { token: trim(token), email: None },
        ),
        client_for(None, Some(email)) is None,
        client_for(None, None) is None,
{
}

/// A check of a path fails where the path is not there; where it is, it goes on to the file
/// if one is to be there, and passes otherwise.
pub proof fn law_paths_are_checked(path_exists: bool, check_file: bool)
    ensures
        path_step(path_exists, check_file) == PathStep::Done(false) <==> !path_exists,
        path_step(path_exists, check_file) == PathStep::Done(true) <==> path_exists && !check_file,
        path_step(path_exists, check_file) == PathStep::LookForFile <==> path_exists && check_file,
{
}

/// A new public address takes the place of the old one in a configuration, and nothing else
/// changes. A run that found it succeeds where it was saved, and the log tells it; otherwise
/// the error tells why it was not.
pub proof fn law_addresses_are_saved(config: ConfigView, ip: Seq<char>, e: Seq<char>)
    ensures
        with_address(config, ip).public_ip == Some(ip),
        with_address(config, ip) == (ConfigView {
            public_ip: with_address(config, ip).public_ip,
            ..config
        }),
        address_saved(None, ip).0 == Some("Public IP updated: "@ + ip),
        address_saved(None, ip).1 == Ok::<bool, Seq<char>>(true),
        address_saved(Some(e), ip).0 is None,
        address_saved(Some(e), ip).1 == Err::<bool, Seq<char>>("Failed to save config: "@ + e),
{
}

} // verus!
