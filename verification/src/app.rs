//! The desktop application, as far as it is not drawing: what it shows, what its
//! buttons do, and what it takes over from the service.

use crate::actions::bool_text;
use crate::actions::open_secret;
use crate::actions::opened;
use crate::actions::opt_hash;
use crate::actions::text_of_bool;
use crate::clock::stamp;
use crate::clock::stamped;
use crate::clock::ClockReading;
use crate::clock::Timestamp;
use crate::config::Config;
use crate::config::ConfigView;
use crate::crypto::decrypted;
use crate::crypto::is_sealed;
use crate::crypto::verifies;
use crate::crypto::Crypto;
use crate::crypto::MAX_PLAIN;
use crate::hash::compute_file_hash;
use crate::number::decimal;
use crate::number::decimal_text;
use crate::number::law_decimal_reads_back;
use crate::number::parse_unsigned;
use crate::number::parse_unsigned_text;
use crate::scheduler::find_task;
use crate::scheduler::index_of_task;
use crate::scheduler::lemma_find_task;
use crate::task::copy_opt_bytes;
use crate::task::copy_opt_text;
use crate::task::copy_tasks;
use crate::task::is_random_uuid;
use crate::task::new_id;
use crate::task::new_task;
use crate::task::opt_bytes;
use crate::task::task_views;
use crate::task::Task;
use crate::task::TaskType;
use crate::task::TaskTypeView;
use crate::task::TaskView;
use crate::text::cat2;
use crate::text::cat8;
use crate::text::cat9;
use crate::text::copy_text;
use crate::text::is_space;
use crate::text::law_trim_takes_blanks;
use crate::text::lemma_texts_push;
use crate::text::lines;
use crate::text::lines_of;
use crate::text::opt_text;
use crate::text::same_text;
use crate::text::texts;
use crate::text::trim;
use crate::text::trim_text;
use vstd::prelude::*;
use vstd::slice::slice_to_vec;
use vstd::utf8::encode_utf8;

verus! {

// ---------------------------------------------------------------------------
// Types
// ---------------------------------------------------------------------------

/// How many lines of the log are shown at most.
pub const SHOWN_LINES: usize = 2000;

/// How many lines of the log are remembered at most.
pub const KNOWN_LINES: usize = 5000;

/// What is written into the settings.
#[derive(Debug)]
pub struct SettingsForm {
    pub smtp_port: String,
    pub app_token: String,
    pub user_key: String,
    pub cloudflare_token: String,
    pub cloudflare_email: String,
    pub cloudflare_zone_id: String,
    pub cloudflare_record_name: String,
    pub new_password: String,
    pub confirm_password: String,
}

pub struct FormView {
    pub smtp_port: Seq<char>,
    pub app_token: Seq<char>,
    pub user_key: Seq<char>,
    pub cloudflare_token: Seq<char>,
    pub cloudflare_email: Seq<char>,
    pub cloudflare_zone_id: Seq<char>,
    pub cloudflare_record_name: Seq<char>,
    pub new_password: Seq<char>,
    pub confirm_password: Seq<char>,
}

impl View for SettingsForm {
    type V = FormView;

    open spec fn view(&self) -> FormView {
        FormView {
            smtp_port: self.smtp_port@,
            app_token: self.app_token@,
            user_key: self.user_key@,
            cloudflare_token: self.cloudflare_token@,
            cloudflare_email: self.cloudflare_email@,
            cloudflare_zone_id: self.cloudflare_zone_id@,
            cloudflare_record_name: self.cloudflare_record_name@,
            new_password: self.new_password@,
            confirm_password: self.confirm_password@,
        }
    }
}

/// The state of the application.
pub struct App {
    pub tasks: Vec<Task>,
    pub config: Config,
    pub master_password: String,
    pub password_verified: bool,
    pub service_status: String,
    pub selected_task_idx: Option<usize>,
    pub editing_task: Option<Task>,
    pub show_settings: bool,
    pub show_logs: bool,
    pub show_password_prompt: bool,
    pub password_input: String,
    pub password_error: String,
    pub settings: SettingsForm,
    pub log_lines: Vec<String>,
    /// When the status of the service was last seen to change.
    pub last_status_mtime: Option<Timestamp>,
    /// The lines of the log file that were taken over, each of them once.
    pub known_log_lines: Vec<String>,
}

pub struct AppView {
    pub tasks: Seq<TaskView>,
    pub config: ConfigView,
    pub master_password: Seq<char>,
    pub password_verified: bool,
    pub service_status: Seq<char>,
    pub selected_task_idx: Option<usize>,
    pub editing_task: Option<TaskView>,
    pub show_settings: bool,
    pub show_logs: bool,
    pub show_password_prompt: bool,
    pub password_input: Seq<char>,
    pub password_error: Seq<char>,
    pub settings: FormView,
    pub log_lines: Seq<Seq<char>>,
    pub last_status_mtime: Option<Timestamp>,
    pub known_log_lines: Seq<Seq<char>>,
}

/// The contents of an optional task.
pub open spec fn opt_task(task: Option<Task>) -> Option<TaskView> {
    match task {
        Some(t) => Some(t@),
        None => None,
    }
}

impl View for App {
    type V = AppView;

    open spec fn view(&self) -> AppView {
        AppView {
            tasks: task_views(self.tasks@),
            config: self.config@,
            master_password: self.master_password@,
            password_verified: self.password_verified,
            service_status: self.service_status@,
            selected_task_idx: self.selected_task_idx,
            editing_task: opt_task(self.editing_task),
            show_settings: self.show_settings,
            show_logs: self.show_logs,
            show_password_prompt: self.show_password_prompt,
            password_input: self.password_input@,
            password_error: self.password_error@,
            settings: self.settings@,
            log_lines: texts(self.log_lines@),
            last_status_mtime: self.last_status_mtime,
            known_log_lines: texts(self.known_log_lines@),
        }
    }
}

// ---------------------------------------------------------------------------
// The log
// ---------------------------------------------------------------------------

/// The last lines of a list, as many as are shown.
pub open spec fn capped(list: Seq<Seq<char>>) -> Seq<Seq<char>> {
    if list.len() > SHOWN_LINES {
        list.skip(list.len() - SHOWN_LINES)
    } else {
        list
    }
}

/// The lines that are shown after one more message. The oldest line makes room
/// for it.
pub open spec fn with_line(list: Seq<Seq<char>>, line: Seq<char>) -> Seq<Seq<char>> {
    let longer = list.push(line);
    if longer.len() > SHOWN_LINES {
        longer.skip(1)
    } else {
        longer
    }
}

/// The application after a message for its log.
pub open spec fn logged(state: AppView, clock: ClockReading, message: Seq<char>) -> AppView {
    AppView { log_lines: with_line(state.log_lines, stamped(clock, message)), ..state }
}

/// Those lines that are new, each of them once.
pub open spec fn fresh(known: Seq<Seq<char>>, list: Seq<Seq<char>>) -> Seq<Seq<char>>
    decreases list.len(),
{
    if list.len() == 0 {
        Seq::empty()
    } else {
        let before = fresh(known, list.drop_last());
        if (known + before).contains(list.last()) {
            before
        } else {
            before.push(list.last())
        }
    }
}

/// The application after it has read the log file.
pub open spec fn log_read(state: AppView, content: Seq<char>) -> AppView {
    let new = fresh(state.known_log_lines, lines(content));
    let shown = capped(state.log_lines + new);
    let known = state.known_log_lines + new;
    AppView {
        log_lines: shown,
        known_log_lines: if known.len() > KNOWN_LINES {
            fresh(Seq::empty(), shown)
        } else {
            known
        },
        ..state
    }
}

/// Whether a list holds a line.
fn has_line(list: &Vec<String>, line: &str) -> (r: bool)
    ensures
        r == texts(list@).contains(line@),
{
    let mut i: usize = 0;
    while i < list.len()
        invariant
            i <= list@.len(),
            forall|j: int| 0 <= j < i ==> texts(list@)[j] != line@,
        decreases list@.len() - i,
    {
        if same_text(list[i].as_str(), line) {
            assert(texts(list@)[i as int] == line@);
            return true;
        }
        i = i + 1;
    }
    false
}

/// The lines of a list, each of them once.
fn distinct_lines(list: &Vec<String>) -> (r: Vec<String>)
    ensures
        texts(r@) == fresh(Seq::empty(), texts(list@)),
{
    let mut r: Vec<String> = Vec::new();
    let ghost all = texts(list@);
    let mut i: usize = 0;
    assert(texts(r@) =~= fresh(Seq::empty(), all.take(0)));
    while i < list.len()
        invariant
            all == texts(list@),
            i <= list@.len(),
            texts(r@) == fresh(Seq::empty(), all.take(i as int)),
        decreases list@.len() - i,
    {
        assert(all.take(i + 1).drop_last() =~= all.take(i as int));
        assert(all.take(i + 1).last() == list@[i as int]@);
        assert(Seq::<Seq<char>>::empty() + texts(r@) =~= texts(r@));
        if !has_line(&r, list[i].as_str()) {
            let line = list[i].clone();
            proof {
                lemma_texts_push(r@, line);
            }
            r.push(line);
        }
        i = i + 1;
    }
    assert(all.take(list@.len() as int) =~= all);
    r
}

/// The last lines of a list, as many as are shown.
fn cap_lines(list: Vec<String>) -> (r: Vec<String>)
    ensures
        texts(r@) == capped(texts(list@)),
{
    if list.len() <= SHOWN_LINES {
        return list;
    }
    let drop: usize = list.len() - SHOWN_LINES;
    let mut r: Vec<String> = Vec::new();
    let mut i: usize = drop;
    while i < list.len()
        invariant
            drop == list@.len() - SHOWN_LINES,
            drop <= i <= list@.len(),
            r@.len() == i - drop,
            forall|j: int| 0 <= j < r@.len() ==> (#[trigger] r@[j])@ == list@[drop + j]@,
        decreases list@.len() - i,
    {
        r.push(list[i].clone());
        i = i + 1;
    }
    assert(texts(r@) =~= capped(texts(list@)));
    r
}

// ---------------------------------------------------------------------------
// Start
// ---------------------------------------------------------------------------

/// The port that the settings show: the usual one where none is stored.
pub open spec fn shown_port(port: u16) -> Seq<char> {
    if port == 0 {
        "25"@
    } else {
        decimal(port as nat)
    }
}

/// Settings with nothing written into them but the port.
pub open spec fn empty_form(port: u16) -> FormView {
    FormView {
        smtp_port: shown_port(port),
        app_token: Seq::empty(),
        user_key: Seq::empty(),
        cloudflare_token: Seq::empty(),
        cloudflare_email: Seq::empty(),
        cloudflare_zone_id: Seq::empty(),
        cloudflare_record_name: Seq::empty(),
        new_password: Seq::empty(),
        confirm_password: Seq::empty(),
    }
}

/// The application when it has just started: with a password it asks for it,
/// without one it shows the settings.
pub open spec fn started_app(config: ConfigView, clock: ClockReading) -> AppView {
    let has_password = config.password_verifier is Some;
    let first = stamped(clock, "GUI started"@);
    AppView {
        tasks: config.tasks,
        config,
        master_password: Seq::empty(),
        password_verified: !has_password,
        service_status: "Service: Unknown"@,
        selected_task_idx: None,
        editing_task: None,
        show_settings: !has_password,
        show_logs: false,
        show_password_prompt: has_password,
        password_input: Seq::empty(),
        password_error: Seq::empty(),
        settings: empty_form(config.smtp_port),
        log_lines: if has_password {
            seq![first]
        } else {
            seq![
                first,
                stamped(clock, "First run - please configure settings and start service"@),
            ]
        },
        last_status_mtime: None,
        known_log_lines: Seq::empty(),
    }
}

impl App {
    /// What is to hold of the state at any time: no more lines than can be shown,
    /// and no line remembered twice.
    pub open spec fn wf(self) -> bool {
        self@.log_lines.len() <= SHOWN_LINES && self@.known_log_lines.no_duplicates()
    }

    /// The application when it has just started.
    pub fn new(config: Config, clock: &ClockReading) -> (r: Self)
        ensures
            r@ == started_app(config@, *clock),
            r.wf(),
    {
        let tasks = copy_tasks(&config.tasks);
        let has_password = config.password_verifier.is_some();
        let smtp_port = if config.smtp_port == 0 {
            copy_text("25")
        } else {
            decimal_text(config.smtp_port as u64)
        };
        let mut app = App {
            tasks,
            config,
            master_password: String::new(),
            password_verified: !has_password,
            service_status: copy_text("Service: Unknown"),
            selected_task_idx: None,
            editing_task: None,
            show_settings: !has_password,
            show_logs: false,
            show_password_prompt: has_password,
            password_input: String::new(),
            password_error: String::new(),
            settings: SettingsForm {
                smtp_port,
                app_token: String::new(),
                user_key: String::new(),
                cloudflare_token: String::new(),
                cloudflare_email: String::new(),
                cloudflare_zone_id: String::new(),
                cloudflare_record_name: String::new(),
                new_password: String::new(),
                confirm_password: String::new(),
            },
            log_lines: Vec::new(),
            last_status_mtime: None,
            known_log_lines: Vec::new(),
        };
        let ghost before = app@;
        assert(before.log_lines =~= Seq::<Seq<char>>::empty());
        assert(before.known_log_lines =~= Seq::<Seq<char>>::empty());
        app.push_log("GUI started", clock);
        if !has_password {
            app.push_log("First run - please configure settings and start service", clock);
        }
        assert(app@.log_lines =~= started_app(config@, *clock).log_lines);
        app
    }

    /// Adds a message to the log.
    pub fn push_log(&mut self, message: &str, clock: &ClockReading)
        ensures
            final(self)@ == logged(old(self)@, *clock, message@),
            old(self).wf() ==> final(self).wf(),
    {
        let ghost before = self.log_lines@;
        self.log_lines.push(clock.stamped(message));
        assert(texts(self.log_lines@) =~= texts(before).push(stamped(*clock, message@)));
        if self.log_lines.len() > SHOWN_LINES {
            self.log_lines.remove(0);
            assert(texts(self.log_lines@) =~= texts(before).push(
                stamped(*clock, message@),
            ).skip(1));
        }
    }

    /// Takes over what is new in the log file.
    pub fn poll_logs(&mut self, content: &str)
        ensures
            final(self)@ == log_read(old(self)@, content@),
            old(self).wf() ==> final(self).wf(),
    {
        let list = lines_of(content);
        let ghost start = self@;
        let ghost all = lines(content@);
        let ghost known = start.known_log_lines;
        let mut shown: Vec<String> = Vec::new();
        std::mem::swap(&mut shown, &mut self.log_lines);
        let mut i: usize = 0;
        assert(fresh(known, all.take(0)) =~= Seq::<Seq<char>>::empty());
        assert(texts(shown@) =~= start.log_lines + fresh(known, all.take(0)));
        assert(texts(self.known_log_lines@) =~= known + fresh(known, all.take(0)));
        while i < list.len()
            invariant
                all == texts(list@),
                known == start.known_log_lines,
                i <= list@.len(),
                texts(shown@) == start.log_lines + fresh(known, all.take(i as int)),
                self@ == (AppView {
                    log_lines: self@.log_lines,
                    known_log_lines: known + fresh(known, all.take(i as int)),
                    ..start
                }),
            decreases list@.len() - i,
        {
            assert(all.take(i + 1).drop_last() =~= all.take(i as int));
            let ghost line = list@[i as int]@;
            let ghost before = fresh(known, all.take(i as int));
            assert(all.take(i + 1).last() == line);
            if !has_line(&self.known_log_lines, list[i].as_str()) {
                let one = list[i].clone();
                let two = list[i].clone();
                proof {
                    lemma_texts_push(self.known_log_lines@, one);
                    lemma_texts_push(shown@, two);
                    assert((known + before).push(line) =~= known + before.push(line));
                    assert((start.log_lines + before).push(line) =~= start.log_lines + before.push(
                        line,
                    ));
                }
                self.known_log_lines.push(one);
                shown.push(two);
            }
            i = i + 1;
        }
        assert(all.take(list@.len() as int) =~= all);
        self.log_lines = cap_lines(shown);
        if self.known_log_lines.len() > KNOWN_LINES {
            self.known_log_lines = distinct_lines(&self.log_lines);
        }
        proof {
            if start.known_log_lines.no_duplicates() {
                lemma_fresh_distinct(known, all);
                lemma_fresh_distinct(Seq::empty(), self@.log_lines);
                assert(Seq::<Seq<char>>::empty() + fresh(Seq::empty(), self@.log_lines) =~= fresh(
                    Seq::empty(),
                    self@.log_lines,
                ));
            }
        }
    }

    /// Forgets the log.
    pub fn clear_logs(&mut self)
        ensures
            final(self)@ == (AppView {
                log_lines: Seq::empty(),
                known_log_lines: Seq::empty(),
                ..old(self)@
            }),
            final(self).wf(),
    {
        self.log_lines = Vec::new();
        self.known_log_lines = Vec::new();
        assert(self@.log_lines =~= Seq::<Seq<char>>::empty());
        assert(self@.known_log_lines =~= Seq::<Seq<char>>::empty());
    }
}

/// New lines are different from each other and from those known.
proof fn lemma_fresh_distinct(known: Seq<Seq<char>>, list: Seq<Seq<char>>)
    requires
        known.no_duplicates(),
    ensures
        (known + fresh(known, list)).no_duplicates(),
    decreases list.len(),
{
    if list.len() == 0 {
        assert(known + fresh(known, list) =~= known);
    } else {
        let before = fresh(known, list.drop_last());
        lemma_fresh_distinct(known, list.drop_last());
        if !(known + before).contains(list.last()) {
            let all = known + before;
            assert(known + before.push(list.last()) =~= all.push(list.last()));
            assert forall|i: int, j: int|
                0 <= i < j < all.push(list.last()).len() implies all.push(list.last())[i]
                != all.push(list.last())[j] by {
                if j == all.len() {
                    assert(all.contains(all[i]));
                }
            }
        }
    }
}

// ---------------------------------------------------------------------------
// The service
// ---------------------------------------------------------------------------

/// A task that takes over what another says of its last run.
pub open spec fn with_run_of(task: TaskView, other: TaskView) -> TaskView {
    TaskView {
        last_run: other.last_run,
        last_result: other.last_result,
        last_error: other.last_error,
        ..task
    }
}

/// Tasks after the first with the same identifier took over a last run.
pub open spec fn merge_one(tasks: Seq<TaskView>, other: TaskView) -> Seq<TaskView> {
    match find_task(tasks, other.id, 0) {
        Some(i) => tasks.update(i, with_run_of(tasks[i], other)),
        None => tasks,
    }
}

/// Tasks after they took over the last runs that others tell, one after the other.
pub open spec fn merged(tasks: Seq<TaskView>, others: Seq<TaskView>) -> Seq<TaskView>
    decreases others.len(),
{
    if others.len() == 0 {
        tasks
    } else {
        merge_one(merged(tasks, others.drop_last()), others.last())
    }
}

/// What is known of a process of the service that the application started.
#[derive(Debug, Clone, Copy, PartialEq, Eq, Structural)]
pub enum ServiceProcess {
    /// There is none.
    Absent,
    Running,
    Ended,
}

/// Whether the service runs: its process does, or the status it writes is younger
/// than ten seconds.
pub open spec fn service_runs(process: ServiceProcess, status_age_secs: Option<u64>) -> bool {
    process == ServiceProcess::Running || (status_age_secs matches Some(secs) && secs < 10)
}

impl App {
    /// Whether the service runs.
    pub fn is_service_running(process: ServiceProcess, status_age_secs: Option<u64>) -> (r: bool)
        ensures
            r == service_runs(process, status_age_secs),
    {
        match process {
            ServiceProcess::Running => true,
            _ => match status_age_secs {
                Some(secs) => secs < 10,
                None => false,
            },
        }
    }

    /// Shows whether the service runs.
    pub fn show_service(&mut self, running: bool)
        ensures
            final(self)@ == service_shown(old(self)@, running),
            final(self)@ == (AppView {
                service_status: if running {
                    "Service: Running"@
                } else {
                    "Service: Stopped"@
                },
                ..old(self)@
            }),
            old(self).wf() ==> final(self).wf(),
    {
        self.service_status = if running {
            copy_text("Service: Running")
        } else {
            copy_text("Service: Stopped")
        };
    }

    /// The password that the service is started with: none unless it was verified
    /// and is not empty.
    pub fn service_password(&self) -> (r: Option<String>)
        ensures
            opt_text(r) == password_for_service(self@),
            opt_text(r) == if self.password_verified && self@.master_password.len() > 0 {
                Some(self@.master_password)
            } else {
                None
            },
    {
        if self.password_verified && !self.master_password.as_str().is_empty() {
            Some(self.master_password.clone())
        } else {
            None
        }
    }

    /// Logs that the service was started, or why it was not.
    pub fn start_service(&mut self, started: &Result<(), String>, clock: &ClockReading)
        ensures
            final(self)@ == logged(
                old(self)@,
                *clock,
                match *started {
                    Ok(_) => "Service started"@,
                    Err(e) => "Failed to start service: "@ + e@,
                },
            ),
            old(self).wf() ==> final(self).wf(),
    {
        match started {
            Ok(_) => self.push_log("Service started", clock),
            Err(e) => {
                let line = cat2("Failed to start service: ", e.as_str());
                self.push_log(line.as_str(), clock);
            },
        }
    }

    /// Logs that the service was stopped, or that it was asked to stop where its
    /// process is not known.
    pub fn stop_service(&mut self, process_known: bool, clock: &ClockReading)
        ensures
            final(self)@ == logged(
                old(self)@,
                *clock,
                if process_known {
                    "Service stopped"@
                } else {
                    "Service stop requested"@
                },
            ),
            old(self).wf() ==> final(self).wf(),
    {
        if process_known {
            self.push_log("Service stopped", clock);
        } else {
            self.push_log("Service stop requested", clock);
        }
    }

    /// Whether the status of the service has to be read: where it was changed at
    /// another time than the one seen last, which is noted.
    pub fn status_changed(&mut self, modified: Timestamp) -> (r: bool)
        ensures
            r == (old(self).last_status_mtime != Some(modified)),
            final(self)@ == (AppView { last_status_mtime: Some(modified), ..old(self)@ }),
            old(self).wf() ==> final(self).wf(),
    {
        let same = match self.last_status_mtime {
            Some(last) => last == modified,
            None => false,
        };
        self.last_status_mtime = Some(modified);
        !same
    }

    /// Takes over the last runs that the service tells.
    pub fn poll_service_status(&mut self, tasks: &Vec<Task>)
        ensures
            final(self)@ == (AppView {
                tasks: merged(old(self)@.tasks, task_views(tasks@)),
                ..old(self)@
            }),
            old(self).wf() ==> final(self).wf(),
    {
        let ghost start = self@;
        let ghost others = task_views(tasks@);
        let mut i: usize = 0;
        assert(others.take(0) =~= Seq::<TaskView>::empty());
        while i < tasks.len()
            invariant
                others == task_views(tasks@),
                i <= tasks@.len(),
                self@ == (AppView {
                    tasks: merged(start.tasks, others.take(i as int)),
                    ..start
                }),
            decreases tasks@.len() - i,
        {
            assert(others.take(i + 1).drop_last() =~= others.take(i as int));
            assert(others.take(i + 1).last() == tasks@[i as int]@);
            let ghost before = self@.tasks;
            if let Some(k) = index_of_task(&self.tasks, tasks[i].id) {
                let mut task = self.tasks[k].clone();
                task.last_run = tasks[i].last_run;
                task.last_result = tasks[i].last_result;
                task.last_error = copy_opt_text(&tasks[i].last_error);
                self.tasks.set(k, task);
            }
            assert(self@.tasks =~= merge_one(before, others[i as int]));
            i = i + 1;
        }
        assert(others.take(tasks@.len() as int) =~= others);
    }
}

// ---------------------------------------------------------------------------
// Saving the configuration
// ---------------------------------------------------------------------------

/// What is said of the service.
pub open spec fn service_shown(state: AppView, running: bool) -> AppView {
    AppView {
        service_status: if running {
            "Service: Running"@
        } else {
            "Service: Stopped"@
        },
        ..state
    }
}

/// The password that the service is started with: the one that was verified, if there is
/// one.
pub open spec fn password_for_service(state: AppView) -> Option<Seq<char>> {
    if state.password_verified && state.master_password.len() > 0 {
        Some(state.master_password)
    } else {
        None
    }
}

/// The application with its settings open, and with the public address that is stored.
pub open spec fn settings_opened(state: AppView, latest: ConfigView) -> AppView {
    AppView {
        config: ConfigView { public_ip: latest.public_ip, ..state.config },
        show_settings: true,
        ..state
    }
}

/// The application with its settings closed, and nothing of them taken over.
pub open spec fn settings_closed(state: AppView) -> AppView {
    AppView { show_settings: false, password_error: Seq::empty(), ..state }
}

/// The configuration that is saved: that of the application with its tasks, and
/// with the public address that the file has, if it has one. Only the service
/// writes that address.
pub open spec fn config_to_save(state: AppView, latest: ConfigView) -> ConfigView {
    ConfigView {
        public_ip: if latest.public_ip is Some {
            latest.public_ip
        } else {
            state.config.public_ip
        },
        tasks: state.tasks,
        ..state.config
    }
}

/// What the log says of a configuration that was saved.
pub open spec fn saved_log(config: ConfigView) -> Seq<char> {
    "Config saved. token="@ + bool_text(config.cloudflare_api_token_encrypted is Some) + " email="@
        + bool_text(config.cloudflare_api_email_encrypted is Some) + " zone='"@
        + config.cloudflare_default_zone_id + "' record='"@ + config.cloudflare_default_record_name
        + "'"@
}

/// The application after a configuration was saved, or was not.
pub open spec fn after_save(
    state: AppView,
    config: ConfigView,
    saved: Result<(), String>,
    clock: ClockReading,
) -> AppView {
    match saved {
        Ok(_) => AppView { config, ..logged(state, clock, saved_log(config)) },
        Err(e) => logged(state, clock, "Failed to save config: "@ + e@),
    }
}

impl App {
    /// The configuration that is to be saved, given what the file says now.
    pub fn save_config(&self, latest: &Config) -> (r: Config)
        ensures
            r@ == config_to_save(self@, latest@),
    {
        let mut config = self.config.clone();
        if latest.public_ip.is_some() {
            config.public_ip = copy_opt_text(&latest.public_ip);
        }
        config.tasks = copy_tasks(&self.tasks);
        config
    }

    /// Takes over a configuration that was saved, or logs why it was not.
    pub fn config_saved(
        &mut self,
        config: Config,
        saved: &Result<(), String>,
        clock: &ClockReading,
    )
        ensures
            final(self)@ == after_save(old(self)@, config@, *saved, *clock),
            old(self).wf() ==> final(self).wf(),
    {
        match saved {
            Ok(_) => {
                let token = text_of_bool(config.cloudflare_api_token_encrypted.is_some());
                let email = text_of_bool(config.cloudflare_api_email_encrypted.is_some());
                let line = cat9(
                    "Config saved. token=",
                    token.as_str(),
                    " email=",
                    email.as_str(),
                    " zone='",
                    config.cloudflare_default_zone_id.as_str(),
                    "' record='",
                    config.cloudflare_default_record_name.as_str(),
                    "'",
                );
                self.push_log(line.as_str(), clock);
                self.config = config;
            },
            Err(e) => {
                let line = cat2("Failed to save config: ", e.as_str());
                self.push_log(line.as_str(), clock);
            },
        }
    }

    /// Opens the settings, with the public address that the file has now.
    pub fn open_settings(&mut self, latest: &Config)
        ensures
            final(self)@ == settings_opened(old(self)@, latest@),
            final(self)@ == (AppView {
                config: ConfigView { public_ip: latest@.public_ip, ..old(self)@.config },
                show_settings: true,
                ..old(self)@
            }),
            old(self).wf() ==> final(self).wf(),
    {
        self.config.public_ip = copy_opt_text(&latest.public_ip);
        self.show_settings = true;
    }

    /// Closes the settings without saving them.
    pub fn cancel_settings(&mut self)
        ensures
            final(self)@ == settings_closed(old(self)@),
            final(self)@ == (AppView {
                show_settings: false,
                password_error: Seq::empty(),
                ..old(self)@
            }),
            old(self).wf() ==> final(self).wf(),
    {
        self.show_settings = false;
        self.password_error = String::new();
        assert(self@.password_error =~= Seq::<char>::empty());
    }
}

// ---------------------------------------------------------------------------
// What is shown
// ---------------------------------------------------------------------------

/// What stands in the middle of the window.
#[derive(Debug, Clone, Copy, PartialEq, Eq, Structural)]
pub enum Center {
    /// The task that is edited.
    Editor,
    /// The task at an index.
    Task(usize),
    /// A word on how to begin.
    Hint,
    Nothing,
}

/// What the window shows.
#[derive(Debug, Clone, Copy, PartialEq, Eq, Structural)]
pub enum Frame {
    /// The question for the password, and nothing else.
    Prompt,
    /// The menu and the tasks, with the settings and the log where they are open.
    Main { center: Center, settings: bool, logs: bool },
}

/// What stands in the middle of the window: the task that is edited before the one
/// that is selected.
pub open spec fn center_of(state: AppView) -> Center {
    if state.editing_task is Some {
        Center::Editor
    } else {
        match state.selected_task_idx {
            Some(idx) => if idx < state.tasks.len() {
                Center::Task(idx)
            } else {
                Center::Nothing
            },
            None => Center::Hint,
        }
    }
}

/// What the window shows: while the password is asked for, nothing but that.
pub open spec fn frame_of(state: AppView) -> Frame {
    if state.show_password_prompt {
        Frame::Prompt
    } else {
        Frame::Main {
            center: center_of(state),
            settings: state.show_settings,
            logs: state.show_logs,
        }
    }
}

impl App {
    /// What the window shows.
    pub fn frame(&self) -> (r: Frame)
        ensures
            r == frame_of(self@),
    {
        if self.show_password_prompt {
            return Frame::Prompt;
        }
        let center = if self.editing_task.is_some() {
            Center::Editor
        } else {
            match self.selected_task_idx {
                Some(idx) => if idx < self.tasks.len() {
                    Center::Task(idx)
                } else {
                    Center::Nothing
                },
                None => Center::Hint,
            }
        };
        Frame::Main { center, settings: self.show_settings, logs: self.show_logs }
    }
}

// ---------------------------------------------------------------------------
// The master password
// ---------------------------------------------------------------------------

/// The application after the password that was entered has been verified, with
/// the secrets that it opened in the settings.
pub open spec fn unlocked(
    state: AppView,
    pushover: Option<(Seq<char>, Seq<char>)>,
    token: Option<Seq<char>>,
    email: Option<Seq<char>>,
) -> AppView {
    AppView {
        master_password: state.password_input,
        password_verified: true,
        show_password_prompt: false,
        password_error: Seq::empty(),
        settings: FormView {
            app_token: match pushover {
                Some((app, _)) => app,
                None => state.settings.app_token,
            },
            user_key: match pushover {
                Some((_, user)) => user,
                None => state.settings.user_key,
            },
            cloudflare_token: match token {
                Some(t) => t,
                None => state.settings.cloudflare_token,
            },
            cloudflare_email: match email {
                Some(e) => e,
                None => state.settings.cloudflare_email,
            },
            ..state.settings
        },
        ..state
    }
}

/// The Pushover credentials that a password opens: both or none.
pub open spec fn opened_pushover(config: ConfigView, password: Seq<char>) -> Option<
    (Seq<char>, Seq<char>),
> {
    match config.password_salt {
        Some(salt) => match (
            opened(config.pushover_app_token_encrypted, password, salt),
            opened(config.pushover_user_key_encrypted, password, salt),
        ) {
            (Some(app), Some(user)) => Some((app, user)),
            _ => None,
        },
        None => None,
    }
}

/// A secret of the configuration that a password opens.
pub open spec fn opened_secret(
    config: ConfigView,
    sealed: Option<Seq<u8>>,
    password: Seq<char>,
) -> Option<Seq<char>> {
    match config.password_salt {
        Some(salt) => opened(sealed, password, salt),
        None => None,
    }
}

/// The application after the password that was entered has been tried.
pub open spec fn password_tried(state: AppView) -> AppView {
    match (state.config.password_verifier, state.config.password_salt) {
        (Some(verifier), Some(salt)) => if verifies(verifier, state.password_input, salt) {
            unlocked(
                state,
                opened_pushover(state.config, state.password_input),
                opened_secret(
                    state.config,
                    state.config.cloudflare_api_token_encrypted,
                    state.password_input,
                ),
                opened_secret(
                    state.config,
                    state.config.cloudflare_api_email_encrypted,
                    state.password_input,
                ),
            )
        } else {
            AppView { password_error: "Invalid password"@, ..state }
        },
        _ => state,
    }
}

/// A pair of texts.
pub open spec fn opt_pair(pair: Option<(String, String)>) -> Option<(Seq<char>, Seq<char>)> {
    match pair {
        Some((a, b)) => Some((a@, b@)),
        None => None,
    }
}

impl App {
    /// The Pushover credentials that the master password opens.
    pub fn decrypt_credentials(&self) -> (r: Option<(String, String)>)
        ensures
            opt_pair(r) == opened_pushover(self@.config, self@.master_password),
    {
        match (&self.config.password_salt, &self.config.pushover_app_token_encrypted, &self.config.pushover_user_key_encrypted) {
            (Some(salt), Some(app), Some(user)) => {
                let password = self.master_password.as_str();
                let app = open_secret(Some(app), password, salt.as_slice());
                let user = open_secret(Some(user), password, salt.as_slice());
                match (app, user) {
                    (Some(app), Some(user)) => Some((app, user)),
                    _ => None,
                }
            },
            _ => None,
        }
    }

    /// The Cloudflare secret that the master password opens.
    pub fn decrypt_cloudflare_token(&self) -> (r: Option<String>)
        ensures
            opt_text(r) == opened_secret(
                self@.config,
                self@.config.cloudflare_api_token_encrypted,
                self@.master_password,
            ),
    {
        match (&self.config.password_salt, &self.config.cloudflare_api_token_encrypted) {
            (Some(salt), Some(sealed)) => open_secret(
                Some(sealed),
                self.master_password.as_str(),
                salt.as_slice(),
            ),
            _ => None,
        }
    }

    /// The Cloudflare address that the master password opens.
    pub fn decrypt_cloudflare_email(&self) -> (r: Option<String>)
        ensures
            opt_text(r) == opened_secret(
                self@.config,
                self@.config.cloudflare_api_email_encrypted,
                self@.master_password,
            ),
    {
        match (&self.config.password_salt, &self.config.cloudflare_api_email_encrypted) {
            (Some(salt), Some(sealed)) => open_secret(
                Some(sealed),
                self.master_password.as_str(),
                salt.as_slice(),
            ),
            _ => None,
        }
    }

    /// Unlocks the application with the password that was entered, and fills the
    /// settings with the secrets that it opened.
    pub fn unlock(
        &mut self,
        pushover: Option<(String, String)>,
        token: Option<String>,
        email: Option<String>,
    )
        ensures
            final(self)@ == unlocked(
                old(self)@,
                opt_pair(pushover),
                opt_text(token),
                opt_text(email),
            ),
            old(self).wf() ==> final(self).wf(),
    {
        self.master_password = self.password_input.clone();
        self.password_verified = true;
        self.show_password_prompt = false;
        self.password_error = String::new();
        assert(self@.password_error =~= Seq::<char>::empty());
        if let Some((app, user)) = pushover {
            self.settings.app_token = app;
            self.settings.user_key = user;
        }
        if let Some(token) = token {
            self.settings.cloudflare_token = token;
        }
        if let Some(email) = email {
            self.settings.cloudflare_email = email;
        }
    }

    /// Tries the password that was entered.
    pub fn verify_password(&mut self)
        ensures
            final(self)@ == password_tried(old(self)@),
            old(self).wf() ==> final(self).wf(),
    {
        let ghost start = self@;
        let verified = match (&self.config.password_verifier, &self.config.password_salt) {
            (Some(verifier), Some(salt)) => Crypto::verify_password(
                verifier.as_slice(),
                self.password_input.as_str(),
                salt.as_slice(),
            ),
            _ => {
                return ;
            },
        };
        if verified {
            self.master_password = self.password_input.clone();
            let pushover = self.decrypt_credentials();
            let token = self.decrypt_cloudflare_token();
            let email = self.decrypt_cloudflare_email();
            self.unlock(pushover, token, email);
        } else {
            self.password_error = copy_text("Invalid password");
        }
    }
}

// ---------------------------------------------------------------------------
// Settings
// ---------------------------------------------------------------------------

/// The two secrets of a task, sealed.
#[derive(Debug)]
pub struct TaskSecrets {
    pub token: Option<Vec<u8>>,
    pub email: Option<Vec<u8>>,
}

/// The contents of a list of sealed secrets.
pub open spec fn secret_pairs(list: Seq<TaskSecrets>) -> Seq<(Option<Seq<u8>>, Option<Seq<u8>>)> {
    Seq::new(list.len(), |i: int| (opt_bytes(list[i].token), opt_bytes(list[i].email)))
}

/// What chance has a part in when settings are saved: a new salt with a verifier
/// for the new password, the secrets sealed, and under a new password those that
/// are stored already sealed again.
pub struct DrawnSecrets {
    pub salt: Vec<u8>,
    pub verifier: Option<Vec<u8>>,
    pub app_token: Option<Vec<u8>>,
    pub user_key: Option<Vec<u8>>,
    pub cloudflare_token: Result<Vec<u8>, String>,
    pub cloudflare_email: Option<Vec<u8>>,
    /// The stored Cloudflare secret under the new password.
    pub kept_token: Option<Vec<u8>>,
    /// The secrets of each task under the new password.
    pub task_secrets: Vec<TaskSecrets>,
}

pub struct DrawnView {
    pub salt: Seq<u8>,
    pub verifier: Option<Seq<u8>>,
    pub app_token: Option<Seq<u8>>,
    pub user_key: Option<Seq<u8>>,
    pub cloudflare_token: Result<Seq<u8>, Seq<char>>,
    pub cloudflare_email: Option<Seq<u8>>,
    pub kept_token: Option<Seq<u8>>,
    pub task_secrets: Seq<(Option<Seq<u8>>, Option<Seq<u8>>)>,
}

impl View for DrawnSecrets {
    type V = DrawnView;

    open spec fn view(&self) -> DrawnView {
        DrawnView {
            salt: self.salt@,
            verifier: opt_bytes(self.verifier),
            app_token: opt_bytes(self.app_token),
            user_key: opt_bytes(self.user_key),
            cloudflare_token: match self.cloudflare_token {
                Ok(bytes) => Ok(bytes@),
                Err(e) => Err(e@),
            },
            cloudflare_email: opt_bytes(self.cloudflare_email),
            kept_token: opt_bytes(self.kept_token),
            task_secrets: secret_pairs(self.task_secrets@),
        }
    }
}

/// Whether two different passwords were entered.
pub open spec fn passwords_differ(form: FormView) -> bool {
    form.new_password.len() > 0 && form.new_password != form.confirm_password
}

/// The application with the port that was entered, if it is one.
pub open spec fn with_port(state: AppView) -> AppView {
    AppView {
        config: ConfigView {
            smtp_port: match parse_unsigned(state.settings.smtp_port, u16::MAX as nat) {
                Some(port) => port as u16,
                None => state.config.smtp_port,
            },
            ..state.config
        },
        ..state
    }
}

/// The secrets in the open of what a task does.
pub open spec fn plain_secrets(task_type: TaskTypeView) -> (Option<Seq<char>>, Option<Seq<char>>) {
    match task_type {
        TaskTypeView::CloudflareDnsUpdate { api_token_plain, api_email_plain, .. } => (
            api_token_plain,
            api_email_plain,
        ),
        TaskTypeView::CloudflareIpListUpdate { api_token_plain, api_email_plain, .. } => (
            api_token_plain,
            api_email_plain,
        ),
        _ => (None, None),
    }
}

/// The sealed secrets of what a task does.
pub open spec fn sealed_secrets(task_type: TaskTypeView) -> (Option<Seq<u8>>, Option<Seq<u8>>) {
    match task_type {
        TaskTypeView::CloudflareDnsUpdate { api_token_encrypted, api_email_encrypted, .. } => (
            api_token_encrypted,
            api_email_encrypted,
        ),
        TaskTypeView::CloudflareIpListUpdate { api_token_encrypted, api_email_encrypted, .. } => (
            api_token_encrypted,
            api_email_encrypted,
        ),
        _ => (None, None),
    }
}

/// What a task does, with other secrets, where it has any.
pub open spec fn with_secrets(
    task_type: TaskTypeView,
    plain: (Option<Seq<char>>, Option<Seq<char>>),
    sealed: (Option<Seq<u8>>, Option<Seq<u8>>),
) -> TaskTypeView {
    match task_type {
        TaskTypeView::CloudflareDnsUpdate {
            zone_id,
            record_name,
            record_type,
            record_id,
            content,
            proxied,
            ttl,
            ..
        } => TaskTypeView::CloudflareDnsUpdate {
            zone_id,
            record_name,
            record_type,
            record_id,
            content,
            proxied,
            ttl,
            api_token_plain: plain.0,
            api_email_plain: plain.1,
            api_token_encrypted: sealed.0,
            api_email_encrypted: sealed.1,
        },
        TaskTypeView::CloudflareIpListUpdate {
            account_id,
            list_id,
            list_name,
            ip,
            comment,
            action,
            ..
        } => TaskTypeView::CloudflareIpListUpdate {
            account_id,
            list_id,
            list_name,
            ip,
            comment,
            action,
            api_token_plain: plain.0,
            api_email_plain: plain.1,
            api_token_encrypted: sealed.0,
            api_email_encrypted: sealed.1,
        },
        other => other,
    }
}

/// The pair at an index, or a pair of nothing behind the end.
pub open spec fn pair_at(
    list: Seq<(Option<Seq<u8>>, Option<Seq<u8>>)>,
    i: int,
) -> (Option<Seq<u8>>, Option<Seq<u8>>) {
    if 0 <= i < list.len() {
        list[i]
    } else {
        (None, None)
    }
}

/// A task with those of its sealed secrets replaced that are given anew.
pub open spec fn with_new_secrets(
    task: TaskView,
    new: (Option<Seq<u8>>, Option<Seq<u8>>),
) -> TaskView {
    let sealed = sealed_secrets(task.task_type);
    TaskView {
        task_type: with_secrets(
            task.task_type,
            plain_secrets(task.task_type),
            (replaced(new.0, sealed.0), replaced(new.1, sealed.1)),
        ),
        ..task
    }
}

/// The tasks with their secrets sealed again.
pub open spec fn resealed_tasks(
    tasks: Seq<TaskView>,
    list: Seq<(Option<Seq<u8>>, Option<Seq<u8>>)>,
) -> Seq<TaskView> {
    Seq::new(tasks.len(), |i: int| with_new_secrets(tasks[i], pair_at(list, i)))
}

/// The application with the new password that was entered, if there is one: the
/// secrets of the tasks, and the Cloudflare secret that is stored, are sealed
/// under it.
pub open spec fn with_password(state: AppView, drawn: DrawnView) -> AppView {
    if state.settings.new_password.len() == 0 {
        state
    } else {
        let form = FormView {
            new_password: Seq::empty(),
            confirm_password: Seq::empty(),
            ..state.settings
        };
        match drawn.verifier {
            Some(verifier) => AppView {
                config: ConfigView {
                    password_verifier: Some(verifier),
                    password_salt: Some(drawn.salt),
                    cloudflare_api_token_encrypted: replaced(
                        drawn.kept_token,
                        state.config.cloudflare_api_token_encrypted,
                    ),
                    ..state.config
                },
                tasks: resealed_tasks(state.tasks, drawn.task_secrets),
                master_password: state.settings.new_password,
                password_verified: true,
                settings: form,
                ..state
            },
            None => AppView { settings: form, ..state },
        }
    }
}

/// Whether a secret was entered that has to be sealed.
pub open spec fn has_credentials(form: FormView) -> bool {
    form.app_token.len() > 0 || form.user_key.len() > 0 || form.cloudflare_token.len() > 0
        || form.cloudflare_email.len() > 0
}

/// New bytes where there are any, else the old ones.
pub open spec fn replaced(new: Option<Seq<u8>>, old_bytes: Option<Seq<u8>>) -> Option<Seq<u8>> {
    match new {
        Some(bytes) => Some(bytes),
        None => old_bytes,
    }
}

/// The application with the Pushover credentials that were entered: both are
/// needed.
pub open spec fn with_pushover(state: AppView, drawn: DrawnView) -> AppView {
    if state.settings.app_token.len() > 0 && state.settings.user_key.len() > 0
        && state.config.password_salt is Some {
        AppView {
            config: ConfigView {
                pushover_app_token_encrypted: replaced(
                    drawn.app_token,
                    state.config.pushover_app_token_encrypted,
                ),
                pushover_user_key_encrypted: replaced(
                    drawn.user_key,
                    state.config.pushover_user_key_encrypted,
                ),
                ..state.config
            },
            ..state
        }
    } else {
        state
    }
}

/// The application with the Cloudflare secret that was entered. An empty field keeps
/// the stored one, and a field of blanks removes it.
pub open spec fn with_cloudflare_token(
    state: AppView,
    drawn: DrawnView,
    clock: ClockReading,
) -> AppView {
    if state.settings.cloudflare_token.len() == 0 {
        state
    } else if trim(state.settings.cloudflare_token).len() == 0 {
        logged(
            AppView {
                config: ConfigView { cloudflare_api_token_encrypted: None, ..state.config },
                ..state
            },
            clock,
            "Cloudflare token cleared"@,
        )
    } else if state.config.password_salt is None {
        logged(state, clock, "ERROR: Cannot encrypt Cloudflare token — no password salt set"@)
    } else {
        match drawn.cloudflare_token {
            Ok(bytes) => logged(
                AppView {
                    config: ConfigView {
                        cloudflare_api_token_encrypted: Some(bytes),
                        ..state.config
                    },
                    ..state
                },
                clock,
                "Cloudflare token encrypted and stored"@,
            ),
            Err(e) => logged(state, clock, "ERROR: Failed to encrypt Cloudflare token: "@ + e),
        }
    }
}

/// The application with the Cloudflare address that was entered, or without one.
pub open spec fn with_cloudflare_email(state: AppView, drawn: DrawnView) -> AppView {
    if trim(state.settings.cloudflare_email).len() == 0 {
        AppView {
            config: ConfigView { cloudflare_api_email_encrypted: None, ..state.config },
            ..state
        }
    } else if state.config.password_salt is None {
        state
    } else {
        AppView {
            config: ConfigView {
                cloudflare_api_email_encrypted: replaced(
                    drawn.cloudflare_email,
                    state.config.cloudflare_api_email_encrypted,
                ),
                ..state.config
            },
            ..state
        }
    }
}

/// What the log says of settings that are about to be saved.
pub open spec fn prepared_log(config: ConfigView) -> Seq<char> {
    "Settings prepared: zone_id='"@ + config.cloudflare_default_zone_id + "' record_name='"@
        + config.cloudflare_default_record_name + "' token_present="@ + bool_text(
        config.cloudflare_api_token_encrypted is Some,
    ) + " email_present="@ + bool_text(config.cloudflare_api_email_encrypted is Some)
}

/// The application with the defaults that were entered, and the settings closed.
pub open spec fn with_defaults(state: AppView, clock: ClockReading) -> AppView {
    let next = AppView {
        config: ConfigView {
            cloudflare_default_zone_id: trim(state.settings.cloudflare_zone_id),
            cloudflare_default_record_name: trim(state.settings.cloudflare_record_name),
            ..state.config
        },
        ..state
    };
    AppView {
        show_settings: false,
        password_error: Seq::empty(),
        ..logged(next, clock, prepared_log(next.config))
    }
}

/// The application after its settings were taken over, and whether they are to be
/// saved.
pub open spec fn settings_taken(state: AppView, drawn: DrawnView, clock: ClockReading) -> (
    AppView,
    bool,
) {
    let ported = with_port(state);
    if passwords_differ(state.settings) {
        (AppView { password_error: "Passwords do not match"@, ..ported }, false)
    } else {
        let locked = with_password(ported, drawn);
        if has_credentials(state.settings) && locked.config.password_verifier is None {
            (
                AppView {
                    password_error: "A master password is required to encrypt credentials. Set one in the Master Password section below."@,
                    ..locked
                },
                false,
            )
        } else {
            (
                with_defaults(
                    with_cloudflare_email(
                        with_cloudflare_token(with_pushover(locked, drawn), drawn, clock),
                        drawn,
                    ),
                    clock,
                ),
                true,
            )
        }
    }
}

/// Whether bytes are a text sealed; none are where the text is too long for that.
pub open spec fn sealed_as(
    bytes: Option<Seq<u8>>,
    text: Seq<char>,
    password: Seq<char>,
    salt: Seq<u8>,
) -> bool {
    match bytes {
        Some(b) => is_sealed(b, text, password, salt),
        None => encode_utf8(text).len() > MAX_PLAIN,
    }
}

/// The password that settings are sealed under.
pub open spec fn sealing_password(state: AppView) -> Seq<char> {
    if state.settings.new_password.len() > 0 {
        state.settings.new_password
    } else {
        state.master_password
    }
}

/// The salt that settings are sealed under.
pub open spec fn sealing_salt(state: AppView, drawn: DrawnView) -> Option<Seq<u8>> {
    if state.settings.new_password.len() > 0 {
        Some(drawn.salt)
    } else {
        state.config.password_salt
    }
}

/// Whether bytes are a stored secret sealed anew: where it opens under the old
/// password they are its text sealed under the new one, and else there are none.
pub open spec fn sealed_anew(
    state: AppView,
    sealed: Option<Seq<u8>>,
    bytes: Option<Seq<u8>>,
    salt: Seq<u8>,
) -> bool {
    match opened_secret(state.config, sealed, state.master_password) {
        Some(text) => sealed_as(bytes, text, state.settings.new_password, salt),
        None => bytes is None,
    }
}

/// Whether the secrets of the tasks are sealed anew.
pub open spec fn tasks_sealed_anew(state: AppView, drawn: DrawnView) -> bool {
    &&& drawn.task_secrets.len() == state.tasks.len()
    &&& forall|i: int|
        0 <= i < state.tasks.len() ==> {
            let sealed = sealed_secrets(state.tasks[i].task_type);
            let new = #[trigger] drawn.task_secrets[i];
            &&& sealed_anew(state, sealed.0, new.0, drawn.salt)
            &&& sealed_anew(state, sealed.1, new.1, drawn.salt)
        }
}

/// Whether what was drawn is what saving the settings of an application draws.
pub open spec fn drawn_for(state: AppView, drawn: DrawnView) -> bool {
    let form = state.settings;
    let password = sealing_password(state);
    &&& form.new_password.len() > 0 ==> drawn.salt.len() == 16 && (
    drawn.verifier matches Some(verifier) && verifies(verifier, form.new_password, drawn.salt))
    &&& form.new_password.len() > 0 ==> tasks_sealed_anew(state, drawn) && sealed_anew(
        state,
        state.config.cloudflare_api_token_encrypted,
        drawn.kept_token,
        drawn.salt,
    )
    &&& sealing_salt(state, drawn) matches Some(salt) ==> {
        &&& form.app_token.len() > 0 ==> sealed_as(drawn.app_token, form.app_token, password, salt)
        &&& form.user_key.len() > 0 ==> sealed_as(drawn.user_key, form.user_key, password, salt)
        &&& trim(form.cloudflare_token).len() > 0 ==> match drawn.cloudflare_token {
            Ok(bytes) => is_sealed(bytes, trim(form.cloudflare_token), password, salt),
            Err(e) => e == "aead::Error"@ && encode_utf8(trim(form.cloudflare_token)).len()
                > MAX_PLAIN,
        }
        &&& trim(form.cloudflare_email).len() > 0 ==> sealed_as(
            drawn.cloudflare_email,
            trim(form.cloudflare_email),
            password,
            salt,
        )
    }
}

/// A text sealed, unless it is empty.
fn seal_text(text: &str, password: &str, salt: &Option<Vec<u8>>) -> (r: Option<Vec<u8>>)
    ensures
        *salt matches Some(s) ==> (text@.len() > 0 ==> sealed_as(
            opt_bytes(r),
            text@,
            password@,
            s@,
        )),
        text@.len() == 0 || *salt is None ==> r is None,
{
    match salt {
        Some(s) if !text.is_empty() => match Crypto::encrypt(text, password, s.as_slice()) {
            Ok(bytes) => Some(bytes),
            Err(_) => None,
        },
        _ => None,
    }
}

/// A stored secret sealed under a new password and salt, where the old ones open
/// it.
fn seal_anew(
    sealed: &Option<Vec<u8>>,
    old_password: &str,
    old_salt: &Option<Vec<u8>>,
    password: &str,
    salt: &Vec<u8>,
) -> (r: Option<Vec<u8>>)
    ensures
        match (match opt_bytes(*old_salt) {
            Some(s) => opened(opt_bytes(*sealed), old_password@, s),
            None => None,
        }) {
            Some(text) => sealed_as(opt_bytes(r), text, password@, salt@),
            None => r is None,
        },
{
    match (old_salt, sealed) {
        (Some(s), Some(bytes)) => match open_secret(Some(bytes), old_password, s.as_slice()) {
            Some(text) => match Crypto::encrypt(text.as_str(), password, salt.as_slice()) {
                Ok(bytes) => Some(bytes),
                Err(_) => None,
            },
            None => None,
        },
        _ => None,
    }
}

/// What a task does, with other secrets, where it has any.
fn set_secrets(
    task_type: TaskType,
    plain: (Option<String>, Option<String>),
    sealed: TaskSecrets,
) -> (r: TaskType)
    ensures
        r@ == with_secrets(
            task_type@,
            (opt_text(plain.0), opt_text(plain.1)),
            (opt_bytes(sealed.token), opt_bytes(sealed.email)),
        ),
{
    let mut task_type = task_type;
    match &mut task_type {
        TaskType::CloudflareDnsUpdate {
            api_token_plain,
            api_email_plain,
            api_token_encrypted,
            api_email_encrypted,
            ..
        } => {
            *api_token_plain = plain.0;
            *api_email_plain = plain.1;
            *api_token_encrypted = sealed.token;
            *api_email_encrypted = sealed.email;
        },
        TaskType::CloudflareIpListUpdate {
            api_token_plain,
            api_email_plain,
            api_token_encrypted,
            api_email_encrypted,
            ..
        } => {
            *api_token_plain = plain.0;
            *api_email_plain = plain.1;
            *api_token_encrypted = sealed.token;
            *api_email_encrypted = sealed.email;
        },
        _ => {},
    }
    task_type
}

/// The secrets in the open of what a task does.
fn plains_of(task_type: &TaskType) -> (r: (Option<String>, Option<String>))
    ensures
        (opt_text(r.0), opt_text(r.1)) == plain_secrets(task_type@),
{
    match task_type {
        TaskType::CloudflareDnsUpdate { api_token_plain, api_email_plain, .. } => (
            copy_opt_text(api_token_plain),
            copy_opt_text(api_email_plain),
        ),
        TaskType::CloudflareIpListUpdate { api_token_plain, api_email_plain, .. } => (
            copy_opt_text(api_token_plain),
            copy_opt_text(api_email_plain),
        ),
        _ => (None, None),
    }
}

/// The sealed secrets of what a task does.
fn secrets_of(task_type: &TaskType) -> (r: TaskSecrets)
    ensures
        (opt_bytes(r.token), opt_bytes(r.email)) == sealed_secrets(task_type@),
{
    match task_type {
        TaskType::CloudflareDnsUpdate { api_token_encrypted, api_email_encrypted, .. } => {
            TaskSecrets {
                token: copy_opt_bytes(api_token_encrypted),
                email: copy_opt_bytes(api_email_encrypted),
            }
        },
        TaskType::CloudflareIpListUpdate { api_token_encrypted, api_email_encrypted, .. } => {
            TaskSecrets {
                token: copy_opt_bytes(api_token_encrypted),
                email: copy_opt_bytes(api_email_encrypted),
            }
        },
        _ => TaskSecrets { token: None, email: None },
    }
}

/// New bytes where there are any, else the old ones.
fn replace_bytes(new: &Option<Vec<u8>>, old_bytes: Option<Vec<u8>>) -> (r: Option<Vec<u8>>)
    ensures
        opt_bytes(r) == replaced(opt_bytes(*new), opt_bytes(old_bytes)),
{
    match new {
        Some(bytes) => Some(slice_to_vec(bytes.as_slice())),
        None => old_bytes,
    }
}

/// A task with those of its sealed secrets replaced that are given anew.
fn put_secrets(task: Task, new: &TaskSecrets) -> (r: Task)
    ensures
        r@ == with_new_secrets(task@, (opt_bytes(new.token), opt_bytes(new.email))),
{
    let mut task = task;
    let plain = plains_of(&task.task_type);
    let stored = secrets_of(&task.task_type);
    let sealed = TaskSecrets {
        token: replace_bytes(&new.token, stored.token),
        email: replace_bytes(&new.email, stored.email),
    };
    task.task_type = set_secrets(task.task_type, plain, sealed);
    task
}

impl App {
    /// Takes over the port that was entered, if it is one.
    fn take_port(&mut self)
        ensures
            final(self)@ == with_port(old(self)@),
            old(self).wf() ==> final(self).wf(),
    {
        if let Some(port) = parse_unsigned_text(
            self.settings.smtp_port.as_str(),
            u16::MAX as u64,
        ) {
            self.config.smtp_port = port as u16;
        }
    }

    /// Seals the secrets of the tasks again.
    fn reseal_tasks(&mut self, list: &Vec<TaskSecrets>)
        ensures
            final(self)@ == (AppView {
                tasks: resealed_tasks(old(self)@.tasks, secret_pairs(list@)),
                ..old(self)@
            }),
    {
        let ghost start = self@;
        let ghost pairs = secret_pairs(list@);
        let mut i: usize = 0;
        while i < self.tasks.len()
            invariant
                pairs == secret_pairs(list@),
                i <= self.tasks@.len(),
                self.tasks@.len() == start.tasks.len(),
                forall|j: int|
                    0 <= j < i ==> #[trigger] self.tasks@[j]@ == resealed_tasks(
                        start.tasks,
                        pairs,
                    )[j],
                forall|j: int|
                    i <= j < start.tasks.len() ==> #[trigger] self.tasks@[j]@ == start.tasks[j],
                self@ == (AppView { tasks: self@.tasks, ..start }),
            decreases self.tasks@.len() - i,
        {
            assert(self.tasks@[i as int]@ == start.tasks[i as int]);
            let task = self.tasks[i].clone();
            let task = if i < list.len() {
                assert(pairs[i as int] == (
                    opt_bytes(list@[i as int].token),
                    opt_bytes(list@[i as int].email),
                ));
                put_secrets(task, &list[i])
            } else {
                put_secrets(task, &TaskSecrets { token: None, email: None })
            };
            self.tasks.set(i, task);
            i = i + 1;
        }
        assert(self@.tasks =~= resealed_tasks(start.tasks, pairs));
    }

    /// The secrets of the tasks, sealed under a new password and salt.
    fn seal_tasks_anew(&self, password: &str, salt: &Vec<u8>) -> (r: Vec<TaskSecrets>)
        requires
            password@ == self@.settings.new_password,
        ensures
            r@.len() == self@.tasks.len(),
            forall|i: int|
                0 <= i < r@.len() ==> {
                    let sealed = sealed_secrets(self@.tasks[i].task_type);
                    let new = #[trigger] secret_pairs(r@)[i];
                    &&& sealed_anew(self@, sealed.0, new.0, salt@)
                    &&& sealed_anew(self@, sealed.1, new.1, salt@)
                },
    {
        let mut r: Vec<TaskSecrets> = Vec::new();
        let mut i: usize = 0;
        while i < self.tasks.len()
            invariant
                password@ == self@.settings.new_password,
                i <= self.tasks@.len(),
                r@.len() == i,
                forall|j: int|
                    0 <= j < i ==> {
                        let sealed = sealed_secrets(self@.tasks[j].task_type);
                        let new = #[trigger] secret_pairs(r@)[j];
                        &&& sealed_anew(self@, sealed.0, new.0, salt@)
                        &&& sealed_anew(self@, sealed.1, new.1, salt@)
                    },
            decreases self.tasks@.len() - i,
        {
            let stored = secrets_of(&self.tasks[i].task_type);
            let old_password = self.master_password.as_str();
            let old_salt = &self.config.password_salt;
            let token = seal_anew(&stored.token, old_password, old_salt, password, salt);
            let email = seal_anew(&stored.email, old_password, old_salt, password, salt);
            let ghost before = r@;
            r.push(TaskSecrets { token, email });
            assert(forall|j: int|
                0 <= j < i ==> #[trigger] secret_pairs(r@)[j] == secret_pairs(before)[j]);
            i = i + 1;
        }
        r
    }

    /// Takes over the new password that was entered, if there is one.
    fn take_password(&mut self, drawn: &DrawnSecrets)
        ensures
            final(self)@ == with_password(old(self)@, drawn@),
            old(self).wf() ==> final(self).wf(),
    {
        if !self.settings.new_password.as_str().is_empty() {
            if let Some(verifier) = &drawn.verifier {
                self.config.password_verifier = Some(slice_to_vec(verifier.as_slice()));
                self.config.password_salt = Some(slice_to_vec(drawn.salt.as_slice()));
                if let Some(bytes) = &drawn.kept_token {
                    self.config.cloudflare_api_token_encrypted =
                    Some(slice_to_vec(bytes.as_slice()));
                }
                self.reseal_tasks(&drawn.task_secrets);
                self.master_password = self.settings.new_password.clone();
                self.password_verified = true;
            }
            self.settings.new_password = String::new();
            self.settings.confirm_password = String::new();
            assert(self@.settings.new_password =~= Seq::<char>::empty());
            assert(self@.settings.confirm_password =~= Seq::<char>::empty());
        }
    }

    /// Takes over the Pushover credentials that were entered.
    fn take_pushover(&mut self, drawn: &DrawnSecrets)
        ensures
            final(self)@ == with_pushover(old(self)@, drawn@),
            old(self).wf() ==> final(self).wf(),
    {
        if !self.settings.app_token.as_str().is_empty()
            && !self.settings.user_key.as_str().is_empty() && self.config.password_salt.is_some() {
            if let Some(bytes) = &drawn.app_token {
                self.config.pushover_app_token_encrypted = Some(slice_to_vec(bytes.as_slice()));
            }
            if let Some(bytes) = &drawn.user_key {
                self.config.pushover_user_key_encrypted = Some(slice_to_vec(bytes.as_slice()));
            }
        }
    }

    /// Takes over the Cloudflare secret that was entered.
    fn take_cloudflare_token(&mut self, drawn: &DrawnSecrets, clock: &ClockReading)
        ensures
            final(self)@ == with_cloudflare_token(old(self)@, drawn@, *clock),
            old(self).wf() ==> final(self).wf(),
    {
        if self.settings.cloudflare_token.as_str().is_empty() {
            return;
        }
        let token = trim_text(self.settings.cloudflare_token.as_str());
        if token.as_str().is_empty() {
            self.config.cloudflare_api_token_encrypted = None;
            self.push_log("Cloudflare token cleared", clock);
        } else if self.config.password_salt.is_none() {
            self.push_log(
                "ERROR: Cannot encrypt Cloudflare token — no password salt set",
                clock,
            );
        } else {
            match &drawn.cloudflare_token {
                Ok(bytes) => {
                    self.config.cloudflare_api_token_encrypted =
                    Some(slice_to_vec(bytes.as_slice()));
                    self.push_log("Cloudflare token encrypted and stored", clock);
                },
                Err(e) => {
                    let line = cat2("ERROR: Failed to encrypt Cloudflare token: ", e.as_str());
                    self.push_log(line.as_str(), clock);
                },
            }
        }
    }

    /// Takes over the Cloudflare address that was entered.
    fn take_cloudflare_email(&mut self, drawn: &DrawnSecrets)
        ensures
            final(self)@ == with_cloudflare_email(old(self)@, drawn@),
            old(self).wf() ==> final(self).wf(),
    {
        let email = trim_text(self.settings.cloudflare_email.as_str());
        if email.as_str().is_empty() {
            self.config.cloudflare_api_email_encrypted = None;
        } else if self.config.password_salt.is_some() {
            if let Some(bytes) = &drawn.cloudflare_email {
                self.config.cloudflare_api_email_encrypted = Some(slice_to_vec(bytes.as_slice()));
            }
        }
    }

    /// Takes over the defaults that were entered, and closes the settings.
    fn take_defaults(&mut self, clock: &ClockReading)
        ensures
            final(self)@ == with_defaults(old(self)@, *clock),
            old(self).wf() ==> final(self).wf(),
    {
        self.config.cloudflare_default_zone_id = trim_text(
            self.settings.cloudflare_zone_id.as_str(),
        );
        self.config.cloudflare_default_record_name = trim_text(
            self.settings.cloudflare_record_name.as_str(),
        );
        let has_token = text_of_bool(self.config.cloudflare_api_token_encrypted.is_some());
        let has_email = text_of_bool(self.config.cloudflare_api_email_encrypted.is_some());
        let line = cat8(
            "Settings prepared: zone_id='",
            self.config.cloudflare_default_zone_id.as_str(),
            "' record_name='",
            self.config.cloudflare_default_record_name.as_str(),
            "' token_present=",
            has_token.as_str(),
            " email_present=",
            has_email.as_str(),
        );
        assert(line@ == prepared_log(self@.config));
        self.push_log(line.as_str(), clock);
        self.show_settings = false;
        self.password_error = String::new();
        assert(self@.password_error =~= Seq::<char>::empty());
    }

    /// Takes over the settings, given what chance had a part in. Says whether the
    /// configuration is to be saved.
    pub fn take_settings(&mut self, drawn: DrawnSecrets, clock: &ClockReading) -> (r: bool)
        ensures
            (final(self)@, r) == settings_taken(old(self)@, drawn@, *clock),
            old(self).wf() ==> final(self).wf(),
    {
        let has_credentials = !self.settings.app_token.as_str().is_empty()
            || !self.settings.user_key.as_str().is_empty()
            || !self.settings.cloudflare_token.as_str().is_empty()
            || !self.settings.cloudflare_email.as_str().is_empty();
        let differ = !self.settings.new_password.as_str().is_empty() && !same_text(
            self.settings.new_password.as_str(),
            self.settings.confirm_password.as_str(),
        );
        self.take_port();
        if differ {
            self.password_error = copy_text("Passwords do not match");
            return false;
        }
        self.take_password(&drawn);
        if has_credentials && self.config.password_verifier.is_none() {
            self.password_error = copy_text(
                "A master password is required to encrypt credentials. Set one in the Master Password section below.",
            );
            return false;
        }
        self.take_pushover(&drawn);
        self.take_cloudflare_token(&drawn, clock);
        self.take_cloudflare_email(&drawn);
        self.take_defaults(clock);
        true
    }

    /// Takes over the settings, with a new salt where a new password was entered,
    /// and with the secrets sealed. Says whether the configuration is to be saved.
    pub fn save_settings(&mut self, clock: &ClockReading) -> (r: bool)
        ensures
            exists|drawn: DrawnView|
                (passwords_differ(old(self)@.settings) || drawn_for(old(self)@, drawn)) && (
                    final(self)@,
                    r,
                ) == #[trigger] settings_taken(old(self)@, drawn, *clock),
            old(self).wf() ==> final(self).wf(),
    {
        let mut drawn = DrawnSecrets {
            salt: Vec::new(),
            verifier: None,
            app_token: None,
            user_key: None,
            cloudflare_token: Err(String::new()),
            cloudflare_email: None,
            kept_token: None,
            task_secrets: Vec::new(),
        };
        let sets_password = !self.settings.new_password.as_str().is_empty();
        if sets_password && !same_text(
            self.settings.new_password.as_str(),
            self.settings.confirm_password.as_str(),
        ) {
            assert(passwords_differ(self@.settings));
            return self.take_settings(drawn, clock);
        }
        let password = if sets_password {
            self.settings.new_password.clone()
        } else {
            self.master_password.clone()
        };
        let salt: Option<Vec<u8>> = if sets_password {
            let bytes = Crypto::generate_salt();
            let new_salt = slice_to_vec(bytes.as_slice());
            drawn.verifier = match Crypto::generate_verifier(
                password.as_str(),
                new_salt.as_slice(),
            ) {
                Ok(verifier) => Some(verifier),
                Err(_) => None,
            };
            drawn.salt = slice_to_vec(bytes.as_slice());
            drawn.kept_token = seal_anew(
                &self.config.cloudflare_api_token_encrypted,
                self.master_password.as_str(),
                &self.config.password_salt,
                password.as_str(),
                &new_salt,
            );
            drawn.task_secrets = self.seal_tasks_anew(password.as_str(), &new_salt);
            Some(new_salt)
        } else {
            copy_opt_bytes(&self.config.password_salt)
        };
        drawn.app_token =
        seal_text(self.settings.app_token.as_str(), password.as_str(), &salt);
        drawn.user_key = seal_text(self.settings.user_key.as_str(), password.as_str(), &salt);
        let token = trim_text(self.settings.cloudflare_token.as_str());
        if let Some(s) = &salt {
            if !token.as_str().is_empty() {
                drawn.cloudflare_token = Crypto::encrypt(
                    token.as_str(),
                    password.as_str(),
                    s.as_slice(),
                );
            }
        }
        let email = trim_text(self.settings.cloudflare_email.as_str());
        drawn.cloudflare_email = seal_text(email.as_str(), password.as_str(), &salt);
        assert(drawn_for(self@, drawn@));
        self.take_settings(drawn, clock)
    }
}

// ---------------------------------------------------------------------------
// Tasks
// ---------------------------------------------------------------------------

/// A secret of a task as it is shown while the task is edited.
pub open spec fn revealed_secret(
    sealed: Option<Seq<u8>>,
    plain: Option<Seq<char>>,
    password: Seq<char>,
    salt: Seq<u8>,
) -> Option<Seq<char>> {
    if sealed is Some {
        opened(sealed, password, salt)
    } else {
        plain
    }
}

/// What a task does, with its secrets opened.
pub open spec fn revealed(
    task_type: TaskTypeView,
    password: Seq<char>,
    salt: Seq<u8>,
) -> TaskTypeView {
    let plain = plain_secrets(task_type);
    let sealed = sealed_secrets(task_type);
    with_secrets(
        task_type,
        (
            revealed_secret(sealed.0, plain.0, password, salt),
            revealed_secret(sealed.1, plain.1, password, salt),
        ),
        sealed,
    )
}

/// A task as it is edited: with its secrets opened, where the password is known.
pub open spec fn as_edited(state: AppView, task: TaskView) -> TaskView {
    match state.config.password_salt {
        Some(salt) if state.password_verified => TaskView {
            task_type: revealed(task.task_type, state.master_password, salt),
            ..task
        },
        _ => task,
    }
}

/// A sealed secret of a task after the task was edited: an empty text removes it,
/// another one replaces it, and without a text it stays.
pub open spec fn resealed(
    plain: Option<Seq<char>>,
    sealed: Option<Seq<u8>>,
    new: Option<Seq<u8>>,
) -> Option<Seq<u8>> {
    match plain {
        Some(text) => if text.len() == 0 {
            None
        } else {
            replaced(new, sealed)
        },
        None => sealed,
    }
}

/// Whether secrets of tasks can be sealed.
pub open spec fn can_seal(state: AppView) -> bool {
    state.password_verified && state.master_password.len() > 0 && state.config.password_salt is Some
}

/// What a task does, as it is kept after it was edited: with the hash of its file
/// as it is now, and with its secrets sealed and no longer in the open.
pub open spec fn as_kept(
    state: AppView,
    task_type: TaskTypeView,
    hash: Option<Seq<char>>,
    token: Option<Seq<u8>>,
    email: Option<Seq<u8>>,
) -> TaskTypeView {
    match task_type {
        TaskTypeView::FileChanged { file_path, .. } => TaskTypeView::FileChanged {
            file_path,
            baseline_hash: hash,
        },
        other => {
            let plain = plain_secrets(other);
            let sealed = sealed_secrets(other);
            with_secrets(
                other,
                (None, None),
                if can_seal(state) {
                    (resealed(plain.0, sealed.0, token), resealed(plain.1, sealed.1, email))
                } else {
                    sealed
                },
            )
        },
    }
}

/// Tasks with one more, or with a new version of one that they have.
pub open spec fn with_task(tasks: Seq<TaskView>, task: TaskView) -> Seq<TaskView> {
    match find_task(tasks, task.id, 0) {
        Some(i) => tasks.update(i, task),
        None => tasks.push(task),
    }
}

/// Whether a secret was entered.
pub open spec fn is_entered(plain: Option<Seq<char>>) -> bool {
    plain matches Some(text) && text.len() > 0
}

/// Whether a task has a secret that was entered and cannot be sealed.
pub open spec fn lacks_password(state: AppView, task_type: TaskTypeView) -> bool {
    !can_seal(state) && (is_entered(plain_secrets(task_type).0) || is_entered(
        plain_secrets(task_type).1,
    ))
}

/// The application after the task that is edited was kept. Where a secret was
/// entered for it that cannot be sealed, it says so.
pub open spec fn task_kept(
    state: AppView,
    hash: Option<Seq<char>>,
    token: Option<Seq<u8>>,
    email: Option<Seq<u8>>,
) -> AppView {
    match state.editing_task {
        Some(task) => AppView {
            tasks: with_task(
                state.tasks,
                TaskView {
                    task_type: as_kept(state, task.task_type, hash, token, email),
                    ..task
                },
            ),
            editing_task: None,
            password_error: if lacks_password(state, task.task_type) {
                "A master password is required to encrypt credentials. Set one in Settings."@
            } else {
                state.password_error
            },
            ..state
        },
        None => state,
    }
}

/// The application after a task was selected.
pub open spec fn task_selected(state: AppView, idx: usize) -> AppView {
    AppView { selected_task_idx: Some(idx), editing_task: None, ..state }
}

/// The application while a new task with an identifier is edited.
pub open spec fn task_added(state: AppView, id: u128) -> AppView {
    AppView { editing_task: Some(new_task(id)), selected_task_idx: None, ..state }
}

/// The task that is selected, if there is one at its index.
pub open spec fn selected_task(state: AppView) -> Option<TaskView> {
    match state.selected_task_idx {
        Some(idx) => if idx < state.tasks.len() {
            Some(state.tasks[idx as int])
        } else {
            None
        },
        None => None,
    }
}

/// The application while the task that is selected is edited.
pub open spec fn task_opened(state: AppView) -> AppView {
    match selected_task(state) {
        Some(task) => AppView { editing_task: Some(as_edited(state, task)), ..state },
        None => state,
    }
}

/// The application after the task that is selected was removed.
pub open spec fn task_deleted(state: AppView) -> AppView {
    match selected_task(state) {
        Some(_) => AppView {
            tasks: state.tasks.remove(state.selected_task_idx->0 as int),
            selected_task_idx: None,
            ..state
        },
        None => state,
    }
}

/// The file that the task that is edited watches.
pub open spec fn watched_file(state: AppView) -> Option<Seq<char>> {
    match state.editing_task {
        Some(task) => match task.task_type {
            TaskTypeView::FileChanged { file_path, .. } => Some(file_path),
            _ => None,
        },
        None => None,
    }
}

/// The task that is to run now: the one that is edited, by its identifier and its name.
pub open spec fn demanded(state: AppView) -> Option<(u128, Seq<char>)> {
    match state.editing_task {
        Some(task) => Some((task.id, task.name)),
        None => None,
    }
}

/// Whether bytes are what keeping a task seals of a text.
pub open spec fn sealed_for(
    state: AppView,
    plain: Option<Seq<char>>,
    bytes: Option<Seq<u8>>,
) -> bool {
    match (plain, state.config.password_salt) {
        (Some(text), Some(salt)) if can_seal(state) && text.len() > 0 => sealed_as(
            bytes,
            text,
            state.master_password,
            salt,
        ),
        _ => true,
    }
}

impl App {
    /// Selects a task, and ends the editing of another.
    pub fn select_task(&mut self, idx: usize)
        ensures
            final(self)@ == task_selected(old(self)@, idx),
            final(self)@ == (AppView {
                selected_task_idx: Some(idx),
                editing_task: None,
                ..old(self)@
            }),
            old(self).wf() ==> final(self).wf(),
    {
        self.selected_task_idx = Some(idx);
        self.editing_task = None;
    }

    /// Starts to edit a new task with an identifier.
    pub fn add_task_with_id(&mut self, id: u128)
        ensures
            final(self)@ == task_added(old(self)@, id),
            final(self)@ == (AppView {
                editing_task: Some(new_task(id)),
                selected_task_idx: None,
                ..old(self)@
            }),
            old(self).wf() ==> final(self).wf(),
    {
        self.editing_task = Some(Task::with_id(id));
        self.selected_task_idx = None;
    }

    /// Starts to edit a new task.
    pub fn add_task(&mut self)
        ensures
            final(self)@.editing_task matches Some(task) && is_random_uuid(task.id) && task
                == new_task(task.id),
            final(self)@ == (AppView {
                editing_task: final(self)@.editing_task,
                selected_task_idx: None,
                ..old(self)@
            }),
            old(self).wf() ==> final(self).wf(),
    {
        let id = new_id();
        self.add_task_with_id(id);
    }

    /// Starts to edit the selected task, with its secrets opened.
    pub fn edit_selected_task(&mut self)
        ensures
            final(self)@ == task_opened(old(self)@),
            final(self)@ == match old(self)@.selected_task_idx {
                Some(idx) if idx < old(self)@.tasks.len() => AppView {
                    editing_task: Some(as_edited(old(self)@, old(self)@.tasks[idx as int])),
                    ..old(self)@
                },
                _ => old(self)@,
            },
            old(self).wf() ==> final(self).wf(),
    {
        if let Some(idx) = self.selected_task_idx {
            if idx < self.tasks.len() {
                let mut task = self.tasks[idx].clone();
                if self.password_verified {
                    if let Some(salt) = &self.config.password_salt {
                        let password = self.master_password.as_str();
                        task.task_type = reveal_secrets(task.task_type, password, salt.as_slice());
                    }
                }
                assert(task@ == as_edited(old(self)@, old(self)@.tasks[idx as int]));
                self.editing_task = Some(task);
            }
        }
    }

    /// Deletes the selected task. Says whether the configuration is to be saved.
    pub fn delete_selected_task(&mut self) -> (r: bool)
        ensures
            r == (selected_task(old(self)@) is Some),
            final(self)@ == task_deleted(old(self)@),
            r == (old(self)@.selected_task_idx matches Some(idx) && idx < old(self)@.tasks.len()),
            final(self)@ == if r {
                AppView {
                    tasks: old(self)@.tasks.remove(old(self)@.selected_task_idx->0 as int),
                    selected_task_idx: None,
                    ..old(self)@
                }
            } else {
                old(self)@
            },
            old(self).wf() ==> final(self).wf(),
    {
        if let Some(idx) = self.selected_task_idx {
            if idx < self.tasks.len() {
                self.tasks.remove(idx);
                assert(self@.tasks =~= old(self)@.tasks.remove(idx as int));
                self.selected_task_idx = None;
                return true;
            }
        }
        false
    }

    /// The file whose hash is needed when the task that is edited is kept.
    pub fn edited_file(&self) -> (r: Option<String>)
        ensures
            opt_text(r) == watched_file(self@),
            opt_text(r) == match self@.editing_task {
                Some(task) => match task.task_type {
                    TaskTypeView::FileChanged { file_path, .. } => Some(file_path),
                    _ => None,
                },
                None => None,
            },
    {
        match &self.editing_task {
            Some(task) => match &task.task_type {
                TaskType::FileChanged { file_path, .. } => Some(file_path.clone()),
                _ => None,
            },
            None => None,
        }
    }

    /// Keeps the task that is edited, given the hash of its file and its secrets
    /// sealed. Says whether the configuration is to be saved.
    pub fn keep_task(
        &mut self,
        hash: Option<String>,
        token: Option<Vec<u8>>,
        email: Option<Vec<u8>>,
    ) -> (r: bool)
        ensures
            r == (old(self)@.editing_task is Some),
            final(self)@ == task_kept(
                old(self)@,
                opt_text(hash),
                opt_bytes(token),
                opt_bytes(email),
            ),
            old(self).wf() ==> final(self).wf(),
    {
        let ghost start = self@;
        let mut editing: Option<Task> = None;
        std::mem::swap(&mut editing, &mut self.editing_task);
        match editing {
            Some(task) => {
                let can_seal = self.password_verified && !self.master_password.as_str().is_empty()
                    && self.config.password_salt.is_some();
                let mut task = task;
                let (plain_token, plain_email) = plains_of(&task.task_type);
                if !can_seal && (has_entered(&plain_token) || has_entered(&plain_email)) {
                    self.password_error = copy_text(
                        "A master password is required to encrypt credentials. Set one in Settings.",
                    );
                }
                task.task_type = keep_secrets(task.task_type, can_seal, hash, token, email);
                let ghost kept = task@;
                match index_of_task(&self.tasks, task.id) {
                    Some(i) => {
                        self.tasks.set(i, task);
                    },
                    None => {
                        self.tasks.push(task);
                    },
                }
                assert(self@.tasks =~= with_task(start.tasks, kept));
                true
            },
            None => false,
        }
    }

    /// Keeps the task that is edited: with the hash of the contents of its file,
    /// and with its secrets sealed. Says whether the configuration is to be saved.
    pub fn save_task(&mut self, contents: &Option<Vec<u8>>) -> (r: bool)
        ensures
            r == (old(self)@.editing_task is Some),
            exists|token: Option<Seq<u8>>, email: Option<Seq<u8>>|
                ({
                    &&& old(self)@.editing_task matches Some(task) ==> {
                        let (plain_token, plain_email) = plain_secrets(task.task_type);
                        sealed_for(old(self)@, plain_token, token) && sealed_for(
                            old(self)@,
                            plain_email,
                            email,
                        )
                    }
                    &&& final(self)@ == #[trigger] task_kept(
                        old(self)@,
                        opt_hash(*contents),
                        token,
                        email,
                    )
                }),
            old(self).wf() ==> final(self).wf(),
    {
        let hash = match contents {
            Some(bytes) => Some(compute_file_hash(bytes.as_slice())),
            None => None,
        };
        let mut token: Option<Vec<u8>> = None;
        let mut email: Option<Vec<u8>> = None;
        if self.password_verified && !self.master_password.as_str().is_empty() {
            if let Some(task) = &self.editing_task {
                let (plain_token, plain_email) = plains_of(&task.task_type);
                let password = self.master_password.as_str();
                if let Some(text) = &plain_token {
                    token = seal_text(text.as_str(), password, &self.config.password_salt);
                }
                if let Some(text) = &plain_email {
                    email = seal_text(text.as_str(), password, &self.config.password_salt);
                }
            }
        }
        self.keep_task(hash, token, email)
    }

    /// Ends the editing of a task without keeping it.
    pub fn cancel_edit(&mut self)
        ensures
            final(self)@ == (AppView { editing_task: None, ..old(self)@ }),
            old(self).wf() ==> final(self).wf(),
    {
        self.editing_task = None;
    }

    /// The identifier and the name of the task that is to run now: the one that is
    /// edited.
    pub fn run_now_task(&self) -> (r: Option<(u128, String)>)
        ensures
            match r {
                Some((id, name)) => demanded(self@) == Some((id, name@)),
                None => demanded(self@) is None,
            },
            match r {
                Some((id, name)) => self@.editing_task matches Some(task) && task.id == id
                    && task.name == name@,
                None => self@.editing_task is None,
            },
    {
        match &self.editing_task {
            Some(task) => Some((task.id, task.name.clone())),
            None => None,
        }
    }

    /// Logs that a task was queued, or why it was not.
    pub fn run_now_queued(&mut self, name: &str, written: &Result<(), String>, clock: &ClockReading)
        ensures
            final(self)@ == logged(
                old(self)@,
                *clock,
                match *written {
                    Ok(_) => "Run Now queued for task: "@ + name@,
                    Err(e) => "Failed to queue Run Now: "@ + e@,
                },
            ),
            old(self).wf() ==> final(self).wf(),
    {
        let line = match written {
            Ok(_) => cat2("Run Now queued for task: ", name),
            Err(e) => cat2("Failed to queue Run Now: ", e.as_str()),
        };
        self.push_log(line.as_str(), clock);
    }
}

/// Whether a secret was entered.
fn has_entered(plain: &Option<String>) -> (r: bool)
    ensures
        r == is_entered(opt_text(*plain)),
{
    match plain {
        Some(text) => !text.as_str().is_empty(),
        None => false,
    }
}

/// A secret of a task as it is shown while the task is edited.
fn reveal_secret(
    sealed: &Option<Vec<u8>>,
    plain: Option<String>,
    password: &str,
    salt: &[u8],
) -> (r: Option<String>)
    ensures
        opt_text(r) == revealed_secret(opt_bytes(*sealed), opt_text(plain), password@, salt@),
{
    match sealed {
        Some(bytes) => open_secret(Some(bytes), password, salt),
        None => plain,
    }
}

/// What a task does, with its secrets opened.
fn reveal_secrets(task_type: TaskType, password: &str, salt: &[u8]) -> (r: TaskType)
    ensures
        r@ == revealed(task_type@, password@, salt@),
{
    let (token, email) = plains_of(&task_type);
    let sealed = secrets_of(&task_type);
    let token = reveal_secret(&sealed.token, token, password, salt);
    let email = reveal_secret(&sealed.email, email, password, salt);
    set_secrets(task_type, (token, email), sealed)
}

/// A sealed secret of a task after the task was edited.
fn reseal(plain: &Option<String>, sealed: Option<Vec<u8>>, new: Option<Vec<u8>>) -> (r: Option<
    Vec<u8>,
>)
    ensures
        opt_bytes(r) == resealed(opt_text(*plain), opt_bytes(sealed), opt_bytes(new)),
{
    match plain {
        Some(text) => {
            if text.as_str().is_empty() {
                None
            } else {
                match new {
                    Some(bytes) => Some(bytes),
                    None => sealed,
                }
            }
        },
        None => sealed,
    }
}

/// What a task does, as it is kept after it was edited.
fn keep_secrets(
    task_type: TaskType,
    can_seal_secrets: bool,
    hash: Option<String>,
    token: Option<Vec<u8>>,
    email: Option<Vec<u8>>,
) -> (r: TaskType)
    ensures
        forall|state: AppView|
            can_seal(state) == can_seal_secrets ==> r@ == #[trigger] as_kept(
                state,
                task_type@,
                opt_text(hash),
                opt_bytes(token),
                opt_bytes(email),
            ),
{
    match task_type {
        TaskType::FileChanged { file_path, .. } => TaskType::FileChanged {
            file_path,
            baseline_hash: hash,
        },
        other => {
            let (plain_token, plain_email) = plains_of(&other);
            let stored = secrets_of(&other);
            let sealed = if can_seal_secrets {
                TaskSecrets {
                    token: reseal(&plain_token, stored.token, token),
                    email: reseal(&plain_email, stored.email, email),
                }
            } else {
                stored
            };
            set_secrets(other, (None, None), sealed)
        },
    }
}

// ---------------------------------------------------------------------------
// Laws
// ---------------------------------------------------------------------------

/// No secret is stored without a master password: where none is set and none is
/// entered, settings with secrets in them are refused, and the sealed secrets stay
/// as they are.
pub proof fn law_credentials_need_a_master_password(
    state: AppView,
    drawn: DrawnView,
    clock: ClockReading,
)
    requires
        state.config.password_verifier is None,
        state.settings.new_password.len() == 0,
        has_credentials(state.settings),
    ensures
        ({
            let (next, saves) = settings_taken(state, drawn, clock);
            &&& !saves
            &&& next.password_error.len() > 0
            &&& next.config == ConfigView { smtp_port: next.config.smtp_port, ..state.config }
        }),
{
    reveal_strlit(
        "A master password is required to encrypt credentials. Set one in the Master Password section below.",
    );
}

/// Two passwords that differ change nothing but the port.
pub proof fn law_different_passwords_are_refused(
    state: AppView,
    drawn: DrawnView,
    clock: ClockReading,
)
    requires
        passwords_differ(state.settings),
    ensures
        ({
            let (next, saves) = settings_taken(state, drawn, clock);
            !saves && next == AppView {
                password_error: "Passwords do not match"@,
                ..with_port(state)
            }
        }),
{
}

/// The window is locked by the password: an application that has one shows nothing
/// but the question for it when it starts, and goes on doing so until a password is
/// entered that the verifier confirms.
pub proof fn law_the_window_is_locked(config: ConfigView, clock: ClockReading, state: AppView)
    ensures
        config.password_verifier is Some ==> frame_of(started_app(config, clock)) == Frame::Prompt,
        frame_of(state) == Frame::Prompt && frame_of(password_tried(state)) != Frame::Prompt ==> (
        state.config.password_verifier matches Some(verifier) && (state.config.password_salt matches
            Some(salt) && verifies(verifier, state.password_input, salt))),
{
}

/// A new password takes effect at once: it opens the application again from the
/// configuration that was saved with it.
pub proof fn law_new_password_unlocks(
    state: AppView,
    drawn: DrawnView,
    clock: ClockReading,
    later: AppView,
)
    requires
        state.settings.new_password.len() > 0,
        drawn_for(state, drawn),
        settings_taken(state, drawn, clock).1,
        later.config == settings_taken(state, drawn, clock).0.config,
        later.password_input == state.settings.new_password,
    ensures
        password_tried(later).password_verified,
        password_tried(later).master_password == state.settings.new_password,
{
}

/// The Pushover credentials that were saved are those that the password opens.
pub proof fn law_saved_pushover_opens(state: AppView, drawn: DrawnView, clock: ClockReading)
    requires
        drawn_for(state, drawn),
        settings_taken(state, drawn, clock).1,
        sealing_salt(state, drawn) is Some,
        state.settings.app_token.len() > 0,
        state.settings.user_key.len() > 0,
        encode_utf8(state.settings.app_token).len() <= MAX_PLAIN,
        encode_utf8(state.settings.user_key).len() <= MAX_PLAIN,
    ensures
        opened_pushover(
            settings_taken(state, drawn, clock).0.config,
            settings_taken(state, drawn, clock).0.master_password,
        ) == Some((state.settings.app_token, state.settings.user_key)),
{
}

/// The Cloudflare secret that was saved is the one that the password opens.
pub proof fn law_saved_cloudflare_token_opens(
    state: AppView,
    drawn: DrawnView,
    clock: ClockReading,
)
    requires
        drawn_for(state, drawn),
        settings_taken(state, drawn, clock).1,
        sealing_salt(state, drawn) is Some,
        trim(state.settings.cloudflare_token).len() > 0,
        encode_utf8(trim(state.settings.cloudflare_token)).len() <= MAX_PLAIN,
    ensures
        ({
            let next = settings_taken(state, drawn, clock).0;
            opened_secret(
                next.config,
                next.config.cloudflare_api_token_encrypted,
                next.master_password,
            ) == Some(trim(state.settings.cloudflare_token))
        }),
{
}

/// A Cloudflare address that was saved opens again under the password, without
/// the blanks around it.
pub proof fn law_saved_cloudflare_email_opens(
    state: AppView,
    drawn: DrawnView,
    clock: ClockReading,
)
    requires
        drawn_for(state, drawn),
        settings_taken(state, drawn, clock).1,
        sealing_salt(state, drawn) is Some,
        trim(state.settings.cloudflare_email).len() > 0,
        encode_utf8(trim(state.settings.cloudflare_email)).len() <= MAX_PLAIN,
    ensures
        ({
            let next = settings_taken(state, drawn, clock).0;
            opened_secret(
                next.config,
                next.config.cloudflare_api_email_encrypted,
                next.master_password,
            ) == Some(trim(state.settings.cloudflare_email))
        }),
{
}

/// Settings with an empty field for the Cloudflare secret keep the stored one.
pub proof fn law_an_empty_field_keeps_the_token(
    state: AppView,
    drawn: DrawnView,
    clock: ClockReading,
)
    requires
        state.settings.cloudflare_token.len() == 0,
        state.settings.new_password.len() == 0,
    ensures
        settings_taken(state, drawn, clock).0.config.cloudflare_api_token_encrypted
            == state.config.cloudflare_api_token_encrypted,
{
}

/// Settings with nothing but blanks for the Cloudflare secret remove the stored one,
/// where they are saved.
pub proof fn law_blanks_remove_the_token(state: AppView, drawn: DrawnView, clock: ClockReading)
    requires
        state.settings.cloudflare_token.len() > 0,
        trim(state.settings.cloudflare_token).len() == 0,
        settings_taken(state, drawn, clock).1,
    ensures
        settings_taken(state, drawn, clock).0.config.cloudflare_api_token_encrypted is None,
{
}

/// A Cloudflare secret that is kept through a change of the master password opens
/// to the same text under the new one.
pub proof fn law_a_kept_token_survives_a_new_password(
    state: AppView,
    drawn: DrawnView,
    clock: ClockReading,
    text: Seq<char>,
)
    requires
        state.settings.cloudflare_token.len() == 0,
        state.settings.new_password.len() > 0,
        !passwords_differ(state.settings),
        drawn_for(state, drawn),
        opened_secret(
            state.config,
            state.config.cloudflare_api_token_encrypted,
            state.master_password,
        ) == Some(text),
        encode_utf8(text).len() <= MAX_PLAIN,
    ensures
        ({
            let next = settings_taken(state, drawn, clock).0;
            opened_secret(
                next.config,
                next.config.cloudflare_api_token_encrypted,
                next.master_password,
            ) == Some(text)
        }),
{
}

/// The secrets of tasks are under the same password and salt as the others: where
/// one opened before the master password was changed, it opens to the same text
/// under the new one. Nothing else of a task changes.
pub proof fn law_task_secrets_survive_a_new_password(
    state: AppView,
    drawn: DrawnView,
    clock: ClockReading,
    i: int,
    text: Seq<char>,
)
    requires
        0 <= i < state.tasks.len(),
        state.settings.new_password.len() > 0,
        !passwords_differ(state.settings),
        drawn_for(state, drawn),
        encode_utf8(text).len() <= MAX_PLAIN,
    ensures
        ({
            let next = settings_taken(state, drawn, clock).0;
            let before = sealed_secrets(state.tasks[i].task_type);
            let after = sealed_secrets(next.tasks[i].task_type);
            &&& next.tasks.len() == state.tasks.len()
            &&& opened_secret(state.config, before.0, state.master_password) == Some(text)
                ==> opened_secret(next.config, after.0, next.master_password) == Some(text)
            &&& opened_secret(state.config, before.1, state.master_password) == Some(text)
                ==> opened_secret(next.config, after.1, next.master_password) == Some(text)
            &&& next.tasks[i] == TaskView {
                task_type: with_secrets(
                    state.tasks[i].task_type,
                    plain_secrets(state.tasks[i].task_type),
                    after,
                ),
                ..state.tasks[i]
            }
        }),
{
    assert(drawn.task_secrets[i] == pair_at(drawn.task_secrets, i));
}

/// No secret of a task is dropped in silence: where one was entered and there is
/// no master password to seal it under, the application says so.
pub proof fn law_task_secrets_need_a_master_password(
    state: AppView,
    task: TaskView,
    hash: Option<Seq<char>>,
    token: Option<Seq<u8>>,
    email: Option<Seq<u8>>,
)
    requires
        state.editing_task == Some(task),
        !can_seal(state),
        is_entered(plain_secrets(task.task_type).0) || is_entered(
            plain_secrets(task.task_type).1,
        ),
    ensures
        task_kept(state, hash, token, email).password_error.len() > 0,
{
    reveal_strlit("A master password is required to encrypt credentials. Set one in Settings.");
}

/// A secret of a task that was kept is shown again when the task is edited.
pub proof fn law_kept_secrets_are_shown_again(
    state: AppView,
    task: TaskView,
    hash: Option<Seq<char>>,
    token: Option<Seq<u8>>,
    email: Option<Seq<u8>>,
    text: Seq<char>,
)
    requires
        can_seal(state),
        task.task_type is CloudflareDnsUpdate || task.task_type is CloudflareIpListUpdate,
        text.len() > 0,
        encode_utf8(text).len() <= MAX_PLAIN,
        sealed_for(state, plain_secrets(task.task_type).0, token),
        sealed_for(state, plain_secrets(task.task_type).1, email),
    ensures
        ({
            let kept = TaskView {
                task_type: as_kept(state, task.task_type, hash, token, email),
                ..task
            };
            let shown = plain_secrets(as_edited(state, kept).task_type);
            &&& plain_secrets(kept.task_type) == (None::<Seq<char>>, None::<Seq<char>>)
            &&& plain_secrets(task.task_type).0 == Some(text) ==> shown.0 == Some(text)
            &&& plain_secrets(task.task_type).1 == Some(text) ==> shown.1 == Some(text)
        }),
{
}

/// Whether no two tasks have the same identifier.
pub open spec fn distinct_ids(tasks: Seq<TaskView>) -> bool {
    forall|i: int, j: int| 0 <= i < j < tasks.len() ==> tasks[i].id != tasks[j].id
}

/// Keeping a task never gives two tasks the same identifier: it replaces the one
/// that has it, or comes behind the others.
pub proof fn law_identifiers_stay_distinct(tasks: Seq<TaskView>, task: TaskView)
    requires
        distinct_ids(tasks),
    ensures
        distinct_ids(with_task(tasks, task)),
        with_task(tasks, task).len() <= tasks.len() + 1,
{
    lemma_find_task(tasks, task.id, 0);
}

/// The service tells of runs only: what it says changes no task but in its last
/// run, and neither adds nor removes one.
pub proof fn law_status_changes_runs_only(
    tasks: Seq<TaskView>,
    others: Seq<TaskView>,
    i: int,
)
    requires
        0 <= i < tasks.len(),
    ensures
        merged(tasks, others).len() == tasks.len(),
        with_run_of(merged(tasks, others)[i], tasks[i]) == tasks[i],
    decreases others.len(),
{
    if others.len() > 0 {
        law_status_changes_runs_only(tasks, others.drop_last(), i);
        lemma_find_task(merged(tasks, others.drop_last()), others.last().id, 0);
    }
}

/// However much is logged, no more than two thousand lines are shown.
pub proof fn law_shown_lines_are_bounded(state: AppView, content: Seq<char>)
    ensures
        log_read(state, content).log_lines.len() <= SHOWN_LINES,
{
}

/// A message is shown as the last line, with the time in square brackets before it. The
/// lines before it stay, but for the oldest one where two thousand are shown already.
pub proof fn law_messages_are_shown(state: AppView, clock: ClockReading, message: Seq<char>)
    ensures
        ({
            let next = logged(state, clock, message);
            let line = "["@ + stamp(clock) + "] "@ + message;
            &&& state.log_lines.len() < 2000 ==> next.log_lines == state.log_lines.push(line)
            &&& state.log_lines.len() >= 2000 ==> next.log_lines == state.log_lines.skip(1).push(
                line,
            )
            &&& next == (AppView { log_lines: next.log_lines, ..state })
        }),
{
    let line = "["@ + stamp(clock) + "] "@ + message;
    if state.log_lines.len() >= 2000 {
        assert(state.log_lines.push(line).skip(1) =~= state.log_lines.skip(1).push(line));
    }
}

/// A line is new if it is neither known already nor stands before in the list; the new
/// lines come in the order of the list.
pub proof fn law_lines_are_taken_once(
    known: Seq<Seq<char>>,
    list: Seq<Seq<char>>,
    line: Seq<char>,
)
    ensures
        fresh(known, Seq::empty()).len() == 0,
        known.contains(line) || list.contains(line) ==> fresh(known, list.push(line)) == fresh(
            known,
            list,
        ),
        !known.contains(line) && !list.contains(line) ==> fresh(known, list.push(line)) == fresh(
            known,
            list,
        ).push(line),
{
    assert(list.push(line).drop_last() =~= list);
    lemma_fresh_lines(known, list, line);
    let before = fresh(known, list);
    let all = known + before;
    if known.contains(line) {
        let i = choose|i: int| 0 <= i < known.len() && known[i] == line;
        assert(all[i] == line);
    }
    if before.contains(line) {
        let i = choose|i: int| 0 <= i < before.len() && before[i] == line;
        assert(all[known.len() + i] == line);
    }
    if all.contains(line) {
        let i = choose|i: int| 0 <= i < all.len() && all[i] == line;
        if i < known.len() {
            assert(known[i] == line);
        } else {
            assert(before[i - known.len()] == line);
        }
    }
}

/// The new lines are those of the list that are not known.
proof fn lemma_fresh_lines(known: Seq<Seq<char>>, list: Seq<Seq<char>>, line: Seq<char>)
    ensures
        fresh(known, list).contains(line) <==> list.contains(line) && !known.contains(line),
    decreases list.len(),
{
    if list.len() > 0 {
        let front = list.drop_last();
        let before = fresh(known, front);
        let all = fresh(known, list);
        let last = list.last();
        lemma_fresh_lines(known, front, line);
        lemma_fresh_lines(known, front, last);
        assert(list[list.len() - 1] == last);
        if front.contains(line) {
            let i = choose|i: int| 0 <= i < front.len() && front[i] == line;
            assert(list[i] == line);
        }
        if list.contains(line) && line != last {
            let i = choose|i: int| 0 <= i < list.len() && list[i] == line;
            assert(front[i] == line);
        }
        if known.contains(last) {
            let i = choose|i: int| 0 <= i < known.len() && known[i] == last;
            assert((known + before)[i] == last);
        }
        if before.contains(last) {
            let i = choose|i: int| 0 <= i < before.len() && before[i] == last;
            assert((known + before)[known.len() + i] == last);
        }
        if (known + before).contains(last) {
            let i = choose|i: int| 0 <= i < (known + before).len() && (known + before)[i] == last;
            if i < known.len() {
                assert(known[i] == last);
            } else {
                assert(before[i - known.len()] == last);
            }
        } else {
            assert(all[before.len() as int] == last);
            if before.contains(line) {
                let i = choose|i: int| 0 <= i < before.len() && before[i] == line;
                assert(all[i] == line);
            }
            if all.contains(line) {
                let i = choose|i: int| 0 <= i < all.len() && all[i] == line;
                if i < before.len() {
                    assert(before[i] == line);
                }
            }
        }
    }
}

/// The new lines of the log file are shown behind the others, and known from then on. No
/// more than the last two thousand are shown. Where more than five thousand would be
/// known, those that are shown are.
pub proof fn law_the_log_file_is_followed(state: AppView, content: Seq<char>)
    ensures
        ({
            let next = log_read(state, content);
            let new = fresh(state.known_log_lines, lines(content));
            let all = state.log_lines + new;
            &&& all.len() <= 2000 ==> next.log_lines == all
            &&& all.len() > 2000 ==> next.log_lines == all.subrange(
                all.len() - 2000,
                all.len() as int,
            )
            &&& state.known_log_lines.len() + new.len() <= 5000 ==> next.known_log_lines
                == state.known_log_lines + new
            &&& state.known_log_lines.len() + new.len() > 5000 ==> forall|line: Seq<char>|
                #[trigger] next.known_log_lines.contains(line) <==> next.log_lines.contains(line)
            &&& next == (AppView {
                log_lines: next.log_lines,
                known_log_lines: next.known_log_lines,
                ..state
            })
        }),
{
    let next = log_read(state, content);
    let new = fresh(state.known_log_lines, lines(content));
    let all = state.log_lines + new;
    if all.len() > 2000 {
        assert(all.skip(all.len() - 2000) =~= all.subrange(all.len() - 2000, all.len() as int));
    }
    if state.known_log_lines.len() + new.len() > 5000 {
        assert forall|line: Seq<char>| #[trigger]
            next.known_log_lines.contains(line) <==> next.log_lines.contains(line) by {
            lemma_fresh_lines(Seq::empty(), next.log_lines, line);
        }
    }
}

/// An application that starts has the tasks of its configuration. With a password it asks
/// for it, and without one it shows the settings, where nothing is written but the port.
pub proof fn law_applications_start(config: ConfigView, clock: ClockReading)
    ensures
        ({
            let a = started_app(config, clock);
            let locked = config.password_verifier is Some;
            &&& a.tasks == config.tasks && a.config == config
            &&& a.password_verified == !locked
            &&& a.show_settings == !locked
            &&& a.show_password_prompt == locked
            &&& !a.show_logs
            &&& a.master_password.len() == 0 && a.password_input.len() == 0
            &&& a.password_error.len() == 0
            &&& a.service_status == "Service: Unknown"@
            &&& a.selected_task_idx is None && a.editing_task is None
            &&& a.last_status_mtime is None && a.known_log_lines.len() == 0
            &&& config.smtp_port == 0 ==> a.settings.smtp_port == "25"@
            &&& config.smtp_port > 0 ==> a.settings.smtp_port == decimal(config.smtp_port as nat)
            &&& a.settings.app_token.len() == 0 && a.settings.user_key.len() == 0
            &&& a.settings.cloudflare_token.len() == 0 && a.settings.cloudflare_email.len() == 0
            &&& a.settings.cloudflare_zone_id.len() == 0
            &&& a.settings.cloudflare_record_name.len() == 0
            &&& a.settings.new_password.len() == 0 && a.settings.confirm_password.len() == 0
            &&& a.log_lines.len() == (if locked {
                1int
            } else {
                2int
            })
            &&& a.log_lines[0] == "["@ + stamp(clock) + "] GUI started"@
        }),
{
    reveal_strlit("] ");
    reveal_strlit("GUI started");
    reveal_strlit("] GUI started");
    let front = "["@ + stamp(clock);
    assert(front + "] "@ + "GUI started"@ =~= front + "] GUI started"@);
}

/// What the service tells of a run is taken over by the first task with the identifier:
/// when it ran, how it ended, and its error; nothing else changes. What it tells of a task
/// that is not there changes nothing.
pub proof fn law_runs_are_taken_over(tasks: Seq<TaskView>, other: TaskView, i: int)
    ensures
        (0 <= i < tasks.len() && tasks[i].id == other.id && (forall|k: int|
            0 <= k < i ==> (#[trigger] tasks[k]).id != other.id)) ==> merged(tasks, seq![other])
            == tasks.update(
            i,
            TaskView {
                last_run: other.last_run,
                last_result: other.last_result,
                last_error: other.last_error,
                ..tasks[i]
            },
        ),
        (forall|k: int| 0 <= k < tasks.len() ==> (#[trigger] tasks[k]).id != other.id) ==> merged(
            tasks,
            seq![other],
        ) == tasks,
{
    reveal_with_fuel(merged, 2);
    assert(seq![other].drop_last() =~= Seq::<TaskView>::empty());
    lemma_find_task(tasks, other.id, 0);
    if 0 <= i < tasks.len() && tasks[i].id == other.id && (forall|k: int|
        0 <= k < i ==> (#[trigger] tasks[k]).id != other.id) {
        lemma_task_at(tasks, other.id, 0, i);
    }
}

/// The first task with an identifier is the one that is found.
proof fn lemma_task_at(tasks: Seq<TaskView>, id: u128, from: int, i: int)
    requires
        0 <= from <= i < tasks.len(),
        tasks[i].id == id,
        forall|k: int| from <= k < i ==> (#[trigger] tasks[k]).id != id,
    ensures
        find_task(tasks, id, from) == Some(i),
    decreases i - from,
{
    if from < i {
        lemma_task_at(tasks, id, from + 1, i);
    }
}

/// What the service tells is taken over one run after the other.
pub proof fn law_runs_are_taken_over_in_order(
    tasks: Seq<TaskView>,
    others: Seq<TaskView>,
    other: TaskView,
)
    ensures
        merged(tasks, Seq::empty()) == tasks,
        merged(tasks, others.push(other)) == merged(merged(tasks, others), seq![other]),
{
    reveal_with_fuel(merged, 2);
    assert(others.push(other).drop_last() =~= others);
    assert(seq![other].drop_last() =~= Seq::<TaskView>::empty());
}

/// The service runs if and only if its process does, or it has told of itself within the
/// last ten seconds.
pub proof fn law_the_service_is_seen(process: ServiceProcess, secs: u64)
    ensures
        service_runs(process, Some(secs)) <==> (process == ServiceProcess::Running || secs < 10),
        service_runs(process, None) <==> process == ServiceProcess::Running,
{
}

/// A configuration is saved with the tasks as they are now, and with the public address
/// that is stored, so that none that the service has found since is lost. All else is what
/// the application has.
pub proof fn law_configurations_are_saved(state: AppView, latest: ConfigView)
    ensures
        ({
            let c = config_to_save(state, latest);
            &&& c.tasks == state.tasks
            &&& latest.public_ip is Some ==> c.public_ip == latest.public_ip
            &&& latest.public_ip is None ==> c.public_ip == state.config.public_ip
            &&& c == (ConfigView { tasks: c.tasks, public_ip: c.public_ip, ..state.config })
        }),
{
}

/// A configuration that was saved is the one of the application from then on; one that was
/// not leaves it as it is, and the log says why.
pub proof fn law_saving_is_told(
    state: AppView,
    config: ConfigView,
    e: String,
    clock: ClockReading,
)
    ensures
        ({
            let saved = after_save(state, config, Ok(()), clock);
            let failed = after_save(state, config, Err(e), clock);
            &&& saved.config == config
            &&& saved == (AppView { config, log_lines: saved.log_lines, ..state })
            &&& saved.log_lines.len() > 0
            &&& failed == (AppView { log_lines: failed.log_lines, ..state })
            &&& failed.log_lines.len() > 0 && failed.log_lines.last() == "["@ + stamp(clock) + "] "@
                + ("Failed to save config: "@ + e@)
            &&& saved.log_lines.last() == "["@ + stamp(clock) + "] "@ + ("Config saved. token="@ + (
            if config.cloudflare_api_token_encrypted is Some {
                "true"@
            } else {
                "false"@
            }) + " email="@ + (if config.cloudflare_api_email_encrypted is Some {
                "true"@
            } else {
                "false"@
            }) + " zone='"@ + config.cloudflare_default_zone_id + "' record='"@
                + config.cloudflare_default_record_name + "'"@)
        }),
{
}

/// The window asks for the password, and shows nothing else, exactly while it is to be
/// entered. Otherwise its middle shows the task that is edited, or the one that is
/// selected, or a hint.
pub proof fn law_the_window_shows(state: AppView)
    ensures
        state.show_password_prompt <==> frame_of(state) == Frame::Prompt,
        !state.show_password_prompt ==> (frame_of(state) matches Frame::Main {
            center,
            settings,
            logs,
        } && settings == state.show_settings && logs == state.show_logs && (
        state.editing_task is Some ==> center == Center::Editor) && (state.editing_task is None
            && state.selected_task_idx is None ==> center == Center::Hint) && (
        state.editing_task is None && state.selected_task_idx is Some ==> center == if (
        state.selected_task_idx->0 as int) < state.tasks.len() {
            Center::Task(state.selected_task_idx->0)
        } else {
            Center::Nothing
        })),
{
}

/// A password that the verifier confirms opens the application, and the secrets that it
/// opens are shown in the settings: the two of Pushover together, those of Cloudflare each
/// by itself. Another one changes nothing but the word that it is wrong.
pub proof fn law_passwords_are_tried(state: AppView, verifier: Seq<u8>, salt: Seq<u8>)
    requires
        state.config.password_verifier == Some(verifier),
        state.config.password_salt == Some(salt),
    ensures
        ({
            let next = password_tried(state);
            let input = state.password_input;
            let right = decrypted(verifier, input, salt) == Ok::<Seq<char>, Seq<char>>(
                "TASK_MANAGER_VERIFIED"@,
            );
            &&& !right ==> next == (AppView { password_error: "Invalid password"@, ..state })
            &&& right ==> {
                &&& next.master_password == input && next.password_verified
                &&& !next.show_password_prompt && next.password_error.len() == 0
                &&& next.tasks == state.tasks && next.config == state.config
                &&& next.password_input == state.password_input
                &&& next.settings.smtp_port == state.settings.smtp_port
                &&& next.settings.new_password == state.settings.new_password
                &&& next.settings.cloudflare_zone_id == state.settings.cloudflare_zone_id
                &&& next.settings.cloudflare_record_name == state.settings.cloudflare_record_name
                &&& state.config.cloudflare_api_token_encrypted matches Some(bytes) ==> (decrypted(
                    bytes,
                    input,
                    salt,
                ) matches Ok(text) ==> next.settings.cloudflare_token == text)
                &&& state.config.cloudflare_api_token_encrypted is None
                    ==> next.settings.cloudflare_token == state.settings.cloudflare_token
                &&& state.config.cloudflare_api_email_encrypted matches Some(bytes) ==> (decrypted(
                    bytes,
                    input,
                    salt,
                ) matches Ok(text) ==> next.settings.cloudflare_email == text)
                &&& state.config.cloudflare_api_email_encrypted is None
                    ==> next.settings.cloudflare_email == state.settings.cloudflare_email
                &&& state.config.pushover_app_token_encrypted is None
                    || state.config.pushover_user_key_encrypted is None ==> next.settings.app_token
                    == state.settings.app_token && next.settings.user_key
                    == state.settings.user_key
            }
        }),
{
}

/// The two secrets of Pushover that a password opens are shown in their fields.
pub proof fn law_opened_pushover_is_shown(
    state: AppView,
    verifier: Seq<u8>,
    salt: Seq<u8>,
    app: Seq<u8>,
    user: Seq<u8>,
    token: Seq<char>,
    key: Seq<char>,
)
    requires
        state.config.password_verifier == Some(verifier),
        state.config.password_salt == Some(salt),
        decrypted(verifier, state.password_input, salt) == Ok::<Seq<char>, Seq<char>>(
            "TASK_MANAGER_VERIFIED"@,
        ),
        state.config.pushover_app_token_encrypted == Some(app),
        state.config.pushover_user_key_encrypted == Some(user),
        decrypted(app, state.password_input, salt) == Ok::<Seq<char>, Seq<char>>(token),
        decrypted(user, state.password_input, salt) == Ok::<Seq<char>, Seq<char>>(key),
    ensures
        password_tried(state).settings.app_token == token,
        password_tried(state).settings.user_key == key,
{
}

/// Settings are saved if and only if no two different passwords were entered, and there is
/// a master password, old or new, or no secret was entered.
pub proof fn law_settings_are_saved_when_they_can_be(
    state: AppView,
    drawn: DrawnView,
    clock: ClockReading,
)
    ensures
        ({
            let form = state.settings;
            let (next, saves) = settings_taken(state, drawn, clock);
            let secret = form.app_token.len() > 0 || form.user_key.len() > 0
                || form.cloudflare_token.len() > 0 || form.cloudflare_email.len() > 0;
            let locked = state.config.password_verifier is Some || (form.new_password.len() > 0
                && drawn.verifier is Some);
            let differ = form.new_password.len() > 0 && form.new_password != form.confirm_password;
            &&& saves <==> !differ && (!secret || locked)
            &&& differ ==> next.password_error == "Passwords do not match"@
            &&& !differ && !saves ==> next.password_error
                == "A master password is required to encrypt credentials. Set one in the Master Password section below."@
            &&& saves ==> next.password_error.len() == 0 && !next.show_settings
            &&& !saves ==> next.show_settings == state.show_settings
        }),
{
}

/// Settings that are saved are those that were entered: the port where it is one, and the
/// defaults without the blanks around them. What was not entered stays.
pub proof fn law_settings_are_those_entered(
    state: AppView,
    drawn: DrawnView,
    clock: ClockReading,
    port: u16,
)
    requires
        settings_taken(state, drawn, clock).1,
    ensures
        ({
            let form = state.settings;
            let next = settings_taken(state, drawn, clock).0;
            &&& form.smtp_port == decimal(port as nat) ==> next.config.smtp_port == port
            &&& parse_unsigned(form.smtp_port, u16::MAX as nat) is None ==> next.config.smtp_port
                == state.config.smtp_port
            &&& next.config.cloudflare_default_zone_id == trim(form.cloudflare_zone_id)
            &&& next.config.cloudflare_default_record_name == trim(form.cloudflare_record_name)
            &&& next.config.public_ip == state.config.public_ip
            &&& next.config.tasks == state.config.tasks
            &&& next.config.cloudflare_default_proxied == state.config.cloudflare_default_proxied
            &&& next.config.cloudflare_default_ttl == state.config.cloudflare_default_ttl
            &&& form.new_password.len() == 0 ==> next.tasks == state.tasks && next.master_password
                == state.master_password && next.password_verified == state.password_verified
                && next.config.password_verifier == state.config.password_verifier
                && next.config.password_salt == state.config.password_salt
            &&& form.new_password.len() > 0 && drawn.verifier is Some ==> next.master_password
                == form.new_password && next.password_verified && next.config.password_verifier
                == drawn.verifier && next.config.password_salt == Some(drawn.salt)
                && next.settings.new_password.len() == 0 && next.settings.confirm_password.len()
                == 0
            &&& form.app_token.len() == 0 || form.user_key.len() == 0
                ==> next.config.pushover_app_token_encrypted
                == state.config.pushover_app_token_encrypted
                && next.config.pushover_user_key_encrypted
                == state.config.pushover_user_key_encrypted
            &&& (forall|i: int|
                0 <= i < form.cloudflare_email.len() ==> is_space(
                    #[trigger] form.cloudflare_email[i],
                )) ==> next.config.cloudflare_api_email_encrypted is None
        }),
{
    let form = state.settings;
    law_decimal_reads_back(port as nat, u16::MAX as nat);
    let (a, b) = law_trim_takes_blanks(form.cloudflare_email);
    if forall|i: int|
        0 <= i < form.cloudflare_email.len() ==> is_space(#[trigger] form.cloudflare_email[i]) {
        if a < b {
            assert(is_space(form.cloudflare_email[a]));
        }
    }
}

/// A task that is kept takes the place of the first with its identifier, or stands behind
/// all others; no other task changes, and nothing is edited any more.
pub proof fn law_edited_tasks_are_kept(
    state: AppView,
    task: TaskView,
    hash: Option<Seq<char>>,
    token: Option<Seq<u8>>,
    email: Option<Seq<u8>>,
    i: int,
)
    requires
        state.editing_task == Some(task),
    ensures
        ({
            let next = task_kept(state, hash, token, email);
            &&& next.editing_task is None
            &&& next.config == state.config && next.master_password == state.master_password
            &&& (0 <= i < state.tasks.len() && state.tasks[i].id == task.id && (forall|k: int|
                0 <= k < i ==> (#[trigger] state.tasks[k]).id != task.id)) ==> next.tasks.len()
                == state.tasks.len() && next.tasks[i] == (TaskView {
                task_type: next.tasks[i].task_type,
                ..task
            }) && next.tasks == state.tasks.update(i, next.tasks[i])
            &&& (forall|k: int|
                0 <= k < state.tasks.len() ==> (#[trigger] state.tasks[k]).id != task.id)
                ==> next.tasks.len() == state.tasks.len() + 1 && next.tasks.last() == (TaskView {
                task_type: next.tasks.last().task_type,
                ..task
            }) && next.tasks.drop_last() == state.tasks
        }),
{
    let next = task_kept(state, hash, token, email);
    lemma_find_task(state.tasks, task.id, 0);
    if 0 <= i < state.tasks.len() && state.tasks[i].id == task.id && (forall|k: int|
        0 <= k < i ==> (#[trigger] state.tasks[k]).id != task.id) {
        lemma_task_at(state.tasks, task.id, 0, i);
    }
    if forall|k: int| 0 <= k < state.tasks.len() ==> (#[trigger] state.tasks[k]).id != task.id {
        assert(next.tasks.drop_last() =~= state.tasks);
    }
}

/// What a task does is kept as it was edited. A task that watches a file is held against
/// the hash that the file has now. Secrets are kept sealed only, and where they can be
/// sealed: a new one in the place of the old one, none where the field is empty.
pub proof fn law_edited_actions_are_kept(
    state: AppView,
    action: TaskTypeView,
    hash: Option<Seq<char>>,
    token: Option<Seq<u8>>,
    email: Option<Seq<u8>>,
)
    ensures
        ({
            let kept = as_kept(state, action, hash, token, email);
            let sealing = state.password_verified && state.master_password.len() > 0
                && state.config.password_salt is Some;
            &&& action is HttpGet || action is HttpPost || action is Command || action is PathCheck
                || action is Ntfy || action is GetPublicIp ==> kept == action
            &&& action matches TaskTypeView::FileChanged { file_path, .. } ==> (kept matches
                TaskTypeView::FileChanged { file_path: f, baseline_hash: b } && f == file_path && b
                == hash)
            &&& action is CloudflareDnsUpdate ==> {
                &&& kept is CloudflareDnsUpdate
                &&& kept->CloudflareDnsUpdate_zone_id == action->CloudflareDnsUpdate_zone_id
                &&& kept->CloudflareDnsUpdate_record_name == action->CloudflareDnsUpdate_record_name
                &&& kept->CloudflareDnsUpdate_record_type == action->CloudflareDnsUpdate_record_type
                &&& kept->CloudflareDnsUpdate_record_id == action->CloudflareDnsUpdate_record_id
                &&& kept->CloudflareDnsUpdate_content == action->CloudflareDnsUpdate_content
                &&& kept->CloudflareDnsUpdate_proxied == action->CloudflareDnsUpdate_proxied
                &&& kept->CloudflareDnsUpdate_ttl == action->CloudflareDnsUpdate_ttl
                &&& kept->CloudflareDnsUpdate_api_token_plain is None
                &&& kept->CloudflareDnsUpdate_api_email_plain is None
                &&& !sealing ==> kept->CloudflareDnsUpdate_api_token_encrypted
                    == action->CloudflareDnsUpdate_api_token_encrypted
                    && kept->CloudflareDnsUpdate_api_email_encrypted
                    == action->CloudflareDnsUpdate_api_email_encrypted
                &&& sealing ==> is_secret_kept(
                    action->CloudflareDnsUpdate_api_token_plain,
                    action->CloudflareDnsUpdate_api_token_encrypted,
                    token,
                    kept->CloudflareDnsUpdate_api_token_encrypted,
                ) && is_secret_kept(
                    action->CloudflareDnsUpdate_api_email_plain,
                    action->CloudflareDnsUpdate_api_email_encrypted,
                    email,
                    kept->CloudflareDnsUpdate_api_email_encrypted,
                )
            }
            &&& action is CloudflareIpListUpdate ==> {
                &&& kept is CloudflareIpListUpdate
                &&& kept->CloudflareIpListUpdate_account_id
                    == action->CloudflareIpListUpdate_account_id
                &&& kept->CloudflareIpListUpdate_list_id == action->CloudflareIpListUpdate_list_id
                &&& kept->CloudflareIpListUpdate_list_name
                    == action->CloudflareIpListUpdate_list_name
                &&& kept->CloudflareIpListUpdate_ip == action->CloudflareIpListUpdate_ip
                &&& kept->CloudflareIpListUpdate_comment == action->CloudflareIpListUpdate_comment
                &&& kept->CloudflareIpListUpdate_action == action->CloudflareIpListUpdate_action
                &&& kept->CloudflareIpListUpdate_api_token_plain is None
                &&& kept->CloudflareIpListUpdate_api_email_plain is None
                &&& !sealing ==> kept->CloudflareIpListUpdate_api_token_encrypted
                    == action->CloudflareIpListUpdate_api_token_encrypted
                    && kept->CloudflareIpListUpdate_api_email_encrypted
                    == action->CloudflareIpListUpdate_api_email_encrypted
                &&& sealing ==> is_secret_kept(
                    action->CloudflareIpListUpdate_api_token_plain,
                    action->CloudflareIpListUpdate_api_token_encrypted,
                    token,
                    kept->CloudflareIpListUpdate_api_token_encrypted,
                ) && is_secret_kept(
                    action->CloudflareIpListUpdate_api_email_plain,
                    action->CloudflareIpListUpdate_api_email_encrypted,
                    email,
                    kept->CloudflareIpListUpdate_api_email_encrypted,
                )
            }
        }),
{
}

/// Whether a sealed secret is what editing leaves: the old one where nothing was entered,
/// none where the field was emptied, and the new one otherwise.
pub open spec fn is_secret_kept(
    plain: Option<Seq<char>>,
    sealed: Option<Seq<u8>>,
    new: Option<Seq<u8>>,
    kept: Option<Seq<u8>>,
) -> bool {
    &&& plain is None ==> kept == sealed
    &&& plain matches Some(text) ==> {
        &&& text.len() == 0 ==> kept is None
        &&& text.len() > 0 && new is Some ==> kept == new
        &&& text.len() > 0 && new is None ==> kept == sealed
    }
}

/// A task is edited as it is; where the password is known, its secrets are opened for it
/// and stay sealed beside that.
pub proof fn law_tasks_are_opened_for_editing(state: AppView, task: TaskView, salt: Seq<u8>)
    requires
        state.config.password_salt == Some(salt),
        state.password_verified,
    ensures
        ({
            let shown = as_edited(state, task);
            let password = state.master_password;
            &&& shown == (TaskView { task_type: shown.task_type, ..task })
            &&& !(task.task_type is CloudflareDnsUpdate) && !(
            task.task_type is CloudflareIpListUpdate) ==> shown == task
            &&& task.task_type is CloudflareDnsUpdate ==> {
                let a = task.task_type;
                let b = shown.task_type;
                &&& b is CloudflareDnsUpdate
                &&& b->CloudflareDnsUpdate_zone_id == a->CloudflareDnsUpdate_zone_id
                &&& b->CloudflareDnsUpdate_content == a->CloudflareDnsUpdate_content
                &&& b->CloudflareDnsUpdate_api_token_encrypted
                    == a->CloudflareDnsUpdate_api_token_encrypted
                &&& b->CloudflareDnsUpdate_api_email_encrypted
                    == a->CloudflareDnsUpdate_api_email_encrypted
                &&& a->CloudflareDnsUpdate_api_token_encrypted matches Some(bytes) ==> (decrypted(
                    bytes,
                    password,
                    salt,
                ) matches Ok(text) ==> b->CloudflareDnsUpdate_api_token_plain == Some(text))
                &&& a->CloudflareDnsUpdate_api_email_encrypted matches Some(bytes) ==> (decrypted(
                    bytes,
                    password,
                    salt,
                ) matches Ok(text) ==> b->CloudflareDnsUpdate_api_email_plain == Some(text))
            }
            &&& task.task_type is CloudflareIpListUpdate ==> {
                let a = task.task_type;
                let b = shown.task_type;
                &&& b is CloudflareIpListUpdate
                &&& b->CloudflareIpListUpdate_ip == a->CloudflareIpListUpdate_ip
                &&& b->CloudflareIpListUpdate_api_token_encrypted
                    == a->CloudflareIpListUpdate_api_token_encrypted
                &&& b->CloudflareIpListUpdate_api_email_encrypted
                    == a->CloudflareIpListUpdate_api_email_encrypted
                &&& a->CloudflareIpListUpdate_api_token_encrypted matches Some(bytes) ==> (decrypted(
                    bytes,
                    password,
                    salt,
                ) matches Ok(text) ==> b->CloudflareIpListUpdate_api_token_plain == Some(text))
                &&& a->CloudflareIpListUpdate_api_email_encrypted matches Some(bytes) ==> (decrypted(
                    bytes,
                    password,
                    salt,
                ) matches Ok(text) ==> b->CloudflareIpListUpdate_api_email_plain == Some(text))
            }
        }),
{
}

/// What is drawn for settings is sealed under the new password with the new salt where one
/// was entered, and under the old ones otherwise.
pub proof fn law_settings_are_sealed_under_the_password(state: AppView, drawn: DrawnView)
    requires
        drawn_for(state, drawn),
    ensures
        ({
            let form = state.settings;
            let password = if form.new_password.len() > 0 {
                form.new_password
            } else {
                state.master_password
            };
            let salt = if form.new_password.len() > 0 {
                Some(drawn.salt)
            } else {
                state.config.password_salt
            };
            &&& form.new_password.len() > 0 ==> (drawn.verifier matches Some(v) && decrypted(
                v,
                form.new_password,
                drawn.salt,
            ) == Ok::<Seq<char>, Seq<char>>("TASK_MANAGER_VERIFIED"@))
            &&& salt matches Some(s) ==> {
                &&& form.app_token.len() > 0 ==> (drawn.app_token matches Some(b) ==> decrypted(
                    b,
                    password,
                    s,
                ) == Ok::<Seq<char>, Seq<char>>(form.app_token))
                &&& form.user_key.len() > 0 ==> (drawn.user_key matches Some(b) ==> decrypted(
                    b,
                    password,
                    s,
                ) == Ok::<Seq<char>, Seq<char>>(form.user_key))
                &&& trim(form.cloudflare_token).len() > 0 ==> (drawn.cloudflare_token matches Ok(b)
                    ==> decrypted(b, password, s) == Ok::<Seq<char>, Seq<char>>(
                    trim(form.cloudflare_token),
                ))
                &&& trim(form.cloudflare_email).len() > 0 ==> (drawn.cloudflare_email matches Some(b)
                    ==> decrypted(b, password, s) == Ok::<Seq<char>, Seq<char>>(
                    trim(form.cloudflare_email),
                ))
            }
        }),
{
}

/// The secrets of a task that could not be sealed under a new password stay as they were,
/// each in its place; those that could take the place of the old ones.
pub proof fn law_secrets_stay_in_their_place(
    state: AppView,
    drawn: DrawnView,
    clock: ClockReading,
    i: int,
)
    requires
        0 <= i < state.tasks.len(),
        drawn.task_secrets.len() == state.tasks.len(),
        state.settings.new_password.len() > 0,
        drawn.verifier is Some,
        settings_taken(state, drawn, clock).1,
    ensures
        ({
            let a = state.tasks[i].task_type;
            let next = settings_taken(state, drawn, clock).0;
            let b = next.tasks[i].task_type;
            let new = drawn.task_secrets[i];
            &&& next.tasks.len() == state.tasks.len()
            &&& next.tasks[i] == (TaskView { task_type: b, ..state.tasks[i] })
            &&& a is CloudflareDnsUpdate ==> b is CloudflareDnsUpdate && (
            b->CloudflareDnsUpdate_api_token_encrypted == if new.0 is Some {
                new.0
            } else {
                a->CloudflareDnsUpdate_api_token_encrypted
            }) && (b->CloudflareDnsUpdate_api_email_encrypted == if new.1 is Some {
                new.1
            } else {
                a->CloudflareDnsUpdate_api_email_encrypted
            })
            &&& a is CloudflareIpListUpdate ==> b is CloudflareIpListUpdate && (
            b->CloudflareIpListUpdate_api_token_encrypted == if new.0 is Some {
                new.0
            } else {
                a->CloudflareIpListUpdate_api_token_encrypted
            }) && (b->CloudflareIpListUpdate_api_email_encrypted == if new.1 is Some {
                new.1
            } else {
                a->CloudflareIpListUpdate_api_email_encrypted
            })
            &&& !(a is CloudflareDnsUpdate) && !(a is CloudflareIpListUpdate) ==> b == a
        }),
{
}

/// What the log says while settings are saved: what became of the Cloudflare secret that
/// was entered, and at the end what is stored.
pub proof fn law_the_log_tells_of_settings(
    state: AppView,
    drawn: DrawnView,
    clock: ClockReading,
)
    requires
        state.log_lines.len() < 1000,
        settings_taken(state, drawn, clock).1,
    ensures
        ({
            let next = settings_taken(state, drawn, clock).0;
            let stamp_of = "["@ + stamp(clock) + "] "@;
            let entered = state.settings.cloudflare_token;
            let salted = state.config.password_salt is Some || (state.settings.new_password.len()
                > 0 && drawn.verifier is Some);
            let n = state.log_lines.len() as int;
            &&& next.log_lines.last() == stamp_of + ("Settings prepared: zone_id='"@
                + next.config.cloudflare_default_zone_id + "' record_name='"@
                + next.config.cloudflare_default_record_name + "' token_present="@ + (
            if next.config.cloudflare_api_token_encrypted is Some {
                "true"@
            } else {
                "false"@
            }) + " email_present="@ + (if next.config.cloudflare_api_email_encrypted is Some {
                "true"@
            } else {
                "false"@
            }))
            &&& next.log_lines.take(n) == state.log_lines
            &&& entered.len() == 0 ==> next.log_lines.len() == n + 1
            &&& entered.len() > 0 ==> next.log_lines.len() == n + 2
            &&& entered.len() > 0 && trim(entered).len() == 0 ==> next.log_lines[n] == stamp_of
                + "Cloudflare token cleared"@
            &&& trim(entered).len() > 0 && !salted ==> next.log_lines[n] == stamp_of
                + "ERROR: Cannot encrypt Cloudflare token — no password salt set"@
            &&& trim(entered).len() > 0 && salted && drawn.cloudflare_token is Ok
                ==> next.log_lines[n] == stamp_of + "Cloudflare token encrypted and stored"@
            &&& trim(entered).len() > 0 && salted ==> (drawn.cloudflare_token matches Err(e)
                ==> next.log_lines[n] == stamp_of + ("ERROR: Failed to encrypt Cloudflare token: "@
                + e))
        }),
{
    let next = settings_taken(state, drawn, clock).0;
    let n = state.log_lines.len() as int;
    assert(next.log_lines.take(n) =~= state.log_lines);
    if state.settings.cloudflare_token.len() == 0 {
        lemma_trim_nothing(state.settings.cloudflare_token);
    }
}

/// What is empty stays empty.
proof fn lemma_trim_nothing(s: Seq<char>)
    requires
        s.len() == 0,
    ensures
        trim(s).len() == 0,
{
    let (a, b) = law_trim_takes_blanks(s);
}

/// A task whose secret was entered and cannot be sealed leaves a word on that; any other
/// leaves the word that is there.
pub proof fn law_missing_passwords_are_told(
    state: AppView,
    task: TaskView,
    hash: Option<Seq<char>>,
    token: Option<Seq<u8>>,
    email: Option<Seq<u8>>,
)
    requires
        state.editing_task == Some(task),
    ensures
        ({
            let next = task_kept(state, hash, token, email);
            let sealing = state.password_verified && state.master_password.len() > 0
                && state.config.password_salt is Some;
            let entered = match task.task_type {
                TaskTypeView::CloudflareDnsUpdate { api_token_plain, api_email_plain, .. } => (
                api_token_plain matches Some(t) && t.len() > 0) || (api_email_plain matches Some(t)
                    && t.len() > 0),
                TaskTypeView::CloudflareIpListUpdate { api_token_plain, api_email_plain, .. } => (
                api_token_plain matches Some(t) && t.len() > 0) || (api_email_plain matches Some(t)
                    && t.len() > 0),
                _ => false,
            };
            &&& entered && !sealing ==> next.password_error
                == "A master password is required to encrypt credentials. Set one in Settings."@
            &&& !(entered && !sealing) ==> next.password_error == state.password_error
        }),
{
}

/// An application without a password says what to do first.
pub proof fn law_first_runs_are_told(config: ConfigView, clock: ClockReading)
    requires
        config.password_verifier is None,
    ensures
        started_app(config, clock).log_lines.last() == "["@ + stamp(clock) + "] "@
            + "First run - please configure settings and start service"@,
{
}

/// A task that is selected is shown in place of one that was edited; a new one is edited
/// with nothing selected. Neither changes a task.
pub proof fn law_tasks_are_selected(state: AppView, idx: usize, id: u128)
    ensures
        task_selected(state, idx).selected_task_idx == Some(idx),
        task_selected(state, idx).editing_task is None,
        task_selected(state, idx).tasks == state.tasks,
        task_selected(state, idx).config == state.config,
        idx < state.tasks.len() && !state.show_password_prompt ==> (frame_of(
            task_selected(state, idx),
        ) matches Frame::Main { center, .. } && center == Center::Task(idx)),
        task_added(state, id).editing_task matches Some(task) && task.id == id && task.enabled,
        task_added(state, id).selected_task_idx is None,
        task_added(state, id).tasks == state.tasks,
        task_added(state, id).config == state.config,
        !state.show_password_prompt ==> (frame_of(task_added(state, id)) matches Frame::Main {
            center,
            ..
        } && center == Center::Editor),
{
}

/// The task that is selected is the one that is edited, with its own identifier and name; no
/// task changes for that. Where none is selected, nothing is edited.
pub proof fn law_the_selected_task_is_edited(state: AppView, idx: usize)
    ensures
        state.selected_task_idx == Some(idx) && idx < state.tasks.len() ==> (task_opened(
            state,
        ).editing_task matches Some(task) && task.id == state.tasks[idx as int].id && task.name
            == state.tasks[idx as int].name && task.trigger == state.tasks[idx as int].trigger)
            && task_opened(state).tasks == state.tasks,
        state.selected_task_idx is None ==> task_opened(state) == state,
        state.selected_task_idx == Some(idx) && idx >= state.tasks.len() ==> task_opened(state)
            == state,
{
}

/// The task that is selected is removed, and no other: those before it stay where they are,
/// those behind it move up. Where none is selected, nothing is removed.
pub proof fn law_the_selected_task_is_removed(state: AppView, idx: usize, k: int)
    ensures
        state.selected_task_idx == Some(idx) && idx < state.tasks.len() ==> {
            let next = task_deleted(state);
            &&& next.selected_task_idx is None
            &&& next.tasks.len() == state.tasks.len() - 1
            &&& 0 <= k < idx ==> next.tasks[k] == state.tasks[k]
            &&& idx < k < state.tasks.len() ==> next.tasks[k - 1] == state.tasks[k]
            &&& next == (AppView { tasks: next.tasks, selected_task_idx: None, ..state })
        },
        state.selected_task_idx is None ==> task_deleted(state) == state,
        state.selected_task_idx == Some(idx) && idx >= state.tasks.len() ==> task_deleted(state)
            == state,
{
}

/// The file to be hashed is that of the task that is edited, where it watches one. The task
/// to be run now is the one that is edited.
pub proof fn law_the_edited_task_is_meant(state: AppView, task: TaskView)
    ensures
        state.editing_task is None ==> watched_file(state) is None && demanded(state) is None,
        state.editing_task == Some(task) ==> demanded(state) == Some((task.id, task.name)),
        state.editing_task == Some(task) ==> (task.task_type matches TaskTypeView::FileChanged {
            file_path,
            ..
        } ==> watched_file(state) == Some(file_path)),
        state.editing_task == Some(task) && !(task.task_type is FileChanged) ==> watched_file(
            state,
        ) is None,
{
}

/// The service gets the password that was verified, and none before that. Whether it runs is
/// said, and nothing else changes for that.
pub proof fn law_the_service_gets_the_password(state: AppView, running: bool)
    ensures
        password_for_service(state) is Some <==> state.password_verified
            && state.master_password.len() > 0,
        password_for_service(state) matches Some(p) ==> p == state.master_password,
        service_shown(state, true).service_status == "Service: Running"@,
        service_shown(state, false).service_status == "Service: Stopped"@,
        service_shown(state, running) == (AppView {
            service_status: service_shown(state, running).service_status,
            ..state
        }),
{
}

/// Settings that are opened show the public address that is stored, and change nothing else;
/// settings that are closed take nothing over.
pub proof fn law_settings_are_opened_and_closed(state: AppView, latest: ConfigView)
    ensures
        settings_opened(state, latest).show_settings,
        settings_opened(state, latest).config.public_ip == latest.public_ip,
        settings_opened(state, latest).config == (ConfigView {
            public_ip: latest.public_ip,
            ..state.config
        }),
        settings_opened(state, latest).settings == state.settings,
        settings_opened(state, latest).tasks == state.tasks,
        !settings_closed(state).show_settings,
        settings_closed(state).password_error.len() == 0,
        settings_closed(state).config == state.config,
        settings_closed(state).settings == state.settings,
        settings_closed(state).tasks == state.tasks,
        settings_closed(state).master_password == state.master_password,
{
}

} // verus!
