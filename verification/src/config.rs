//! The stored configuration, and where the service and its desktop keep their
//! files.

use crate::task::copy_opt_bytes;
use crate::task::copy_opt_text;
use crate::task::copy_tasks;
use crate::task::opt_bytes;
use crate::task::task_views;
use crate::task::Task;
use crate::task::TaskView;
use crate::text::copy_text;
use crate::text::opt_text;
use vstd::prelude::*;

verus! {

/// Everything that is stored in the configuration file.
#[derive(Debug)]
pub struct Config {
    pub smtp_port: u16,
    pub pushover_app_token_encrypted: Option<Vec<u8>>,
    pub pushover_user_key_encrypted: Option<Vec<u8>>,
    pub cloudflare_api_token_encrypted: Option<Vec<u8>>,
    pub cloudflare_api_email_encrypted: Option<Vec<u8>>,
    pub cloudflare_default_zone_id: String,
    pub cloudflare_default_record_name: String,
    pub cloudflare_default_proxied: String,
    pub cloudflare_default_ttl: String,
    pub password_verifier: Option<Vec<u8>>,
    pub password_salt: Option<Vec<u8>>,
    pub public_ip: Option<String>,
    pub tasks: Vec<Task>,
}

pub struct ConfigView {
    pub smtp_port: u16,
    pub pushover_app_token_encrypted: Option<Seq<u8>>,
    pub pushover_user_key_encrypted: Option<Seq<u8>>,
    pub cloudflare_api_token_encrypted: Option<Seq<u8>>,
    pub cloudflare_api_email_encrypted: Option<Seq<u8>>,
    pub cloudflare_default_zone_id: Seq<char>,
    pub cloudflare_default_record_name: Seq<char>,
    pub cloudflare_default_proxied: Seq<char>,
    pub cloudflare_default_ttl: Seq<char>,
    pub password_verifier: Option<Seq<u8>>,
    pub password_salt: Option<Seq<u8>>,
    pub public_ip: Option<Seq<char>>,
    pub tasks: Seq<TaskView>,
}

impl View for Config {
    type V = ConfigView;

    open spec fn view(&self) -> ConfigView {
        ConfigView {
            smtp_port: self.smtp_port,
            pushover_app_token_encrypted: opt_bytes(self.pushover_app_token_encrypted),
            pushover_user_key_encrypted: opt_bytes(self.pushover_user_key_encrypted),
            cloudflare_api_token_encrypted: opt_bytes(self.cloudflare_api_token_encrypted),
            cloudflare_api_email_encrypted: opt_bytes(self.cloudflare_api_email_encrypted),
            cloudflare_default_zone_id: self.cloudflare_default_zone_id@,
            cloudflare_default_record_name: self.cloudflare_default_record_name@,
            cloudflare_default_proxied: self.cloudflare_default_proxied@,
            cloudflare_default_ttl: self.cloudflare_default_ttl@,
            password_verifier: opt_bytes(self.password_verifier),
            password_salt: opt_bytes(self.password_salt),
            public_ip: opt_text(self.public_ip),
            tasks: task_views(self.tasks@),
        }
    }
}

/// The configuration of an installation that has none yet.
pub open spec fn empty_config() -> ConfigView {
    ConfigView {
        smtp_port: 0,
        pushover_app_token_encrypted: None,
        pushover_user_key_encrypted: None,
        cloudflare_api_token_encrypted: None,
        cloudflare_api_email_encrypted: None,
        cloudflare_default_zone_id: Seq::empty(),
        cloudflare_default_record_name: Seq::empty(),
        cloudflare_default_proxied: Seq::empty(),
        cloudflare_default_ttl: Seq::empty(),
        password_verifier: None,
        password_salt: None,
        public_ip: None,
        tasks: Seq::empty(),
    }
}

impl Default for Config {
    fn default() -> (r: Self)
        ensures
            r@ == empty_config(),
    {
        let r = Config {
            smtp_port: 0,
            pushover_app_token_encrypted: None,
            pushover_user_key_encrypted: None,
            cloudflare_api_token_encrypted: None,
            cloudflare_api_email_encrypted: None,
            cloudflare_default_zone_id: String::new(),
            cloudflare_default_record_name: String::new(),
            cloudflare_default_proxied: String::new(),
            cloudflare_default_ttl: String::new(),
            password_verifier: None,
            password_salt: None,
            public_ip: None,
            tasks: Vec::new(),
        };
        assert(task_views(r.tasks@) =~= Seq::<TaskView>::empty());
        r
    }
}

impl Clone for Config {
    fn clone(&self) -> (r: Self)
        ensures
            r@ == self@,
    {
        Config {
            smtp_port: self.smtp_port,
            pushover_app_token_encrypted: copy_opt_bytes(&self.pushover_app_token_encrypted),
            pushover_user_key_encrypted: copy_opt_bytes(&self.pushover_user_key_encrypted),
            cloudflare_api_token_encrypted: copy_opt_bytes(&self.cloudflare_api_token_encrypted),
            cloudflare_api_email_encrypted: copy_opt_bytes(&self.cloudflare_api_email_encrypted),
            cloudflare_default_zone_id: self.cloudflare_default_zone_id.clone(),
            cloudflare_default_record_name: self.cloudflare_default_record_name.clone(),
            cloudflare_default_proxied: self.cloudflare_default_proxied.clone(),
            cloudflare_default_ttl: self.cloudflare_default_ttl.clone(),
            password_verifier: copy_opt_bytes(&self.password_verifier),
            password_salt: copy_opt_bytes(&self.password_salt),
            public_ip: copy_opt_text(&self.public_ip),
            tasks: copy_tasks(&self.tasks),
        }
    }
}

/// A file or directory directly below a directory.
#[derive(Debug)]
pub struct FilePath {
    pub dir: String,
    pub name: String,
}

impl FilePath {
    /// Whether this is the entry `name` of the directory `dir`.
    pub open spec fn is(self, dir: Seq<char>, name: Seq<char>) -> bool {
        self.dir@ == dir && self.name@ == name
    }

    fn below(dir: &str, name: &str) -> (r: FilePath)
        ensures
            r.is(dir@, name@),
    {
        FilePath { dir: copy_text(dir), name: copy_text(name) }
    }
}

impl Config {
    /// The directory that holds all files: that of the executable, else the
    /// working directory, else the directory that `.` names.
    pub fn base_dir(exe_dir: Option<String>, working_dir: Option<String>) -> (r: String)
        ensures
            r@ == match (exe_dir, working_dir) {
                (Some(dir), _) => dir@,
                (None, Some(dir)) => dir@,
                (None, None) => "."@,
            },
    {
        match exe_dir {
            Some(dir) => dir,
            None => match working_dir {
                Some(dir) => dir,
                None => copy_text("."),
            },
        }
    }

    /// The configuration file.
    pub fn config_path(base_dir: &str) -> (r: FilePath)
        ensures
            r.is(base_dir@, "config.json"@),
    {
        FilePath::below(base_dir, "config.json")
    }

    /// The directory of the log files.
    pub fn log_dir(base_dir: &str) -> (r: FilePath)
        ensures
            r.is(base_dir@, "logs"@),
    {
        FilePath::below(base_dir, "logs")
    }

    /// The file in which the service reports on its tasks.
    pub fn status_path(base_dir: &str) -> (r: FilePath)
        ensures
            r.is(base_dir@, "status.json"@),
    {
        FilePath::below(base_dir, "status.json")
    }

    /// The file that a report is written to before it takes the place of the
    /// last one.
    pub fn status_temp_path(base_dir: &str) -> (r: FilePath)
        ensures
            r.is(base_dir@, "status.tmp"@),
    {
        FilePath::below(base_dir, "status.tmp")
    }

    /// The file that holds the process number of the service.
    pub fn pid_path(base_dir: &str) -> (r: FilePath)
        ensures
            r.is(base_dir@, "service.pid"@),
    {
        FilePath::below(base_dir, "service.pid")
    }

    /// The file through which the desktop gives the service a command.
    pub fn command_path(base_dir: &str) -> (r: FilePath)
        ensures
            r.is(base_dir@, "command.json"@),
    {
        FilePath::below(base_dir, "command.json")
    }

    /// The configuration that was read; where none could be read, an empty one.
    pub fn load(read: Option<Config>) -> (r: Config)
        ensures
            r@ == match read {
                Some(config) => config@,
                None => empty_config(),
            },
    {
        match read {
            Some(config) => config,
            None => Config::default(),
        }
    }
}

// ---------------------------------------------------------------------------
// Laws
// ---------------------------------------------------------------------------

/// An installation without a configuration has no port, no secrets, no password, no
/// defaults, no address and no tasks.
pub proof fn law_the_first_configuration_is_empty()
    ensures
        ({
            let c = empty_config();
            &&& c.smtp_port == 0
            &&& c.pushover_app_token_encrypted is None && c.pushover_user_key_encrypted is None
            &&& c.cloudflare_api_token_encrypted is None
            &&& c.cloudflare_api_email_encrypted is None
            &&& c.cloudflare_default_zone_id.len() == 0
            &&& c.cloudflare_default_record_name.len() == 0
            &&& c.cloudflare_default_proxied.len() == 0
            &&& c.cloudflare_default_ttl.len() == 0
            &&& c.password_verifier is None && c.password_salt is None
            &&& c.public_ip is None
            &&& c.tasks.len() == 0
        }),
{
}

/// What is said of a configuration is said of its parts, each of them by itself.
pub proof fn law_configurations_are_seen_whole(c: Config)
    ensures
        c@.smtp_port == c.smtp_port,
        c@.pushover_app_token_encrypted == opt_bytes(c.pushover_app_token_encrypted),
        c@.pushover_user_key_encrypted == opt_bytes(c.pushover_user_key_encrypted),
        c@.cloudflare_api_token_encrypted == opt_bytes(c.cloudflare_api_token_encrypted),
        c@.cloudflare_api_email_encrypted == opt_bytes(c.cloudflare_api_email_encrypted),
        c@.cloudflare_default_zone_id == c.cloudflare_default_zone_id@,
        c@.cloudflare_default_record_name == c.cloudflare_default_record_name@,
        c@.cloudflare_default_proxied == c.cloudflare_default_proxied@,
        c@.cloudflare_default_ttl == c.cloudflare_default_ttl@,
        c@.password_verifier == opt_bytes(c.password_verifier),
        c@.password_salt == opt_bytes(c.password_salt),
        match c.public_ip {
            Some(ip) => c@.public_ip == Some(ip@),
            None => c@.public_ip is None,
        },
        c@.tasks == task_views(c.tasks@),
{
}

} // verus!
