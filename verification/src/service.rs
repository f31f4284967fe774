//! The service around the scheduler: which credentials it starts with, and when
//! it reads its configuration again.

use crate::actions::bytes_of;
use crate::actions::open_secret;
use crate::actions::opened;
use crate::actions::opt_client;
use crate::clock::Timestamp;
use crate::cloudflare::ClientView;
use crate::cloudflare::CloudflareClient;
use crate::config::Config;
use crate::config::ConfigView;
use crate::crypto::decrypted;
use crate::crypto::verifies;
use crate::crypto::Crypto;
use crate::editor::run_command_text;
use crate::editor::run_task_command;
use crate::editor::uuid_text;
use crate::number::decimal;
use crate::number::decimal_text;
use crate::pushover::PushoverClient;
use crate::task::opt_bytes;
use crate::text::cat3;
use crate::text::chars_of;
use crate::text::copy_text;
use crate::text::opt_text;
use crate::text::same_text;
use crate::text::text_between;
use crate::variables::text_of;
use vstd::prelude::*;

verus! {

// ---------------------------------------------------------------------------
// Credentials
// ---------------------------------------------------------------------------

/// Whether sealed credentials may be opened.
#[derive(Debug, Clone, Copy, PartialEq, Eq, Structural)]
pub enum Gate {
    Open,
    WrongPassword,
    NoVerifier,
    NoSalt,
    NoPassword,
    /// No password was ever set.
    NotNeeded,
}

/// Whether sealed credentials may be opened: where a password was given that the
/// stored verifier and salt confirm.
pub open spec fn gate(password: bool, salt: bool, verifier: bool, verified: bool) -> Gate {
    if password {
        if !salt {
            Gate::NoSalt
        } else if !verifier {
            Gate::NoVerifier
        } else if verified {
            Gate::Open
        } else {
            Gate::WrongPassword
        }
    } else if verifier {
        Gate::NoPassword
    } else {
        Gate::NotNeeded
    }
}

/// Whether a password is the one that a configuration was made with.
pub open spec fn confirmed(config: ConfigView, password: Option<Seq<char>>) -> bool {
    match (password, config.password_salt, config.password_verifier) {
        (Some(password), Some(salt), Some(verifier)) => verifies(verifier, password, salt),
        _ => false,
    }
}

/// Whether the credentials of a configuration may be opened with a password.
pub open spec fn config_gate(config: ConfigView, password: Option<Seq<char>>) -> Gate {
    gate(
        password is Some,
        config.password_salt is Some,
        config.password_verifier is Some,
        confirmed(config, password),
    )
}

/// What the log says of a gate that is not open.
pub open spec fn gate_log(gate: Gate, service: Seq<char>) -> Option<Seq<char>> {
    match gate {
        Gate::Open => None,
        Gate::WrongPassword => Some("Invalid password provided"@),
        Gate::NoVerifier => Some("No password verifier found"@),
        Gate::NoSalt => Some("No password salt found"@),
        Gate::NoPassword => Some(
            "Password required but not provided - "@ + service + " disabled"@,
        ),
        Gate::NotNeeded => None,
    }
}

/// Whether sealed credentials may be opened.
pub fn credential_gate(password: bool, salt: bool, verifier: bool, verified: bool) -> (r: Gate)
    ensures
        r == gate(password, salt, verifier, verified),
{
    if password {
        if !salt {
            Gate::NoSalt
        } else if !verifier {
            Gate::NoVerifier
        } else if verified {
            Gate::Open
        } else {
            Gate::WrongPassword
        }
    } else if verifier {
        Gate::NoPassword
    } else {
        Gate::NotNeeded
    }
}

/// What the log says of a gate that is not open.
pub fn log_of_gate(gate: Gate, service: &str) -> (r: Option<String>)
    ensures
        opt_text(r) == gate_log(gate, service@),
{
    match gate {
        Gate::Open => None,
        Gate::WrongPassword => Some(copy_text("Invalid password provided")),
        Gate::NoVerifier => Some(copy_text("No password verifier found")),
        Gate::NoSalt => Some(copy_text("No password salt found")),
        Gate::NoPassword => Some(
            cat3("Password required but not provided - ", service, " disabled"),
        ),
        Gate::NotNeeded => None,
    }
}

/// Whether the credentials of a configuration may be opened with a password.
pub fn gate_of_config(config: &Config, password: Option<&str>) -> (r: Gate)
    ensures
        r == config_gate(config@, text_of(password)),
{
    let verified = match (password, &config.password_salt, &config.password_verifier) {
        (Some(password), Some(salt), Some(verifier)) => Crypto::verify_password(
            verifier.as_slice(),
            password,
            salt.as_slice(),
        ),
        _ => false,
    };
    credential_gate(
        password.is_some(),
        config.password_salt.is_some(),
        config.password_verifier.is_some(),
        verified,
    )
}

/// The client for opened Pushover credentials: both are needed.
pub open spec fn pushover_for(app_token: Option<Seq<char>>, user_key: Option<Seq<char>>) -> Option<
    (Seq<char>, Seq<char>),
> {
    match (app_token, user_key) {
        (Some(app), Some(user)) => Some((app, user)),
        _ => None,
    }
}

/// The contents of an optional client.
pub open spec fn pushover_view(client: Option<PushoverClient>) -> Option<(Seq<char>, Seq<char>)> {
    match client {
        Some(c) => Some((c.app_token@, c.user_key@)),
        None => None,
    }
}

/// The client for opened Pushover credentials, and what the log says of it.
pub fn pushover_from(app_token: Option<String>, user_key: Option<String>) -> (r: (
    Option<PushoverClient>,
    String,
))
    ensures
        pushover_view(r.0) == pushover_for(opt_text(app_token), opt_text(user_key)),
        r.1@ == if r.0 is Some {
            "Pushover credentials loaded"@
        } else {
            "Failed to decrypt Pushover credentials"@
        },
{
    match (app_token, user_key) {
        (Some(app), Some(user)) => (
            Some(PushoverClient::new(app, user)),
            copy_text("Pushover credentials loaded"),
        ),
        _ => (None, copy_text("Failed to decrypt Pushover credentials")),
    }
}

/// The client for opened Cloudflare credentials: with an address that is not
/// empty, a global key; else a token that is not empty.
pub open spec fn cloudflare_for(token: Option<Seq<char>>, email: Option<Seq<char>>) -> Option<
    ClientView,
> {
    match (token, email) {
        (Some(token), Some(email)) if email.len() > 0 => Some(
            ClientView { token, email: Some(email) },
        ),
        (Some(token), _) if token.len() > 0 => Some(ClientView { token, email: None }),
        _ => None,
    }
}

/// What the log says of Cloudflare credentials.
pub open spec fn cloudflare_log(client: Option<ClientView>) -> Seq<char> {
    match client {
        Some(c) => if c.email is Some {
            "Cloudflare Global API Key loaded"@
        } else {
            "Cloudflare API Token loaded"@
        },
        None => "Cloudflare credentials not configured"@,
    }
}

/// The client for opened Cloudflare credentials, and what the log says of it.
pub fn cloudflare_from(token: Option<String>, email: Option<String>) -> (r: (
    Option<CloudflareClient>,
    String,
))
    ensures
        opt_client(r.0) == cloudflare_for(opt_text(token), opt_text(email)),
        r.1@ == cloudflare_log(opt_client(r.0)),
{
    match token {
        Some(token) => match email {
            Some(email) => {
                if !email.as_str().is_empty() {
                    (
                        Some(CloudflareClient::with_global_key(email, token)),
                        copy_text("Cloudflare Global API Key loaded"),
                    )
                } else if !token.as_str().is_empty() {
                    (
                        Some(CloudflareClient::with_token(token)),
                        copy_text("Cloudflare API Token loaded"),
                    )
                } else {
                    (None, copy_text("Cloudflare credentials not configured"))
                }
            },
            None => {
                if !token.as_str().is_empty() {
                    (
                        Some(CloudflareClient::with_token(token)),
                        copy_text("Cloudflare API Token loaded"),
                    )
                } else {
                    (None, copy_text("Cloudflare credentials not configured"))
                }
            },
        },
        None => (None, copy_text("Cloudflare credentials not configured")),
    }
}

/// The Pushover client that a configuration and a password give.
pub open spec fn config_pushover(config: ConfigView, password: Option<Seq<char>>) -> Option<
    (Seq<char>, Seq<char>),
> {
    match (password, config.password_salt) {
        (Some(password), Some(salt)) if config_gate(config, Some(password)) is Open => pushover_for(
            opened(config.pushover_app_token_encrypted, password, salt),
            opened(config.pushover_user_key_encrypted, password, salt),
        ),
        _ => None,
    }
}

/// The Cloudflare client that a configuration and a password give.
pub open spec fn config_cloudflare(config: ConfigView, password: Option<Seq<char>>) -> Option<
    ClientView,
> {
    match (password, config.password_salt) {
        (Some(password), Some(salt)) if config_gate(config, Some(password)) is Open => {
            cloudflare_for(
                opened(config.cloudflare_api_token_encrypted, password, salt),
                opened(config.cloudflare_api_email_encrypted, password, salt),
            )
        },
        _ => None,
    }
}

/// A reference to optional bytes.
fn bytes_ref(bytes: &Option<Vec<u8>>) -> (r: Option<&Vec<u8>>)
    ensures
        bytes_of(r) == opt_bytes(*bytes),
{
    match bytes {
        Some(b) => Some(b),
        None => None,
    }
}

/// The Pushover client that a configuration and a password give, and what the log
/// says of it.
pub fn load_pushover(config: &Config, password: Option<&str>) -> (r: (
    Option<PushoverClient>,
    Option<String>,
))
    ensures
        pushover_view(r.0) == config_pushover(config@, text_of(password)),
        opt_text(r.1) == match config_gate(config@, text_of(password)) {
            Gate::Open => Some(
                if r.0 is Some {
                    "Pushover credentials loaded"@
                } else {
                    "Failed to decrypt Pushover credentials"@
                },
            ),
            closed => gate_log(closed, "Pushover"@),
        },
{
    let gate = gate_of_config(config, password);
    match gate {
        Gate::Open => {},
        _ => {
            return (None, log_of_gate(gate, "Pushover"));
        },
    }
    match (password, &config.password_salt) {
        (Some(password), Some(salt)) => {
            let app = open_secret(
                bytes_ref(&config.pushover_app_token_encrypted),
                password,
                salt.as_slice(),
            );
            let user = open_secret(
                bytes_ref(&config.pushover_user_key_encrypted),
                password,
                salt.as_slice(),
            );
            let (client, log) = pushover_from(app, user);
            (client, Some(log))
        },
        _ => (None, None),
    }
}

/// The Cloudflare client that a configuration and a password give, and what the
/// log says of it.
pub fn load_cloudflare(config: &Config, password: Option<&str>) -> (r: (
    Option<CloudflareClient>,
    Option<String>,
))
    ensures
        opt_client(r.0) == config_cloudflare(config@, text_of(password)),
        opt_text(r.1) == match config_gate(config@, text_of(password)) {
            Gate::Open => Some(cloudflare_log(opt_client(r.0))),
            closed => gate_log(closed, "Cloudflare"@),
        },
{
    let gate = gate_of_config(config, password);
    match gate {
        Gate::Open => {},
        _ => {
            return (None, log_of_gate(gate, "Cloudflare"));
        },
    }
    match (password, &config.password_salt) {
        (Some(password), Some(salt)) => {
            let token = open_secret(
                bytes_ref(&config.cloudflare_api_token_encrypted),
                password,
                salt.as_slice(),
            );
            let email = open_secret(
                bytes_ref(&config.cloudflare_api_email_encrypted),
                password,
                salt.as_slice(),
            );
            let (client, log) = cloudflare_from(token, email);
            (client, Some(log))
        },
        _ => (None, None),
    }
}

/// What the log says when the service has started.
pub fn started_log(port: u16) -> (r: String)
    ensures
        r@ == "Task Manager Service started (SMTP port "@ + decimal(port as nat) + ")"@,
{
    let digits = decimal_text(port as u64);
    cat3("Task Manager Service started (SMTP port ", digits.as_str(), ")")
}

// ---------------------------------------------------------------------------
// Reading the configuration again
// ---------------------------------------------------------------------------

/// When the configuration file was last seen to change.
pub struct ReloadWatch {
    pub last: Option<Timestamp>,
}

/// Whether a file that was changed at a time has to be read, given the time that was seen
/// last.
pub open spec fn has_changed(modified: Option<Timestamp>, last: Option<Timestamp>) -> bool {
    modified is Some && modified != last
}

impl ReloadWatch {
    /// Whether the file has to be read: where it can be seen, and was changed at
    /// another time than the one seen last.
    pub fn check(&mut self, modified: Option<Timestamp>) -> (r: bool)
        ensures
            r == has_changed(modified, old(self).last),
            r == (modified is Some && modified != old(self).last),
            final(self).last == if modified is Some {
                modified
            } else {
                old(self).last
            },
    {
        match modified {
            Some(time) => {
                let same = match self.last {
                    Some(last) => last == time,
                    None => false,
                };
                if !same {
                    self.last = Some(time);
                }
                !same
            },
            None => false,
        }
    }
}

// ---------------------------------------------------------------------------
// Tasks that are to run now
// ---------------------------------------------------------------------------

/// The number of the UUID that `uuid::Uuid::try_parse` reads from a text, if it
/// can.
pub uninterp spec fn uuid_number(text: Seq<char>) -> Option<u128>;

/// `uuid::Uuid::try_parse`: whether it reads a UUID, and which, is a function of
/// the text. It reads the hyphenated form in lower case; which other forms it
/// reads is not stated.
#[verifier::external_body]
fn uuid_from_text(text: &str) -> (r: Option<u128>)
    ensures
        r == uuid_number(text@),
        forall|id: u128| text@ == #[trigger] uuid_text(id) ==> r == Some(id),
{
    uuid::Uuid::try_parse(text).ok().map(|id| id.as_u128())
}

/// The task that a command asks to run: the one whose command this is.
pub fn read_run_command(text: &str) -> (r: Option<u128>)
    ensures
        forall|id: u128| r == Some(id) <==> text@ == #[trigger] run_command_text(id),
{
    let front = chars_of("{\"action\":\"run_task\",\"task_id\":\"");
    let back = chars_of("\"}");
    let chars = chars_of(text);
    proof {
        reveal_strlit("{\"action\":\"run_task\",\"task_id\":\"");
        reveal_strlit("\"}");
    }
    if chars.len() != front.len() + 36 + back.len() {
        return None;
    }
    let middle = text_between(&chars, front.len(), front.len() + 36);
    proof {
        assert forall|id: u128| text@ == #[trigger] run_command_text(id) implies middle@
            == uuid_text(id) by {
            assert(middle@ =~= uuid_text(id));
        }
    }
    match uuid_from_text(middle.as_str()) {
        Some(id) => {
            let command = run_task_command(id);
            if same_text(text, command.as_str()) {
                Some(id)
            } else {
                None
            }
        },
        None => None,
    }
}

// ---------------------------------------------------------------------------
// Laws
// ---------------------------------------------------------------------------

/// No credentials are opened without the password: a client comes only out of a
/// configuration whose verifier confirms the password given.
pub proof fn law_credentials_need_the_password(config: ConfigView, password: Option<Seq<char>>)
    ensures
        config_pushover(config, password) is Some || config_cloudflare(config, password) is Some
            ==> confirmed(config, password),
{
}

/// Credentials may be opened if and only if a password was given, a salt and a verifier are
/// stored, and the verifier opens under the password to the text of verifiers. Otherwise
/// the log says what is missing.
pub proof fn law_the_gate_opens_for_the_password(
    config: ConfigView,
    password: Option<Seq<char>>,
    service: Seq<char>,
)
    ensures
        ({
            let found = config_gate(config, password);
            &&& found == Gate::Open <==> (password is Some && config.password_salt is Some
                && config.password_verifier is Some && decrypted(
                config.password_verifier->0,
                password->0,
                config.password_salt->0,
            ) == Ok::<Seq<char>, Seq<char>>("TASK_MANAGER_VERIFIED"@))
            &&& password is Some && config.password_salt is None ==> gate_log(found, service)
                == Some("No password salt found"@)
            &&& password is Some && config.password_salt is Some && config.password_verifier is None
                ==> gate_log(found, service) == Some("No password verifier found"@)
            &&& password is Some && config.password_salt is Some && config.password_verifier is Some
                && found != Gate::Open ==> gate_log(found, service) == Some(
                "Invalid password provided"@,
            )
            &&& password is None && config.password_verifier is Some ==> gate_log(found, service)
                == Some("Password required but not provided - "@ + service + " disabled"@)
            &&& password is None && config.password_verifier is None ==> gate_log(found, service)
                is None
            &&& found == Gate::Open ==> gate_log(found, service) is None
        }),
{
}

/// With the password, the Pushover client has the two secrets that are stored for it, and
/// there is none where one of them cannot be opened.
pub proof fn law_pushover_credentials_are_opened(
    config: ConfigView,
    password: Seq<char>,
    salt: Seq<u8>,
)
    requires
        config.password_salt == Some(salt),
        config_gate(config, Some(password)) == Gate::Open,
    ensures
        match (config.pushover_app_token_encrypted, config.pushover_user_key_encrypted) {
            (Some(app), Some(user)) => match (
                decrypted(app, password, salt),
                decrypted(user, password, salt),
            ) {
                (Ok(token), Ok(key)) => config_pushover(config, Some(password)) == Some(
                    (token, key),
                ),
                _ => config_pushover(config, Some(password)) is None,
            },
            _ => config_pushover(config, Some(password)) is None,
        },
{
}

/// With the password, the Cloudflare client has the secret that is stored for it, and the
/// address where one is stored that is not empty. Without an address an empty secret makes
/// no client.
pub proof fn law_cloudflare_credentials_are_opened(
    config: ConfigView,
    password: Seq<char>,
    salt: Seq<u8>,
    token: Seq<u8>,
    secret: Seq<char>,
)
    requires
        config.password_salt == Some(salt),
        config_gate(config, Some(password)) == Gate::Open,
        config.cloudflare_api_token_encrypted == Some(token),
        decrypted(token, password, salt) == Ok::<Seq<char>, Seq<char>>(secret),
    ensures
        ({
            let found = config_cloudflare(config, Some(password));
            let address = match config.cloudflare_api_email_encrypted {
                Some(bytes) => match decrypted(bytes, password, salt) {
                    Ok(text) => text,
                    Err(_) => Seq::empty(),
                },
                None => Seq::empty(),
            };
            &&& address.len() > 0 ==> (found matches Some(c) && c.token == secret && c.email
                == Some(address) && cloudflare_log(found) == "Cloudflare Global API Key loaded"@)
            &&& address.len() == 0 && secret.len() > 0 ==> (found matches Some(c) && c.token
                == secret && c.email is None && cloudflare_log(found)
                == "Cloudflare API Token loaded"@)
            &&& address.len() == 0 && secret.len() == 0 ==> found is None
            &&& found is None ==> cloudflare_log(found) == "Cloudflare credentials not configured"@
        }),
{
}

/// Without a secret that can be opened there is no Cloudflare client.
pub proof fn law_no_secret_no_client(config: ConfigView, password: Option<Seq<char>>)
    requires
        config.cloudflare_api_token_encrypted is None || password is None
            || config.password_salt is None || decrypted(
            config.cloudflare_api_token_encrypted->0,
            password->0,
            config.password_salt->0,
        ) is Err,
    ensures
        config_cloudflare(config, password) is None,
{
}

/// The configuration file is read where it can be seen, and was changed at another time than
/// the one seen last; not otherwise.
pub proof fn law_changes_are_read(time: Timestamp, last: Timestamp)
    ensures
        has_changed(Some(time), None),
        has_changed(Some(time), Some(last)) <==> time != last,
        !has_changed(None, Some(last)),
        !has_changed(None, None),
{
}

} // verus!
