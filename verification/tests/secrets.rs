use task_manager::config::Config;
use task_manager::crypto::Crypto;
use task_manager::hash::compute_file_hash;
use task_manager::service::cloudflare_from;
use task_manager::service::credential_gate;
use task_manager::service::load_cloudflare;
use task_manager::service::load_pushover;
use task_manager::service::log_of_gate;
use task_manager::service::pushover_from;
use task_manager::service::started_log;
use task_manager::service::Gate;
use task_manager::service::ReloadWatch;
use task_manager::clock::Timestamp;

fn config_with(password: &str, token: &str, email: &str) -> Config {
    let salt = Crypto::generate_salt();
    let mut config = Config::default();
    config.password_verifier = Some(Crypto::generate_verifier(password, &salt).unwrap());
    config.pushover_app_token_encrypted = Some(Crypto::encrypt("app", password, &salt).unwrap());
    config.pushover_user_key_encrypted = Some(Crypto::encrypt("user", password, &salt).unwrap());
    config.cloudflare_api_token_encrypted = Some(Crypto::encrypt(token, password, &salt).unwrap());
    config.cloudflare_api_email_encrypted = Some(Crypto::encrypt(email, password, &salt).unwrap());
    config.password_salt = Some(salt.to_vec());
    config
}

#[test]
fn keys_are_those_of_pbkdf2_with_sha256() {
    let key = Crypto::derive_key("password", b"salt");
    let mut hex = String::new();
    for b in key {
        hex.push_str(&format!("{:02x}", b));
    }
    assert_eq!(hex, "0394a2ede332c9a13eb82e9b24631604c31df978b4e2f0fbd2c549944f9d79a5");
}

#[test]
fn sealed_texts_open_again() {
    let salt = Crypto::generate_salt();
    for text in ["", "secret", "größer"] {
        let sealed = Crypto::encrypt(text, "pw", &salt).unwrap();
        assert_eq!(sealed.len(), 12 + text.len() + 16);
        if !text.is_empty() {
            assert_ne!(&sealed[12..12 + text.len()], text.as_bytes());
        }
        assert_eq!(Crypto::decrypt(&sealed, "pw", &salt), Ok(text.to_string()));
    }
}

#[test]
fn the_same_text_is_never_sealed_twice_alike() {
    let salt = Crypto::generate_salt();
    assert_ne!(Crypto::encrypt("a", "pw", &salt), Crypto::encrypt("a", "pw", &salt));
    assert_ne!(Crypto::generate_salt(), Crypto::generate_salt());
}

#[test]
fn a_salt_is_the_drawn_bytes_in_their_order() {
    let drawn: Vec<u8> = (1..17).collect();
    assert_eq!(Crypto::salt_of(&drawn), [1, 2, 3, 4, 5, 6, 7, 8, 9, 10, 11, 12, 13, 14, 15, 16]);
}

#[test]
fn wrong_keys_and_broken_bytes_are_refused() {
    let salt = Crypto::generate_salt();
    let sealed = Crypto::encrypt("secret", "pw", &salt).unwrap();
    assert_eq!(Crypto::decrypt(&sealed, "other", &salt), Err("aead::Error".to_string()));
    let mut broken = sealed.clone();
    broken[20] ^= 1;
    assert_eq!(Crypto::decrypt(&broken, "pw", &salt), Err("aead::Error".to_string()));
    assert_eq!(Crypto::decrypt(&sealed[..11], "pw", &salt), Err("Invalid ciphertext".to_string()));
    assert_eq!(Crypto::text_of_opened(None), Err("aead::Error".to_string()));
    assert_eq!(Crypto::text_of_opened(Some(b"ok".to_vec())), Ok("ok".to_string()));
    assert_eq!(
        Crypto::text_of_opened(Some(vec![0xff])),
        Err("invalid utf-8 sequence of 1 bytes from index 0".to_string())
    );
}

#[test]
fn passwords_verify_against_their_verifier() {
    let salt = Crypto::generate_salt();
    let verifier = Crypto::generate_verifier("pw", &salt).unwrap();
    assert!(Crypto::verify_password(&verifier, "pw", &salt));
    assert!(!Crypto::verify_password(&verifier, "PW", &salt));
    assert!(!Crypto::verify_password(b"short", "pw", &salt));
    assert!(!Crypto::is_verifier_text(&Ok("something".to_string())));
    assert!(Crypto::is_verifier_text(&Ok("TASK_MANAGER_VERIFIED".to_string())));
}

#[test]
fn file_hashes_are_sha256_in_hex() {
    assert_eq!(
        compute_file_hash(b""),
        "e3b0c44298fc1c149afbf4c8996fb92427ae41e4649b934ca495991b7852b855"
    );
    assert_eq!(
        compute_file_hash(b"abc"),
        "ba7816bf8f01cfea414140de5dae2223b00361a396177a9cb410ff61f20015ad"
    );
}

#[test]
fn gates_open_for_the_right_password_only() {
    assert_eq!(credential_gate(true, true, true, true), Gate::Open);
    assert_eq!(credential_gate(true, true, true, false), Gate::WrongPassword);
    assert_eq!(credential_gate(true, true, false, false), Gate::NoVerifier);
    assert_eq!(credential_gate(true, false, true, false), Gate::NoSalt);
    assert_eq!(credential_gate(false, true, true, false), Gate::NoPassword);
    assert_eq!(credential_gate(false, true, false, false), Gate::NotNeeded);
    assert_eq!(
        log_of_gate(Gate::NoPassword, "Pushover"),
        Some("Password required but not provided - Pushover disabled".to_string())
    );
    assert_eq!(log_of_gate(Gate::WrongPassword, "x"), Some("Invalid password provided".to_string()));
    assert_eq!(log_of_gate(Gate::NoVerifier, "x"), Some("No password verifier found".to_string()));
    assert_eq!(log_of_gate(Gate::NoSalt, "x"), Some("No password salt found".to_string()));
    assert_eq!(log_of_gate(Gate::NotNeeded, "x"), None);
}

#[test]
fn credentials_load_with_the_password() {
    let config = config_with("pw", "tok", "me@x");
    let (pushover, log) = load_pushover(&config, Some("pw"));
    let client = pushover.unwrap();
    assert_eq!(client.app_token, "app");
    assert_eq!(client.user_key, "user");
    assert_eq!(log, Some("Pushover credentials loaded".to_string()));
    let (cloudflare, log) = load_cloudflare(&config, Some("pw"));
    let client = cloudflare.unwrap();
    assert_eq!(client.token, "tok");
    assert_eq!(client.email, Some("me@x".to_string()));
    assert_eq!(log, Some("Cloudflare Global API Key loaded".to_string()));
}

#[test]
fn credentials_stay_closed_without_the_password() {
    let config = config_with("pw", "tok", "");
    let (pushover, log) = load_pushover(&config, Some("wrong"));
    assert!(pushover.is_none());
    assert_eq!(log, Some("Invalid password provided".to_string()));
    let (cloudflare, log) = load_cloudflare(&config, None);
    assert!(cloudflare.is_none());
    assert_eq!(log, Some("Password required but not provided - Cloudflare disabled".to_string()));
    let (cloudflare, log) = load_cloudflare(&Config::default(), None);
    assert!(cloudflare.is_none());
    assert_eq!(log, None);
}

#[test]
fn opened_credentials_make_clients() {
    let text = |s: &str| Some(s.to_string());
    assert!(pushover_from(text("a"), None).0.is_none());
    assert_eq!(pushover_from(text("a"), None).1, "Failed to decrypt Pushover credentials");
    let (client, log) = cloudflare_from(text("t"), text(""));
    assert_eq!(client.unwrap().email, None);
    assert_eq!(log, "Cloudflare API Token loaded");
    let (client, log) = cloudflare_from(text(""), text("me@x"));
    assert_eq!(client.unwrap().token, "");
    assert_eq!(log, "Cloudflare Global API Key loaded");
    let (client, log) = cloudflare_from(text(""), None);
    assert!(client.is_none());
    assert_eq!(log, "Cloudflare credentials not configured");
    assert!(cloudflare_from(None, text("me@x")).0.is_none());
}

#[test]
fn configuration_is_read_again_when_it_changed() {
    let at = |secs: i64| Some(Timestamp { secs, nanos: 0 });
    let mut watch = ReloadWatch { last: at(1) };
    assert!(!watch.check(at(1)));
    assert!(!watch.check(None));
    assert!(watch.check(at(2)));
    assert!(!watch.check(at(2)));
    assert!(watch.check(at(1)));
    let mut fresh = ReloadWatch { last: None };
    assert!(fresh.check(at(5)));
    assert_eq!(started_log(25), "Task Manager Service started (SMTP port 25)");
}
