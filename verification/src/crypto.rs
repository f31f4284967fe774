//! Encryption of stored secrets under a master password.
//!
//! A secret is sealed with AES-256-GCM under a key that PBKDF2 derives from the
//! password and a salt. The sealed form begins with the nonce.

use aes_gcm::KeyInit;
use aes_gcm::aead::Aead;
use crate::text::copy_text;
use crate::text::same_text;
use rand::RngCore;
use vstd::prelude::*;
use vstd::slice::slice_subrange;
use vstd::utf8::*;

verus! {

/// Rounds of the key derivation.
pub const ROUNDS: u32 = 100_000;

/// Bytes of the nonce before the sealed text.
pub const NONCE_LEN: usize = 12;

/// The longest text that AES-GCM seals, in bytes.
pub const MAX_PLAIN: u64 = 68_719_476_736;

/// What `pbkdf2_hmac::<Sha256>` derives: 32 bytes from a password, a salt and a
/// number of rounds.
pub uninterp spec fn pbkdf2_key(password: Seq<u8>, salt: Seq<u8>, rounds: u32) -> Seq<u8>;

/// What AES-256-GCM makes of a text under a key and a nonce, the tag at the end.
pub uninterp spec fn gcm_seal(key: Seq<u8>, nonce: Seq<u8>, plain: Seq<u8>) -> Seq<u8>;

/// What AES-256-GCM reads from a sealed text under a key and a nonce, if the tag
/// is right.
pub uninterp spec fn gcm_open(key: Seq<u8>, nonce: Seq<u8>, sealed: Seq<u8>) -> Option<Seq<u8>>;

/// What `String::from_utf8` says of bytes that are not UTF-8.
pub uninterp spec fn utf8_error(bytes: Seq<u8>) -> Seq<char>;

/// `pbkdf2::pbkdf2_hmac` with SHA-256: the key is a function of the password,
/// the salt and the number of rounds.
#[verifier::external_body]
pub(crate) fn derive_bytes(password: &[u8], salt: &[u8], rounds: u32) -> (key: [u8; 32])
    ensures
        key@ == pbkdf2_key(password@, salt@, rounds),
{
    let mut key = [0u8; 32];
    pbkdf2::pbkdf2_hmac::<sha2::Sha256>(password, salt, rounds, &mut key);
    key
}

/// `Aes256Gcm::encrypt`: fails only where the text is longer than AES-GCM
/// allows; what it gives is a function of key, nonce and text, is 16 bytes
/// longer than the text, and opens to the text again.
#[verifier::external_body]
pub(crate) fn seal(key: &[u8; 32], nonce: &[u8; 12], plain: &[u8]) -> (r: Option<Vec<u8>>)
    ensures
        r is Some <==> plain@.len() <= MAX_PLAIN,
        r matches Some(sealed) ==> {
            &&& sealed@ == gcm_seal(key@, nonce@, plain@)
            &&& sealed@.len() == plain@.len() + 16
            &&& gcm_open(key@, nonce@, sealed@) == Some(plain@)
        },
{
    let cipher = aes_gcm::Aes256Gcm::new(key.into());
    cipher.encrypt(aes_gcm::Nonce::from_slice(nonce), plain).ok()
}

/// `Aes256Gcm::decrypt`: what it gives, or that it fails, is a function of key,
/// nonce and sealed text.
#[verifier::external_body]
pub(crate) fn open(key: &[u8; 32], nonce: &[u8], sealed: &[u8]) -> (r: Option<Vec<u8>>)
    requires
        nonce@.len() == NONCE_LEN,
    ensures
        match r {
            Some(plain) => gcm_open(key@, nonce@, sealed@) == Some(plain@),
            None => gcm_open(key@, nonce@, sealed@) is None,
        },
{
    let cipher = aes_gcm::Aes256Gcm::new(key.into());
    cipher.decrypt(aes_gcm::Nonce::from_slice(nonce), sealed).ok()
}

/// `rand::thread_rng().fill_bytes`: as many random bytes as asked for.
#[verifier::external_body]
pub(crate) fn random_bytes(count: usize) -> (r: Vec<u8>)
    ensures
        r@.len() == count,
{
    let mut bytes = vec![0u8; count];
    rand::thread_rng().fill_bytes(&mut bytes);
    bytes
}

/// `String::from_utf8`: the text whose UTF-8 form the bytes are, or else what
/// the error says.
#[verifier::external_body]
pub(crate) fn text_from_utf8(bytes: Vec<u8>) -> (r: Result<String, String>)
    ensures
        match r {
            Ok(text) => valid_utf8(bytes@) && text@ == decode_utf8(bytes@),
            Err(e) => !valid_utf8(bytes@) && e@ == utf8_error(bytes@),
        },
{
    match String::from_utf8(bytes) {
        Ok(text) => Ok(text),
        Err(e) => Err(e.to_string()),
    }
}

// ---------------------------------------------------------------------------
// What sealed secrets hold
// ---------------------------------------------------------------------------

/// The key for a password and a salt.
pub open spec fn key_for(password: Seq<char>, salt: Seq<u8>) -> Seq<u8> {
    pbkdf2_key(encode_utf8(password), salt, ROUNDS)
}

/// The text that opened bytes stand for; without any, the error of a wrong tag.
pub open spec fn opened_text(opened: Option<Seq<u8>>) -> Result<Seq<char>, Seq<char>> {
    match opened {
        Some(bytes) => if valid_utf8(bytes) {
            Ok(decode_utf8(bytes))
        } else {
            Err(utf8_error(bytes))
        },
        None => Err("aead::Error"@),
    }
}

/// What a sealed secret holds, or why it cannot be read.
pub open spec fn decrypted(ciphertext: Seq<u8>, password: Seq<char>, salt: Seq<u8>) -> Result<
    Seq<char>,
    Seq<char>,
> {
    if ciphertext.len() < NONCE_LEN {
        Err("Invalid ciphertext"@)
    } else {
        opened_text(
            gcm_open(
                key_for(password, salt),
                ciphertext.take(NONCE_LEN as int),
                ciphertext.skip(NONCE_LEN as int),
            ),
        )
    }
}

/// Whether bytes are a secret sealed under the nonce that they begin with.
pub open spec fn is_sealed(
    ciphertext: Seq<u8>,
    plaintext: Seq<char>,
    password: Seq<char>,
    salt: Seq<u8>,
) -> bool {
    &&& ciphertext.len() == NONCE_LEN + encode_utf8(plaintext).len() + 16
    &&& ciphertext.skip(NONCE_LEN as int) == gcm_seal(
        key_for(password, salt),
        ciphertext.take(NONCE_LEN as int),
        encode_utf8(plaintext),
    )
    &&& decrypted(ciphertext, password, salt) == Ok::<Seq<char>, Seq<char>>(plaintext)
}

/// The text that a password verifier holds.
pub open spec fn verifier_text() -> Seq<char> {
    "TASK_MANAGER_VERIFIED"@
}

/// Whether a password opens a verifier.
pub open spec fn verifies(verifier: Seq<u8>, password: Seq<char>, salt: Seq<u8>) -> bool {
    decrypted(verifier, password, salt) == Ok::<Seq<char>, Seq<char>>(verifier_text())
}

/// A result over text, compared with what it should be.
pub open spec fn text_result(r: Result<String, String>) -> Result<Seq<char>, Seq<char>> {
    match r {
        Ok(s) => Ok(s@),
        Err(e) => Err(e@),
    }
}

// ---------------------------------------------------------------------------
// Operations
// ---------------------------------------------------------------------------

pub struct Crypto;

impl Crypto {
    /// The key for a password and a salt.
    pub fn derive_key(password: &str, salt: &[u8]) -> (key: [u8; 32])
        ensures
            key@ == key_for(password@, salt@),
    {
        derive_bytes(password.as_bytes(), salt, ROUNDS)
    }

    /// Nonce and sealed text as one byte string.
    pub fn framed(nonce: &[u8; 12], sealed: &Vec<u8>) -> (r: Vec<u8>)
        ensures
            r@ == nonce@ + sealed@,
    {
        let mut r: Vec<u8> = Vec::new();
        r.extend_from_slice(nonce.as_slice());
        r.extend_from_slice(sealed.as_slice());
        assert(r@ =~= nonce@ + sealed@);
        r
    }

    /// The text that opened bytes stand for.
    pub fn text_of_opened(opened: Option<Vec<u8>>) -> (r: Result<String, String>)
        ensures
            text_result(r) == opened_text(
                match opened {
                    Some(bytes) => Some(bytes@),
                    None => None,
                },
            ),
    {
        match opened {
            Some(bytes) => text_from_utf8(bytes),
            None => Err(copy_text("aead::Error")),
        }
    }

    /// Seals a text under a password and a salt, with a fresh nonce. Fails only
    /// where the text is longer than AES-GCM allows. Decryption under the same
    /// password and salt gives the text back.
    pub fn encrypt(plaintext: &str, password: &str, salt: &[u8]) -> (r: Result<Vec<u8>, String>)
        ensures
            r is Ok <==> encode_utf8(plaintext@).len() <= MAX_PLAIN,
            match r {
                Ok(ciphertext) => is_sealed(ciphertext@, plaintext@, password@, salt@),
                Err(e) => e@ == "aead::Error"@,
            },
    {
        let key = Self::derive_key(password, salt);
        let random = random_bytes(NONCE_LEN);
        let nonce: [u8; 12] = [
            random[0],
            random[1],
            random[2],
            random[3],
            random[4],
            random[5],
            random[6],
            random[7],
            random[8],
            random[9],
            random[10],
            random[11],
        ];
        match seal(&key, &nonce, plaintext.as_bytes()) {
            Some(sealed) => {
                let r = Self::framed(&nonce, &sealed);
                proof {
                    assert(r@.take(NONCE_LEN as int) =~= nonce@);
                    assert(r@.skip(NONCE_LEN as int) =~= sealed@);
                    encode_utf8_valid_utf8(plaintext@);
                    encode_utf8_decode_utf8(plaintext@);
                }
                Ok(r)
            },
            None => Err(copy_text("aead::Error")),
        }
    }

    /// Opens a sealed text.
    pub fn decrypt(ciphertext: &[u8], password: &str, salt: &[u8]) -> (r: Result<String, String>)
        ensures
            text_result(r) == decrypted(ciphertext@, password@, salt@),
    {
        if ciphertext.len() < NONCE_LEN {
            return Err(copy_text("Invalid ciphertext"));
        }
        let key = Self::derive_key(password, salt);
        let nonce = slice_subrange(ciphertext, 0, NONCE_LEN);
        let sealed = slice_subrange(ciphertext, NONCE_LEN, ciphertext.len());
        assert(nonce@ =~= ciphertext@.take(NONCE_LEN as int));
        assert(sealed@ =~= ciphertext@.skip(NONCE_LEN as int));
        Self::text_of_opened(open(&key, nonce, sealed))
    }

    /// The salt that sixteen drawn bytes make: these bytes, in their order.
    pub fn salt_of(drawn: &[u8]) -> (r: [u8; 16])
        requires
            drawn@.len() == 16,
        ensures
            r@ == drawn@,
    {
        let r: [u8; 16] = [
            drawn[0],
            drawn[1],
            drawn[2],
            drawn[3],
            drawn[4],
            drawn[5],
            drawn[6],
            drawn[7],
            drawn[8],
            drawn[9],
            drawn[10],
            drawn[11],
            drawn[12],
            drawn[13],
            drawn[14],
            drawn[15],
        ];
        assert(r@ =~= drawn@);
        r
    }

    /// Sixteen random bytes. Which ones is left to chance, so nothing but
    /// their number is stated.
    pub fn generate_salt() -> (r: [u8; 16])
        ensures
            r@.len() == 16,
    {
        let random = random_bytes(16);
        Self::salt_of(random.as_slice())
    }

    /// A byte string by which a password can be recognised later. It never
    /// fails, and the password verifies against it.
    pub fn generate_verifier(password: &str, salt: &[u8]) -> (r: Result<Vec<u8>, String>)
        ensures
            r is Ok,
            r matches Ok(verifier) ==> {
                &&& is_sealed(verifier@, verifier_text(), password@, salt@)
                &&& verifies(verifier@, password@, salt@)
            },
    {
        proof {
            reveal_strlit("TASK_MANAGER_VERIFIED");
            is_ascii_chars_encode_utf8("TASK_MANAGER_VERIFIED"@);
        }
        Self::encrypt("TASK_MANAGER_VERIFIED", password, salt)
    }

    /// Whether opened text is that of a verifier.
    pub fn is_verifier_text(opened: &Result<String, String>) -> (r: bool)
        ensures
            r == (text_result(*opened) == Ok::<Seq<char>, Seq<char>>(verifier_text())),
    {
        match opened {
            Ok(text) => same_text(text.as_str(), "TASK_MANAGER_VERIFIED"),
            Err(_) => false,
        }
    }

    /// Whether a password is the one that a verifier was made with.
    pub fn verify_password(verifier: &[u8], password: &str, salt: &[u8]) -> (r: bool)
        ensures
            r == verifies(verifier@, password@, salt@),
    {
        let opened = Self::decrypt(verifier, password, salt);
        Self::is_verifier_text(&opened)
    }
}

// ---------------------------------------------------------------------------
// Laws
// ---------------------------------------------------------------------------

/// A sealed secret is a nonce of twelve bytes and what was sealed under it. The key is
/// derived from the password and the salt in a hundred thousand rounds. What opens to a
/// text in UTF-8 is that text; everything else is an error.
pub proof fn law_secrets_are_opened(
    nonce: Seq<u8>,
    sealed: Seq<u8>,
    password: Seq<char>,
    salt: Seq<u8>,
    text: Seq<char>,
)
    requires
        nonce.len() == 12,
    ensures
        ({
            let key = pbkdf2_key(encode_utf8(password), salt, 100_000u32);
            let found = decrypted(nonce + sealed, password, salt);
            &&& gcm_open(key, nonce, sealed) == Some(encode_utf8(text)) ==> found == Ok::<
                Seq<char>,
                Seq<char>,
            >(text)
            &&& gcm_open(key, nonce, sealed) is None ==> found == Err::<Seq<char>, Seq<char>>(
                "aead::Error"@,
            )
            &&& gcm_open(key, nonce, sealed) matches Some(bytes) ==> (!valid_utf8(bytes)
                ==> found is Err)
            &&& found == Ok::<Seq<char>, Seq<char>>(text) ==> gcm_open(key, nonce, sealed) == Some(
                encode_utf8(text),
            )
        }),
{
    let all = nonce + sealed;
    assert(all.take(12) =~= nonce);
    assert(all.skip(12) =~= sealed);
    encode_utf8_valid_utf8(text);
    encode_utf8_decode_utf8(text);
    let key = pbkdf2_key(encode_utf8(password), salt, 100_000u32);
    if let Some(bytes) = gcm_open(key, nonce, sealed) {
        if valid_utf8(bytes) {
            decode_utf8_encode_utf8(bytes);
        }
    }
}

/// What is shorter than a nonce holds no secret.
pub proof fn law_short_bytes_hold_no_secret(
    bytes: Seq<u8>,
    password: Seq<char>,
    salt: Seq<u8>,
)
    requires
        bytes.len() < 12,
    ensures
        decrypted(bytes, password, salt) == Err::<Seq<char>, Seq<char>>("Invalid ciphertext"@),
{
}

/// A secret that is sealed is a nonce and the text sealed under it and under the key of
/// the password, and it opens to the text again.
pub proof fn law_sealed_secrets_open_again(
    bytes: Seq<u8>,
    text: Seq<char>,
    password: Seq<char>,
    salt: Seq<u8>,
)
    requires
        is_sealed(bytes, text, password, salt),
    ensures
        bytes.len() == 28 + encode_utf8(text).len(),
        bytes.skip(12) == gcm_seal(
            pbkdf2_key(encode_utf8(password), salt, 100_000u32),
            bytes.take(12),
            encode_utf8(text),
        ),
        decrypted(bytes, password, salt) == Ok::<Seq<char>, Seq<char>>(text),
{
}

/// A password is confirmed by a verifier if and only if the verifier opens under it to the
/// text that every verifier holds.
pub proof fn law_verifiers_confirm(verifier: Seq<u8>, password: Seq<char>, salt: Seq<u8>)
    ensures
        verifies(verifier, password, salt) <==> decrypted(verifier, password, salt) == Ok::<
            Seq<char>,
            Seq<char>,
        >("TASK_MANAGER_VERIFIED"@),
{
}

} // verus!
