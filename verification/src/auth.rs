//! The master key: derived with Argon2id from a password and a salt kept
//! beside the database.
use vstd::prelude::*;
use vstd::string::StringSliceAdditionalSpecFns;

verus! {

/// Length of the database key, in bytes.
pub const KEY_SIZE: usize = 32;

/// Length of the salt file, in bytes.
pub const SALT_SIZE: usize = 16;

/// Environment variable that may hold the password.
pub const ENV_PASSWORD: &'static str = "AZ_PASSWORD";

/// Errors while resolving the key.
#[derive(Debug)]
pub enum AuthError {
    Io(std::io::Error),
    Prompt(String),
    PasswordMismatch,
    EmptyPassword,
    Argon2(String),
    SaltCorrupt { expected: usize, got: usize },
}

/// The Argon2id (version 0x13, default parameters: 19 MiB, 2 passes, one
/// lane) digest of `password` under `salt`, 32 bytes long.
pub uninterp spec fn argon2id_v13_default(password: Seq<u8>, salt: Seq<u8>) -> Seq<u8>;

/// `argon2::Argon2::hash_password_into` with Argon2id, version 0x13 and
/// `Params::default()` into a 32-byte buffer. As the crate's code shows, it
/// fails exactly when the password is longer than `0xFFFF_FFFF` bytes or the
/// salt is shorter than 8 or longer than `0xFFFF_FFFF` bytes; otherwise the
/// buffer holds the digest named `argon2id_v13_default`. The error text is
/// the crate's message and is left unstated.
#[verifier::external_body]
fn argon2id_hash(password: &[u8], salt: &[u8]) -> (r: Result<[u8; 32], String>)
    ensures
        r is Ok <==> (password@.len() <= 0xFFFF_FFFF && 8 <= salt@.len() <= 0xFFFF_FFFF),
        r matches Ok(k) ==> k@ == argon2id_v13_default(password@, salt@),
{
    let argon = argon2::Argon2::new(
        argon2::Algorithm::Argon2id,
        argon2::Version::V0x13,
        argon2::Params::default(),
    );
    let mut out = [0u8; 32];
    match argon.hash_password_into(password, salt, &mut out) {
        Ok(()) => Ok(out),
        Err(e) => Err(e.to_string()),
    }
}

/// `rand::thread_rng().fill_bytes` over 16 bytes: random bytes, of which
/// nothing is stated.
#[verifier::external_body]
fn random_salt_bytes() -> (r: [u8; 16]) {
    let mut salt = [0u8; 16];
    rand::RngCore::fill_bytes(&mut rand::thread_rng(), &mut salt);
    salt
}

/// Whether Argon2 accepts a password and a salt of these lengths.
pub open spec fn argon2_accepts(password_len: nat, salt_len: nat) -> bool {
    password_len <= 0xFFFF_FFFF && 8 <= salt_len <= 0xFFFF_FFFF
}

/// Derives the 32-byte key from a password and a salt with Argon2id.
/// It fails with `Argon2` exactly when Argon2 refuses the lengths (a salt
/// shorter than 8 bytes, in practice).
pub fn derive_key(password: &str, salt: &[u8]) -> (r: Result<[u8; KEY_SIZE], AuthError>)
    ensures
        r is Ok <==> argon2_accepts(password.spec_bytes().len(), salt@.len()),
        r matches Ok(k) ==> k@ == argon2id_v13_default(password.spec_bytes(), salt@),
        r matches Err(e) ==> e is Argon2,
{
    match argon2id_hash(password.as_bytes(), salt) {
        Ok(k) => Ok(k),
        Err(msg) => Err(AuthError::Argon2(msg)),
    }
}

/// A fresh random salt for a new database or a new password.
pub fn new_salt() -> (r: [u8; SALT_SIZE])
    ensures
        r@.len() == SALT_SIZE,
{
    random_salt_bytes()
}

/// Path of the salt file that goes with a database: the database path with
/// `.salt` appended.
pub fn salt_path(db_path: &str) -> (r: String)
    ensures
        r@ == db_path@ + ".salt"@,
{
    let mut s = String::from_str(db_path);
    s.append(".salt");
    s
}

/// Checks the content of a salt file: it must be exactly [`SALT_SIZE`] bytes.
pub fn check_salt(bytes: &[u8]) -> (r: Result<[u8; SALT_SIZE], AuthError>)
    ensures
        bytes@.len() == SALT_SIZE ==> (r matches Ok(s) && s@ == bytes@),
        bytes@.len() != SALT_SIZE ==> (r matches Err(AuthError::SaltCorrupt { expected, got })
            && expected == SALT_SIZE && got == bytes@.len()),
{
    if bytes.len() != SALT_SIZE {
        return Err(AuthError::SaltCorrupt { expected: SALT_SIZE, got: bytes.len() });
    }
    let mut salt = [0u8; SALT_SIZE];
    let mut i: usize = 0;
    while i < SALT_SIZE
        invariant
            i <= SALT_SIZE,
            bytes@.len() == SALT_SIZE,
            salt@.len() == SALT_SIZE,
            forall|j: int| 0 <= j < i ==> salt@[j] == bytes@[j],
        decreases SALT_SIZE - i,
    {
        salt[i] = bytes[i];
        i = i + 1;
    }
    assert(salt@ =~= bytes@);
    Ok(salt)
}

/// Where the password comes from.
#[derive(Debug, PartialEq, Eq)]
pub enum PasswordSource {
    /// The value of [`ENV_PASSWORD`].
    Environment(String),
    /// One interactive prompt (existing database).
    Prompt,
    /// A prompt and its confirmation (new database).
    PromptTwice,
}

/// Whether the salt is read from its file or generated and written.
#[derive(Debug, Clone, Copy, PartialEq, Eq, Structural)]
pub enum SaltSource {
    Stored,
    Fresh,
}

/// How a key is resolved: the password source and the salt source.
#[derive(Debug)]
pub struct AuthPlan {
    pub password: PasswordSource,
    pub salt: SaltSource,
}

/// Decides how to resolve the key. A password in the environment is used as
/// is; otherwise the user is prompted, twice when the database is new. The
/// salt is read when its file exists and generated otherwise.
pub fn plan_authentication(env_password: Option<String>, salt_exists: bool) -> (r: AuthPlan)
    ensures
        r.salt == (if salt_exists { SaltSource::Stored } else { SaltSource::Fresh }),
        match env_password {
            Some(p) => r.password == PasswordSource::Environment(p),
            None => r.password == (if salt_exists {
                PasswordSource::Prompt
            } else {
                PasswordSource::PromptTwice
            }),
        },
{
    let salt = if salt_exists {
        SaltSource::Stored
    } else {
        SaltSource::Fresh
    };
    let password = match env_password {
        Some(p) => PasswordSource::Environment(p),
        None => if salt_exists {
            PasswordSource::Prompt
        } else {
            PasswordSource::PromptTwice
        },
    };
    AuthPlan { password, salt }
}

/// Accepts a prompted password for an existing database: it must not be
/// empty.
pub fn accept_password(password: String) -> (r: Result<String, AuthError>)
    ensures
        password@.len() == 0 ==> r matches Err(AuthError::EmptyPassword),
        password@.len() != 0 ==> r == Ok::<String, AuthError>(password),
{
    if password.as_str().is_empty() {
        Err(AuthError::EmptyPassword)
    } else {
        Ok(password)
    }
}

/// Accepts the password of a new database and its confirmation: the first
/// must not be empty, and both must be equal.
pub fn accept_new_password(password: String, confirmation: &str) -> (r: Result<
    String,
    AuthError,
>)
    ensures
        password@.len() == 0 ==> r matches Err(AuthError::EmptyPassword),
        password@.len() != 0 && password@ != confirmation@ ==> r matches Err(
            AuthError::PasswordMismatch,
        ),
        password@.len() != 0 && password@ == confirmation@ ==> r == Ok::<String, AuthError>(
            password,
        ),
{
    if password.as_str().is_empty() {
        return Err(AuthError::EmptyPassword);
    }
    let c = String::from_str(confirmation);
    if password == c {
        Ok(password)
    } else {
        Err(AuthError::PasswordMismatch)
    }
}

/// Holder of the derived database key.
pub struct Authenticator {
    key: [u8; KEY_SIZE],
}

impl Authenticator {
    /// The key held.
    pub closed spec fn key_view(&self) -> Seq<u8> {
        self.key@
    }

    /// The derived key.
    pub fn key(&self) -> (r: &[u8; KEY_SIZE])
        ensures
            r@ == self.key_view(),
    {
        &self.key
    }

    /// Derives the key from a resolved password and salt.
    pub fn from_password(password: &str, salt: &[u8]) -> (r: Result<Authenticator, AuthError>)
        ensures
            r is Ok <==> argon2_accepts(password.spec_bytes().len(), salt@.len()),
            r matches Ok(a) ==> a.key_view() == argon2id_v13_default(password.spec_bytes(), salt@),
            r matches Err(e) ==> e is Argon2,
    {
        match derive_key(password, salt) {
            Ok(key) => Ok(Authenticator { key }),
            Err(e) => Err(e),
        }
    }
}

/// Two derivations with the same password and salt give the same key.
pub proof fn lemma_derivation_deterministic(
    password: Seq<u8>,
    salt: Seq<u8>,
    k1: Seq<u8>,
    k2: Seq<u8>,
)
    requires
        k1 == argon2id_v13_default(password, salt),
        k2 == argon2id_v13_default(password, salt),
    ensures
        k1 == k2,
{
}

} // verus!
