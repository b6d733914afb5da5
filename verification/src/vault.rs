//! Encrypted vault files: `salt || nonce || AES-256-GCM(key, nonce, plaintext)` where the
//! key is derived from a master password with Argon2.

use aes_gcm::aead::generic_array::GenericArray;
use aes_gcm::aead::{Aead, KeyInit};
use aes_gcm::{Aes256Gcm, Nonce};
use rand::RngCore;
use vstd::prelude::*;
use vstd::string::*;

verus! {

/// Length of the random salt at the start of a vault file.
pub const SALT_LEN: usize = 16;

/// Length of the random nonce that follows the salt.
pub const NONCE_LEN: usize = 12;

/// Length of an AES-256 key.
pub const KEY_LEN: usize = 32;

/// Largest plaintext that AES-GCM encrypts (`aes_gcm::P_MAX`).
pub const MAX_PLAINTEXT_LEN: u64 = 0x10_0000_0000;

/// Largest password or salt that Argon2 accepts (`argon2::MAX_PWD_LEN`, `argon2::MAX_SALT_LEN`).
pub const MAX_ARGON2_INPUT_LEN: u64 = 0xFFFF_FFFF;

/// Why a vault could not be sealed or opened.
#[derive(Debug, Clone, Copy, PartialEq, Eq, Structural)]
pub enum VaultError {
    /// The file is shorter than a salt and a nonce.
    TooShort,
    /// The key could not be derived from the password.
    KeyDerivation,
    /// The plaintext could not be encrypted.
    Encryption,
    /// The ciphertext did not authenticate: wrong password or corrupted data.
    Decryption,
}

impl VaultError {
    /// A human-readable description of the failure.
    pub fn message(&self) -> (r: &'static str)
        ensures
            r@ == spec_vault_error_message(*self),
    {
        match self {
            VaultError::TooShort => "Invalid vault file: too short",
            VaultError::KeyDerivation => "Failed to derive key",
            VaultError::Encryption => "aead::Error",
            VaultError::Decryption => "Failed to decrypt vault: incorrect password or corrupted data",
        }
    }
}

/// The description of a vault failure.
pub open spec fn spec_vault_error_message(e: VaultError) -> Seq<char> {
    match e {
        VaultError::TooShort => "Invalid vault file: too short"@,
        VaultError::KeyDerivation => "Failed to derive key"@,
        VaultError::Encryption => "aead::Error"@,
        VaultError::Decryption => "Failed to decrypt vault: incorrect password or corrupted data"@,
    }
}

/// The 32-byte Argon2id output (default parameters) for a password and a salt.
pub uninterp spec fn argon2_output(password: Seq<u8>, salt: Seq<u8>) -> Seq<u8>;

/// The AES-256-GCM ciphertext (with its tag) of a plaintext under a key and nonce.
pub uninterp spec fn aes256gcm_seal(key: Seq<u8>, nonce: Seq<u8>, plaintext: Seq<u8>) -> Seq<u8>;

/// The plaintext of an AES-256-GCM ciphertext under a key and nonce, if it authenticates.
pub uninterp spec fn aes256gcm_open(key: Seq<u8>, nonce: Seq<u8>, ciphertext: Seq<u8>) -> Option<
    Seq<u8>,
>;

/// Argon2 accepts the inputs: password and salt no longer than its limits, salt at least 8 bytes.
pub open spec fn argon2_accepts(password: Seq<u8>, salt: Seq<u8>) -> bool {
    password.len() <= MAX_ARGON2_INPUT_LEN && 8 <= salt.len() <= MAX_ARGON2_INPUT_LEN
}

/// `bytes` cut or zero-padded to an AES-256 key.
pub open spec fn fit_key(bytes: Seq<u8>) -> Seq<u8> {
    Seq::new(KEY_LEN as nat, |i: int| if i < bytes.len() { bytes[i] } else { 0u8 })
}

/// The AES key that a password and a salt give.
pub open spec fn password_key(password: Seq<u8>, salt: Seq<u8>) -> Seq<u8> {
    fit_key(argon2_output(password, salt))
}

/// The bytes of a vault file.
pub open spec fn frame(salt: Seq<u8>, nonce: Seq<u8>, ciphertext: Seq<u8>) -> Seq<u8> {
    salt + nonce + ciphertext
}

/// A vault file cut into salt, nonce and ciphertext; `None` when it is too short.
pub open spec fn unframe(data: Seq<u8>) -> Option<(Seq<u8>, Seq<u8>, Seq<u8>)> {
    if data.len() < SALT_LEN + NONCE_LEN {
        None
    } else {
        Some(
            (
                data.subrange(0, SALT_LEN as int),
                data.subrange(SALT_LEN as int, (SALT_LEN + NONCE_LEN) as int),
                data.subrange((SALT_LEN + NONCE_LEN) as int, data.len() as int),
            ),
        )
    }
}

/// What opening the vault file `data` with `password` gives.
pub open spec fn spec_decrypt_vault(data: Seq<u8>, password: Seq<u8>) -> Result<Seq<u8>, VaultError> {
    match unframe(data) {
        None => Err(VaultError::TooShort),
        Some((salt, nonce, ciphertext)) => if !argon2_accepts(password, salt) {
            Err(VaultError::KeyDerivation)
        } else {
            match aes256gcm_open(password_key(password, salt), nonce, ciphertext) {
                Some(p) => Ok(p),
                None => Err(VaultError::Decryption),
            }
        },
    }
}

/// `data` is a vault file that seals `plaintext` under `password`, with some salt and nonce.
pub open spec fn sealed(data: Seq<u8>, plaintext: Seq<u8>, password: Seq<u8>) -> bool {
    exists|salt: Seq<u8>, nonce: Seq<u8>|
        {
            &&& salt.len() == SALT_LEN
            &&& nonce.len() == NONCE_LEN
            &&& argon2_accepts(password, salt)
            &&& #[trigger] frame(salt, nonce, aes256gcm_seal(password_key(password, salt), nonce, plaintext))
                == data
            &&& aes256gcm_open(
                password_key(password, salt),
                nonce,
                aes256gcm_seal(password_key(password, salt), nonce, plaintext),
            ) == Some(plaintext)
        }
}

/// `Argon2::default().hash_password_into` with a 32-byte output. This is the hash that
/// `PasswordHasher::hash_password` computes for a `SaltString` encoding the same salt bytes.
/// Claimed: the output is a fixed function of password and salt, 32 bytes long, and the
/// call fails exactly when an input is outside Argon2's limits.
#[verifier::external_body]
fn argon2_hash(password: &[u8], salt: &[u8]) -> (r: Option<Vec<u8>>)
    ensures
        r is Some <==> argon2_accepts(password@, salt@),
        r matches Some(out) ==> out@ == argon2_output(password@, salt@) && out@.len() == KEY_LEN,
{
    let mut out = vec![0u8; KEY_LEN];
    match argon2::Argon2::default().hash_password_into(password, salt, &mut out) {
        Ok(()) => Some(out),
        Err(_) => None,
    }
}

/// `Aes256Gcm::encrypt` with no associated data. Claimed: the ciphertext is a fixed
/// function of key, nonce and plaintext, and decrypting it with the same key and nonce
/// gives the plaintext back; encryption fails only above the plaintext limit.
#[verifier::external_body]
fn aes_gcm_seal(key: &[u8], nonce: &[u8], plaintext: &[u8]) -> (r: Option<Vec<u8>>)
    requires
        key@.len() == KEY_LEN,
        nonce@.len() == NONCE_LEN,
    ensures
        r matches Some(c) ==> c@ == aes256gcm_seal(key@, nonce@, plaintext@) && aes256gcm_open(
            key@,
            nonce@,
            c@,
        ) == Some(plaintext@),
        plaintext@.len() <= MAX_PLAINTEXT_LEN ==> r is Some,
{
    let cipher = Aes256Gcm::new(GenericArray::from_slice(key));
    cipher.encrypt(Nonce::from_slice(nonce), plaintext).ok()
}

/// `Aes256Gcm::decrypt` with no associated data. Claimed: the result is a fixed
/// function of key, nonce and ciphertext.
#[verifier::external_body]
fn aes_gcm_open(key: &[u8], nonce: &[u8], ciphertext: &[u8]) -> (r: Option<Vec<u8>>)
    requires
        key@.len() == KEY_LEN,
        nonce@.len() == NONCE_LEN,
    ensures
        match r {
            Some(p) => aes256gcm_open(key@, nonce@, ciphertext@) == Some(p@),
            None => aes256gcm_open(key@, nonce@, ciphertext@) is None,
        },
{
    let cipher = Aes256Gcm::new(GenericArray::from_slice(key));
    cipher.decrypt(Nonce::from_slice(nonce), ciphertext).ok()
}

/// `RngCore::fill_bytes` on the thread-local generator. Claimed: `len` bytes come back;
/// their values are chance.
#[verifier::external_body]
fn random_bytes(len: usize) -> (r: Vec<u8>)
    ensures
        r@.len() == len,
{
    let mut buf = vec![0u8; len];
    rand::thread_rng().fill_bytes(&mut buf);
    buf
}

/// The AES key for a password and salt: the Argon2 output cut or zero-padded to 32 bytes.
fn derive_key(password: &[u8], salt: &[u8]) -> (r: Option<Vec<u8>>)
    ensures
        r is Some <==> argon2_accepts(password@, salt@),
        r matches Some(k) ==> k@ == password_key(password@, salt@),
{
    match argon2_hash(password, salt) {
        None => None,
        Some(out) => {
            let mut key: Vec<u8> = Vec::new();
            let mut i: usize = 0;
            while i < KEY_LEN
                invariant
                    i <= KEY_LEN,
                    key@ =~= fit_key(out@).subrange(0, i as int),
                decreases KEY_LEN - i,
            {
                if i < out.len() {
                    key.push(out[i]);
                } else {
                    key.push(0u8);
                }
                i = i + 1;
            }
            assert(key@ =~= fit_key(out@));
            Some(key)
        },
    }
}

/// Lays out a vault file: salt, then nonce, then ciphertext.
pub fn frame_vault(salt: &[u8], nonce: &[u8], ciphertext: &[u8]) -> (r: Vec<u8>)
    ensures
        r@ == frame(salt@, nonce@, ciphertext@),
{
    let mut r: Vec<u8> = Vec::new();
    r.extend_from_slice(salt);
    r.extend_from_slice(nonce);
    r.extend_from_slice(ciphertext);
    r
}

fn copy_bytes(s: &[u8], from: usize, to: usize) -> (r: Vec<u8>)
    requires
        from <= to <= s@.len(),
    ensures
        r@ == s@.subrange(from as int, to as int),
{
    let mut r: Vec<u8> = Vec::new();
    let mut i = from;
    while i < to
        invariant
            from <= i <= to <= s@.len(),
            r@ == s@.subrange(from as int, i as int),
        decreases to - i,
    {
        r.push(s[i]);
        i = i + 1;
    }
    r
}

/// Cuts a vault file into salt, nonce and ciphertext.
pub fn unframe_vault(data: &[u8]) -> (r: Result<(Vec<u8>, Vec<u8>, Vec<u8>), VaultError>)
    ensures
        match r {
            Ok((s, n, c)) => unframe(data@) == Some((s@, n@, c@)),
            Err(e) => unframe(data@) is None && e == VaultError::TooShort,
        },
{
    if data.len() < SALT_LEN + NONCE_LEN {
        return Err(VaultError::TooShort);
    }
    let salt = copy_bytes(data, 0, SALT_LEN);
    let nonce = copy_bytes(data, SALT_LEN, SALT_LEN + NONCE_LEN);
    let ciphertext = copy_bytes(data, SALT_LEN + NONCE_LEN, data.len());
    Ok((salt, nonce, ciphertext))
}

/// Seals `plaintext` under `password` with the given salt and nonce: the file is the
/// salt, the nonce and the AES-256-GCM ciphertext under the key derived from the password
/// and salt.
pub fn seal_vault(plaintext: &[u8], password: &str, salt: &[u8], nonce: &[u8]) -> (r: Result<
    Vec<u8>,
    VaultError,
>)
    requires
        salt@.len() == SALT_LEN,
        nonce@.len() == NONCE_LEN,
    ensures
        match r {
            Ok(d) => {
                &&& argon2_accepts(password.spec_bytes(), salt@)
                &&& d@ == frame(
                    salt@,
                    nonce@,
                    aes256gcm_seal(password_key(password.spec_bytes(), salt@), nonce@, plaintext@),
                )
                &&& aes256gcm_open(
                    password_key(password.spec_bytes(), salt@),
                    nonce@,
                    aes256gcm_seal(password_key(password.spec_bytes(), salt@), nonce@, plaintext@),
                ) == Some(plaintext@)
            },
            Err(e) => (e == VaultError::KeyDerivation && !argon2_accepts(password.spec_bytes(), salt@))
                || (e == VaultError::Encryption && argon2_accepts(password.spec_bytes(), salt@)
                && plaintext@.len() > MAX_PLAINTEXT_LEN),
        },
        argon2_accepts(password.spec_bytes(), salt@) && plaintext@.len() <= MAX_PLAINTEXT_LEN
            ==> r is Ok,
{
    let pw = password.as_bytes();
    let key = match derive_key(pw, salt) {
        Some(k) => k,
        None => return Err(VaultError::KeyDerivation),
    };
    let ciphertext = match aes_gcm_seal(&key, nonce, plaintext) {
        Some(c) => c,
        None => return Err(VaultError::Encryption),
    };
    Ok(frame_vault(salt, nonce, &ciphertext))
}

/// Seals `plaintext` under `password` with a fresh random salt and nonce.
pub fn encrypt_vault(plaintext: &[u8], password: &str) -> (r: Result<Vec<u8>, VaultError>)
    ensures
        match r {
            Ok(d) => sealed(d@, plaintext@, password.spec_bytes()),
            Err(e) => (e == VaultError::KeyDerivation && password.spec_bytes().len()
                > MAX_ARGON2_INPUT_LEN) || (e == VaultError::Encryption && plaintext@.len()
                > MAX_PLAINTEXT_LEN),
        },
        password.spec_bytes().len() <= MAX_ARGON2_INPUT_LEN && plaintext@.len() <= MAX_PLAINTEXT_LEN
            ==> r is Ok,
{
    let salt = random_bytes(SALT_LEN);
    let nonce = random_bytes(NONCE_LEN);
    let r = seal_vault(plaintext, password, &salt, &nonce);
    match r {
        Ok(d) => {
            assert(frame(
                salt@,
                nonce@,
                aes256gcm_seal(password_key(password.spec_bytes(), salt@), nonce@, plaintext@),
            ) == d@);
            Ok(d)
        },
        Err(e) => Err(e),
    }
}

/// Opens a vault file with `password` and returns its plaintext.
pub fn decrypt_vault(data: &[u8], password: &str) -> (r: Result<Vec<u8>, VaultError>)
    ensures
        match r {
            Ok(p) => spec_decrypt_vault(data@, password.spec_bytes()) == Ok::<Seq<u8>, VaultError>(p@),
            Err(e) => spec_decrypt_vault(data@, password.spec_bytes()) == Err::<Seq<u8>, VaultError>(e),
        },
{
    let (salt, nonce, ciphertext) = unframe_vault(data)?;
    let pw = password.as_bytes();
    let key = match derive_key(pw, &salt) {
        Some(k) => k,
        None => return Err(VaultError::KeyDerivation),
    };
    match aes_gcm_open(&key, &nonce, &ciphertext) {
        Some(p) => Ok(p),
        None => Err(VaultError::Decryption),
    }
}

/// A vault file laid out from a salt and a nonce of the right lengths is cut back into them.
pub proof fn lemma_unframe_frame(salt: Seq<u8>, nonce: Seq<u8>, ciphertext: Seq<u8>)
    requires
        salt.len() == SALT_LEN,
        nonce.len() == NONCE_LEN,
    ensures
        unframe(frame(salt, nonce, ciphertext)) == Some((salt, nonce, ciphertext)),
{
    let d = frame(salt, nonce, ciphertext);
    assert(d.subrange(0, SALT_LEN as int) =~= salt);
    assert(d.subrange(SALT_LEN as int, (SALT_LEN + NONCE_LEN) as int) =~= nonce);
    assert(d.subrange((SALT_LEN + NONCE_LEN) as int, d.len() as int) =~= ciphertext);
}

/// Opening a vault with the password that sealed it gives back the sealed plaintext.
pub proof fn lemma_decrypt_encrypt(data: Seq<u8>, plaintext: Seq<u8>, password: Seq<u8>)
    requires
        sealed(data, plaintext, password),
    ensures
        spec_decrypt_vault(data, password) == Ok::<Seq<u8>, VaultError>(plaintext),
{
    let (salt, nonce) = choose|salt: Seq<u8>, nonce: Seq<u8>|
        {
            &&& salt.len() == SALT_LEN
            &&& nonce.len() == NONCE_LEN
            &&& argon2_accepts(password, salt)
            &&& #[trigger] frame(salt, nonce, aes256gcm_seal(password_key(password, salt), nonce, plaintext))
                == data
            &&& aes256gcm_open(
                password_key(password, salt),
                nonce,
                aes256gcm_seal(password_key(password, salt), nonce, plaintext),
            ) == Some(plaintext)
        };
    lemma_unframe_frame(salt, nonce, aes256gcm_seal(password_key(password, salt), nonce, plaintext));
}

} // verus!
