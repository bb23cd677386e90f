use vstd::prelude::*;

use aes_gcm::aead::rand_core::RngCore;
use aes_gcm::aead::{Aead, KeyInit, OsRng};
use aes_gcm::{Aes256Gcm, Key, Nonce};
use argon2::Argon2;

use crate::bytes::push_all;
use crate::error::Error;

verus! {

pub const NONCE_LEN: usize = 12;

pub const SALT_LEN: usize = 16;

/// Length of the authentication tag that follows each ciphertext.
pub const TAG_LEN: usize = 16;

/// Bytes an envelope holds before its ciphertext: nonce and salt.
pub const ENVELOPE_HEADER_LEN: usize = 28;

/// Longest password the key derivation takes.
pub const MAX_PASSWORD_LEN: usize = 0xFFFF_FFFF;

/// Longest plaintext AES-256-GCM encrypts.
pub const MAX_PLAINTEXT_LEN: u64 = 0x10_0000_0000;

/// Argon2 (default parameters) key of 32 bytes for a password and salt.
pub uninterp spec fn argon2_key_of(password: Seq<u8>, salt: Seq<u8>) -> Seq<u8>;

/// AES-256-GCM ciphertext, tag appended, of `plaintext` under `key` and
/// `nonce`, with no associated data.
pub uninterp spec fn aes_gcm_sealed(key: Seq<u8>, nonce: Seq<u8>, plaintext: Seq<u8>) -> Seq<u8>;

/// AES-256-GCM decryption of `ciphertext` (tag appended) under `key` and
/// `nonce`: the plaintext, or `None` where the tag does not verify.
pub uninterp spec fn aes_gcm_opened(key: Seq<u8>, nonce: Seq<u8>, ciphertext: Seq<u8>) -> Option<
    Seq<u8>,
>;

/// Relies on argon2::Argon2::hash_password_into, default parameters: the key
/// depends on password and salt alone, and with a 16-byte salt and a 32-byte
/// output the call fails only for a password longer than 0xFFFF_FFFF bytes.
#[verifier::external_body]
fn argon2_hash(password: &[u8], salt: &[u8; 16]) -> (r: Option<[u8; 32]>)
    ensures
        r is Some <==> password@.len() <= MAX_PASSWORD_LEN,
        r matches Some(k) ==> k@ == argon2_key_of(password@, salt@),
{
    let mut key = [0u8; 32];
    match Argon2::default().hash_password_into(password, salt, &mut key) {
        Ok(()) => Some(key),
        Err(_) => None,
    }
}

/// Relies on aes_gcm::Aes256Gcm (KeyInit::new, then Aead::encrypt with no
/// associated data): it fails only for a plaintext longer than P_MAX (2^36)
/// bytes, appends a 16-byte tag to a ciphertext as long as the plaintext, and
/// what it returns decrypts under the same key and nonce to the plaintext.
#[verifier::external_body]
fn aes_gcm_encrypt(key: &[u8; 32], nonce: &[u8; 12], plaintext: &[u8]) -> (r: Option<Vec<u8>>)
    ensures
        r is Some <==> plaintext@.len() <= MAX_PLAINTEXT_LEN,
        r matches Some(c) ==> c@ == aes_gcm_sealed(key@, nonce@, plaintext@) && c@.len()
            == plaintext@.len() + TAG_LEN,
        r matches Some(c) ==> aes_gcm_opened(key@, nonce@, c@) == Some(plaintext@),
{
    let cipher = Aes256Gcm::new(Key::<Aes256Gcm>::from_slice(key));
    cipher.encrypt(Nonce::from_slice(nonce), plaintext).ok()
}

/// Relies on aes_gcm::Aes256Gcm (KeyInit::new, then Aead::decrypt with no
/// associated data): the result depends on key, nonce and ciphertext alone;
/// `None` where the tag does not verify.
#[verifier::external_body]
fn aes_gcm_decrypt(key: &[u8; 32], nonce: &[u8; 12], ciphertext: &[u8]) -> (r: Option<Vec<u8>>)
    ensures
        r matches Some(p) ==> aes_gcm_opened(key@, nonce@, ciphertext@) == Some(p@),
        r is None ==> aes_gcm_opened(key@, nonce@, ciphertext@) is None,
{
    let cipher = Aes256Gcm::new(Key::<Aes256Gcm>::from_slice(key));
    cipher.decrypt(Nonce::from_slice(nonce), ciphertext).ok()
}

/// Relies on rand_core's OsRng (RngCore::try_fill_bytes): `N` bytes from
/// the operating system's secure random source, or `None` where that source
/// fails. Nothing is known of the bytes.
#[verifier::external_body]
pub(crate) fn random_bytes<const N: usize>() -> (r: Option<[u8; N]>) {
    let mut bytes = [0u8; N];
    match OsRng.try_fill_bytes(&mut bytes) {
        Ok(()) => Some(bytes),
        Err(_) => None,
    }
}

/// The envelope that sealing `plaintext` under `password`, `salt` and
/// `nonce` gives: nonce, salt, then ciphertext with its tag.
pub open spec fn sealed_envelope(password: Seq<u8>, salt: Seq<u8>, nonce: Seq<u8>, plaintext: Seq<u8>) -> Seq<u8> {
    nonce + salt + aes_gcm_sealed(argon2_key_of(password, salt), nonce, plaintext)
}

/// What sealing gives, failures included.
pub open spec fn seal_outcome(password: Seq<u8>, salt: Seq<u8>, nonce: Seq<u8>, plaintext: Seq<u8>) -> Result<Seq<u8>, Error> {
    if password.len() > MAX_PASSWORD_LEN {
        Err(Error::KeyDerivationFailed)
    } else if plaintext.len() > MAX_PLAINTEXT_LEN {
        Err(Error::EncryptionFailed)
    } else {
        Ok(sealed_envelope(password, salt, nonce, plaintext))
    }
}

/// What opening `envelope` with `password` gives, failures included.
pub open spec fn open_outcome(password: Seq<u8>, envelope: Seq<u8>) -> Result<Seq<u8>, Error> {
    if envelope.len() < ENVELOPE_HEADER_LEN {
        Err(Error::TruncatedEnvelope)
    } else if password.len() > MAX_PASSWORD_LEN {
        Err(Error::KeyDerivationFailed)
    } else {
        let key = argon2_key_of(password, envelope.subrange(12, 28));
        match aes_gcm_opened(key, envelope.subrange(0, 12), envelope.subrange(28, envelope.len() as int)) {
            Some(m) => Ok(m),
            None => Err(Error::AuthenticationFailed),
        }
    }
}

/// A byte vector result seen as a sequence.
pub open spec fn bytes_outcome(r: Result<Vec<u8>, Error>) -> Result<Seq<u8>, Error> {
    match r {
        Ok(v) => Ok(v@),
        Err(e) => Err(e),
    }
}

/// The 32-byte key for `password` and `salt`.
pub fn derive_key(password: &[u8], salt: &[u8; 16]) -> (r: Result<[u8; 32], Error>)
    ensures
        match r {
            Ok(k) => password@.len() <= MAX_PASSWORD_LEN && k@ == argon2_key_of(password@, salt@),
            Err(e) => password@.len() > MAX_PASSWORD_LEN && e == Error::KeyDerivationFailed,
        },
{
    match argon2_hash(password, salt) {
        Some(k) => Ok(k),
        None => Err(Error::KeyDerivationFailed),
    }
}

/// Encrypts `plaintext`; the tag follows the ciphertext.
pub fn seal(key: &[u8; 32], nonce: &[u8; 12], plaintext: &[u8]) -> (r: Result<Vec<u8>, Error>)
    ensures
        match r {
            Ok(c) => plaintext@.len() <= MAX_PLAINTEXT_LEN && c@ == aes_gcm_sealed(key@, nonce@, plaintext@)
                && c@.len() == plaintext@.len() + TAG_LEN
                && aes_gcm_opened(key@, nonce@, c@) == Some(plaintext@),
            Err(e) => plaintext@.len() > MAX_PLAINTEXT_LEN && e == Error::EncryptionFailed,
        },
{
    match aes_gcm_encrypt(key, nonce, plaintext) {
        Some(c) => Ok(c),
        None => Err(Error::EncryptionFailed),
    }
}

/// Decrypts and authenticates `ciphertext`. Nothing of the plaintext comes
/// out where the tag does not verify.
pub fn open(key: &[u8; 32], nonce: &[u8; 12], ciphertext: &[u8]) -> (r: Result<Vec<u8>, Error>)
    ensures
        match r {
            Ok(p) => aes_gcm_opened(key@, nonce@, ciphertext@) == Some(p@),
            Err(e) => aes_gcm_opened(key@, nonce@, ciphertext@) is None && e == Error::AuthenticationFailed,
        },
{
    match aes_gcm_decrypt(key, nonce, ciphertext) {
        Some(p) => Ok(p),
        None => Err(Error::AuthenticationFailed),
    }
}

/// Nonce, salt and ciphertext, in that order.
pub fn pack_envelope(nonce: &[u8; 12], salt: &[u8; 16], ciphertext: &[u8]) -> (r: Vec<u8>)
    ensures
        r@ == nonce@ + salt@ + ciphertext@,
{
    let mut out: Vec<u8> = Vec::new();
    push_all(&mut out, nonce.as_slice());
    push_all(&mut out, salt.as_slice());
    push_all(&mut out, ciphertext);
    out
}

/// Splits an envelope into nonce, salt and ciphertext.
pub fn unpack_envelope(bytes: &[u8]) -> (r: Result<([u8; 12], [u8; 16], Vec<u8>), Error>)
    ensures
        match r {
            Ok((nonce, salt, ciphertext)) => bytes@.len() >= ENVELOPE_HEADER_LEN
                && nonce@ == bytes@.subrange(0, 12) && salt@ == bytes@.subrange(12, 28)
                && ciphertext@ == bytes@.subrange(28, bytes@.len() as int),
            Err(e) => bytes@.len() < ENVELOPE_HEADER_LEN && e == Error::TruncatedEnvelope,
        },
{
    if bytes.len() < ENVELOPE_HEADER_LEN {
        return Err(Error::TruncatedEnvelope);
    }
    let mut nonce: [u8; 12] = [0; 12];
    let mut i: usize = 0;
    while i < NONCE_LEN
        invariant
            bytes@.len() >= ENVELOPE_HEADER_LEN,
            i <= NONCE_LEN,
            forall|k: int| 0 <= k < i ==> nonce@[k] == bytes@[k],
        decreases NONCE_LEN - i,
    {
        nonce[i] = bytes[i];
        i = i + 1;
    }
    let mut salt: [u8; 16] = [0; 16];
    let mut j: usize = 0;
    while j < SALT_LEN
        invariant
            bytes@.len() >= ENVELOPE_HEADER_LEN,
            j <= SALT_LEN,
            forall|k: int| 0 <= k < j ==> salt@[k] == bytes@[NONCE_LEN + k],
        decreases SALT_LEN - j,
    {
        salt[j] = bytes[NONCE_LEN + j];
        j = j + 1;
    }
    let ciphertext = vstd::slice::slice_to_vec(
        vstd::slice::slice_subrange(bytes, ENVELOPE_HEADER_LEN, bytes.len()),
    );
    assert(nonce@ =~= bytes@.subrange(0, 12));
    assert(salt@ =~= bytes@.subrange(12, 28));
    Ok((nonce, salt, ciphertext))
}

/// Encrypts `plaintext` under the key for `password` and `salt`, and packs
/// the envelope. What comes out opens, with the same password, to the
/// plaintext.
pub fn seal_envelope(password: &[u8], salt: &[u8; 16], nonce: &[u8; 12], plaintext: &[u8]) -> (r:
    Result<Vec<u8>, Error>)
    ensures
        bytes_outcome(r) == seal_outcome(password@, salt@, nonce@, plaintext@),
        r matches Ok(e) ==> e@.len() == plaintext@.len() + ENVELOPE_HEADER_LEN + TAG_LEN
            && open_outcome(password@, e@) == Ok::<Seq<u8>, Error>(plaintext@),
{
    let key = derive_key(password, salt)?;
    let ciphertext = seal(&key, nonce, plaintext)?;
    let e = pack_envelope(nonce, salt, ciphertext.as_slice());
    assert(e@.subrange(0, 12) =~= nonce@);
    assert(e@.subrange(12, 28) =~= salt@);
    assert(e@.subrange(28, e@.len() as int) =~= ciphertext@);
    Ok(e)
}

/// Splits `envelope`, derives the key from `password` and the stored salt,
/// and decrypts with the stored nonce. No plaintext comes out of an
/// envelope that does not authenticate.
pub fn open_envelope(password: &[u8], envelope: &[u8]) -> (r: Result<Vec<u8>, Error>)
    ensures
        bytes_outcome(r) == open_outcome(password@, envelope@),
{
    let (nonce, salt, ciphertext) = unpack_envelope(envelope)?;
    let key = derive_key(password, &salt)?;
    open(&key, &nonce, ciphertext.as_slice())
}

} // verus!
