use pnghider::envelope::{
    derive_key, open, open_envelope, pack_envelope, seal, seal_envelope, unpack_envelope,
};
use pnghider::Error;

const SALT: [u8; 16] = [7; 16];
const NONCE: [u8; 12] = [3; 12];

#[test]
fn pack_and_unpack_envelope() {
    let e = pack_envelope(&NONCE, &SALT, &[1, 2, 3]);
    assert_eq!(31, e.len());
    assert_eq!(&e[0..12], &NONCE);
    assert_eq!(&e[12..28], &SALT);
    assert_eq!(&e[28..], &[1, 2, 3]);
    let (n, s, c) = unpack_envelope(&e).unwrap();
    assert_eq!(NONCE, n);
    assert_eq!(SALT, s);
    assert_eq!(vec![1, 2, 3], c);
}

#[test]
fn unpack_rejects_truncated_envelope() {
    assert_eq!(Err(Error::TruncatedEnvelope), unpack_envelope(&[0u8; 27]).map(|_| ()));
    let (_, _, c) = unpack_envelope(&[0u8; 28]).unwrap();
    assert!(c.is_empty());
}

#[test]
fn derive_key_depends_on_password_and_salt() {
    let k1 = derive_key(b"secret", &SALT).unwrap();
    let k2 = derive_key(b"secret", &SALT).unwrap();
    let k3 = derive_key(b"secret", &[8; 16]).unwrap();
    assert_eq!(k1, k2);
    assert_ne!(k1, k3);
    assert_ne!([0u8; 32], k1);
}

#[test]
fn seal_then_open_gives_plaintext() {
    let key = [42u8; 32];
    let c = seal(&key, &NONCE, b"ABC").unwrap();
    assert_eq!(3 + 16, c.len());
    assert_ne!(b"ABC".to_vec(), c[0..3].to_vec());
    assert_eq!(Ok(b"ABC".to_vec()), open(&key, &NONCE, &c));
}

#[test]
fn open_with_wrong_key_or_nonce_fails() {
    let key = [42u8; 32];
    let c = seal(&key, &NONCE, b"payload").unwrap();
    assert_eq!(Err(Error::AuthenticationFailed), open(&[43u8; 32], &NONCE, &c));
    assert_eq!(Err(Error::AuthenticationFailed), open(&key, &[4u8; 12], &c));
}

#[test]
fn open_detects_each_corrupted_byte() {
    let key = [42u8; 32];
    let c = seal(&key, &NONCE, b"payload").unwrap();
    for i in 0..c.len() {
        let mut d = c.clone();
        d[i] ^= 0x80;
        assert_eq!(Err(Error::AuthenticationFailed), open(&key, &NONCE, &d));
    }
    assert_eq!(Err(Error::AuthenticationFailed), open(&key, &NONCE, &c[..10]));
}

#[test]
fn envelope_round_trip_with_password() {
    let e = seal_envelope(b"secret", &SALT, &NONCE, b"hidden text").unwrap();
    assert_eq!(11 + 28 + 16, e.len());
    assert_eq!(&e[0..12], &NONCE);
    assert_eq!(&e[12..28], &SALT);
    assert_eq!(Ok(b"hidden text".to_vec()), open_envelope(b"secret", &e));
}

#[test]
fn envelope_with_wrong_password_fails() {
    let e = seal_envelope(b"secret", &SALT, &NONCE, b"hidden text").unwrap();
    assert_eq!(Err(Error::AuthenticationFailed), open_envelope(b"wrong", &e));
    assert_eq!(Err(Error::TruncatedEnvelope), open_envelope(b"secret", &e[..20]));
}

#[test]
fn empty_payload_round_trip() {
    let e = seal_envelope(b"", &SALT, &NONCE, b"").unwrap();
    assert_eq!(44, e.len());
    assert_eq!(Ok(Vec::new()), open_envelope(b"", &e));
}
