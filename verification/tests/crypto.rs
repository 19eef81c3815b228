use punch::crypto::{CryptoError, SessionKeypair};
use punch::digest::{checksum_hex, hex_encode};

#[test]
fn sha256_checksums() {
    assert_eq!(checksum_hex(b"abc"), "ba7816bf8f01cfea414140de5dae2223b00361a396177a9cb410ff61f20015ad");
    assert_eq!(checksum_hex(b""), "e3b0c44298fc1c149afbf4c8996fb92427ae41e4649b934ca495991b7852b855");
}

#[test]
fn hex_is_lower_case_two_digits_per_byte() {
    assert_eq!(hex_encode(&[0x00, 0x0f, 0xa0, 0xff]), "000fa0ff");
    assert_eq!(hex_encode(&[]), "");
}

fn pair() -> (punch::crypto::SessionCipher, punch::crypto::SessionCipher) {
    let a = SessionKeypair::generate();
    let b = SessionKeypair::generate();
    let pa = a.public_bytes();
    let pb = b.public_bytes();
    assert_ne!(pa, pb);
    (a.derive_shared_secret(pb), b.derive_shared_secret(pa))
}

#[test]
fn both_peers_derive_the_same_key() {
    let (ca, cb) = pair();
    assert_eq!(ca.key, cb.key);
}

#[test]
fn sealed_message_opens() {
    let (ca, cb) = pair();
    let msg = b"punch through";
    let sealed = ca.encrypt(msg).unwrap();
    assert_eq!(sealed.len(), 12 + msg.len() + 16);
    assert_eq!(cb.decrypt(&sealed).unwrap(), msg.to_vec());
    let empty = ca.encrypt(&[]).unwrap();
    assert_eq!(cb.decrypt(&empty).unwrap(), Vec::<u8>::new());
}

#[test]
fn fixed_nonce_goes_in_front() {
    let (ca, cb) = pair();
    let nonce = [7u8; 12];
    let sealed = ca.encrypt_with_nonce(nonce, b"hi").unwrap();
    assert_eq!(&sealed[..12], &nonce);
    assert_eq!(sealed.len(), 12 + 2 + 16);
    assert_eq!(cb.decrypt(&sealed).unwrap(), b"hi".to_vec());
    // Fresh nonces make two seals of one message differ.
    let s1 = ca.encrypt(b"same").unwrap();
    let s2 = ca.encrypt(b"same").unwrap();
    assert_ne!(s1, s2);
}

#[test]
fn tampered_or_short_messages_are_refused() {
    let (ca, cb) = pair();
    let mut sealed = ca.encrypt(b"secret").unwrap();
    let last = sealed.len() - 1;
    sealed[last] ^= 1;
    assert_eq!(cb.decrypt(&sealed), Err(CryptoError::DecryptionFailed));
    assert_eq!(cb.decrypt(&[1, 2, 3]), Err(CryptoError::MessageTooShort));
    assert_eq!(cb.decrypt(&[0u8; 12]), Err(CryptoError::DecryptionFailed));
    let (other, _) = pair();
    let sealed = ca.encrypt(b"secret").unwrap();
    assert_eq!(other.decrypt(&sealed), Err(CryptoError::DecryptionFailed));
}
