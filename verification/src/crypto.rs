//! End-to-end encryption of relayed traffic: an X25519 key agreement whose
//! shared secret keys ChaCha20-Poly1305; every message carries its nonce.

use vstd::prelude::*;
use chacha20poly1305::aead::{Aead, AeadCore, KeyInit, OsRng};
use chacha20poly1305::ChaCha20Poly1305;
use rand::RngCore;

verus! {

#[verifier::external_type_specification]
#[verifier::external_body]
pub struct ExAeadError(chacha20poly1305::Error);

/// The X25519 function of RFC 7748 (what `x25519_dalek::x25519` returns):
/// the u-coordinate of the clamped scalar `k` times the point with
/// u-coordinate `u`, as 32 bytes.
pub uninterp spec fn x25519_spec(k: Seq<u8>, u: Seq<u8>) -> Seq<u8>;

/// The X25519 base point, u = 9.
pub open spec fn basepoint_spec() -> Seq<u8> {
    seq![9u8].add(Seq::new(31, |i: int| 0u8))
}

/// The base point, as bytes.
pub fn basepoint() -> (b: [u8; 32])
    ensures
        b@ == basepoint_spec(),
{
    let b: [u8; 32] = [9u8, 0, 0, 0, 0, 0, 0, 0, 0, 0, 0, 0, 0, 0, 0, 0, 0, 0, 0, 0, 0, 0, 0, 0, 0, 0, 0, 0, 0, 0, 0, 0];
    assert(b@ =~= basepoint_spec());
    b
}

/// Diffie-Hellman agreement for the public key `public` of scalar `k`:
/// every other scalar `b` reaches with `public` the secret that `k`
/// reaches with the public key of `b`.
pub open spec fn dh_agrees(k: Seq<u8>, public: Seq<u8>) -> bool {
    forall|b: Seq<u8>| b.len() == 32 ==> #[trigger] x25519_spec(b, public) == x25519_spec(k, x25519_spec(b, basepoint_spec()))
}

/// The ChaCha20-Poly1305 ciphertext (with its 16-byte tag) of `plaintext`
/// under `key` and `nonce`, without associated data.
pub uninterp spec fn chacha20poly1305_seal(key: Seq<u8>, nonce: Seq<u8>, plaintext: Seq<u8>) -> Seq<u8>;

/// Plaintexts that ChaCha20-Poly1305 accepts: fewer than 2^32 - 1 blocks
/// of 64 bytes.
pub open spec fn sealable(plaintext: Seq<u8>) -> bool {
    plaintext.len() / 64 < 0xffff_ffff
}

/// `r` gives back every accepted plaintext whose seal is `ciphertext`.
pub open spec fn opens_every_seal(r: Result<Vec<u8>, chacha20poly1305::Error>, key: Seq<u8>, nonce: Seq<u8>, ciphertext: Seq<u8>) -> bool {
    forall|p: Seq<u8>| sealable(p) && ciphertext == chacha20poly1305_seal(key, nonce, p) ==> (r matches Ok(q) && q@ == p)
}

/// Fills 32 bytes from `rand::rngs::OsRng` (what
/// `EphemeralSecret::random_from_rng(OsRng)` does for its secret); nothing
/// is claimed of the random bytes.
#[verifier::external_body]
fn random_scalar() -> (k: [u8; 32]) {
    let mut k = [0u8; 32];
    rand::rngs::OsRng.fill_bytes(&mut k);
    k
}

/// Calls `x25519_dalek::x25519(k, u)`. Claims that the result is the
/// X25519 function of its arguments (named `x25519_spec`), and, for the
/// base point, the agreement that the crate's documentation states: any
/// scalar `b` reaches with the result the same secret that `k` reaches
/// with the public key of `b` (both are the u-coordinate of
/// clamp(b) · clamp(k) · B).
#[verifier::external_body]
fn x25519_bytes(k: &[u8; 32], u: &[u8; 32]) -> (r: [u8; 32])
    ensures
        r@ == x25519_spec(k@, u@),
        u@ == basepoint_spec() ==> dh_agrees(k@, r@),
{
    x25519_dalek::x25519(*k, *u)
}

/// Calls `ChaCha20Poly1305::generate_nonce(&mut OsRng)`; nothing is claimed
/// of the random nonce.
#[verifier::external_body]
fn random_nonce() -> (n: [u8; 12]) {
    ChaCha20Poly1305::generate_nonce(&mut OsRng).into()
}

/// Calls `Aead::encrypt` of ChaCha20-Poly1305 under `key` and `nonce`.
/// Claims what the crate's source shows: it fails exactly when the
/// plaintext has 2^32 - 1 or more 64-byte blocks, and otherwise returns the
/// sealed text (`chacha20poly1305_seal`), which is the plaintext's length
/// plus the 16-byte tag.
#[verifier::external_body]
fn seal(key: &[u8; 32], nonce: &[u8; 12], plaintext: &[u8]) -> (r: Result<Vec<u8>, chacha20poly1305::Error>)
    requires
        plaintext@.len() + 16 <= usize::MAX,
    ensures
        r is Ok <==> sealable(plaintext@),
        r matches Ok(c) ==> c@ == chacha20poly1305_seal(key@, nonce@, plaintext@),
        r matches Ok(c) ==> c@.len() == plaintext@.len() + 16,
{
    ChaCha20Poly1305::new(key.into()).encrypt(nonce.into(), plaintext)
}

/// Calls `Aead::decrypt` of ChaCha20-Poly1305 under `key` and `nonce`.
/// Claims that it returns a plaintext only when the ciphertext is exactly
/// the seal of that plaintext, and that the seal of any accepted plaintext
/// opens to it (encryption is deterministic and the tag is checked); the
/// plaintext is the ciphertext without its 16-byte tag.
#[verifier::external_body]
fn open(key: &[u8; 32], nonce: &[u8; 12], ciphertext: &[u8]) -> (r: Result<Vec<u8>, chacha20poly1305::Error>)
    ensures
        r matches Ok(p) ==> sealable(p@) && ciphertext@ == chacha20poly1305_seal(key@, nonce@, p@),
        r matches Ok(p) ==> p@.len() + 16 == ciphertext@.len(),
        opens_every_seal(r, key@, nonce@, ciphertext@),
{
    ChaCha20Poly1305::new(key.into()).decrypt(nonce.into(), ciphertext)
}

/// A one-time key pair for one session; the secret is consumed by the key
/// agreement and can never be reused.
pub struct SessionKeypair {
    secret: [u8; 32],
    public: [u8; 32],
}

impl SessionKeypair {
    /// The secret scalar of this pair.
    pub closed spec fn secret_scalar(&self) -> Seq<u8> {
        self.secret@
    }

    /// The public key of this pair.
    pub closed spec fn public_key(&self) -> Seq<u8> {
        self.public@
    }

    /// The public key is the X25519 public key of the pair's own secret,
    /// and agrees with every other key pair.
    pub open spec fn well_formed(&self) -> bool {
        &&& self.secret_scalar().len() == 32
        &&& self.public_key() == x25519_spec(self.secret_scalar(), basepoint_spec())
        &&& dh_agrees(self.secret_scalar(), self.public_key())
    }

    /// A fresh key pair: a random secret and its public key.
    pub fn generate() -> (k: SessionKeypair)
        ensures
            k.well_formed(),
    {
        let secret = random_scalar();
        let base = basepoint();
        let public = x25519_bytes(&secret, &base);
        SessionKeypair { secret, public }
    }

    /// Derives the session cipher from our secret and the peer's public key.
    pub fn derive_shared_secret(self, peer_public: [u8; 32]) -> (c: SessionCipher)
        ensures
            c.key@ == x25519_spec(self.secret_scalar(), peer_public@),
    {
        let key = x25519_bytes(&self.secret, &peer_public);
        SessionCipher { key }
    }

    /// Our public key, to send to the peer.
    pub fn public_bytes(&self) -> (b: [u8; 32])
        ensures
            b@ == self.public_key(),
    {
        self.public
    }
}

/// Both peers derive the same key: each combines its own secret with the
/// other's public key, and only the public keys cross the network.
pub proof fn both_peers_derive_the_same_key(a: SessionKeypair, b: SessionKeypair)
    requires
        a.well_formed(),
        b.well_formed(),
    ensures
        x25519_spec(a.secret_scalar(), b.public_key()) == x25519_spec(b.secret_scalar(), a.public_key()),
{
    assert(x25519_spec(a.secret_scalar(), b.public_key()) == x25519_spec(
        b.secret_scalar(),
        x25519_spec(a.secret_scalar(), basepoint_spec()),
    ));
}

/// The symmetric cipher derived from the shared secret.
pub struct SessionCipher {
    pub key: [u8; 32],
}

/// Why a message could not be sealed or opened.
#[derive(Clone, Copy, Debug, PartialEq, Eq, Structural)]
pub enum CryptoError {
    EncryptionFailed,
    /// Shorter than the 12-byte nonce.
    MessageTooShort,
    /// Wrong key, or the message was changed.
    DecryptionFailed,
}

/// `data` is `nonce ++ seal(key, nonce, p)` for the nonce at its front.
pub open spec fn opens_to(key: Seq<u8>, data: Seq<u8>, p: Seq<u8>) -> bool {
    &&& data.len() >= 12
    &&& sealable(p)
    &&& data.skip(12) == chacha20poly1305_seal(key, data.take(12), p)
}

impl SessionCipher {
    /// Seals `plaintext` under `nonce`; the output is the nonce followed by
    /// the ciphertext.
    pub fn encrypt_with_nonce(&self, nonce: [u8; 12], plaintext: &[u8]) -> (r: Result<Vec<u8>, CryptoError>)
        requires
            plaintext@.len() + 16 <= usize::MAX,
        ensures
            r is Ok <==> sealable(plaintext@),
            r matches Ok(out) ==> out@ == nonce@ + chacha20poly1305_seal(self.key@, nonce@, plaintext@),
            r is Err ==> r == Err::<Vec<u8>, CryptoError>(CryptoError::EncryptionFailed),
    {
        match seal(&self.key, &nonce, plaintext) {
            Ok(ct) => {
                let mut out: Vec<u8> = Vec::new();
                let mut i: usize = 0;
                while i < 12
                    invariant
                        i <= 12,
                        out@ == nonce@.take(i as int),
                    decreases 12 - i,
                {
                    out.push(nonce[i]);
                    i = i + 1;
                    assert(out@ =~= nonce@.take(i as int));
                }
                let mut j: usize = 0;
                while j < ct.len()
                    invariant
                        j <= ct@.len(),
                        out@ == nonce@ + ct@.take(j as int),
                    decreases ct@.len() - j,
                {
                    out.push(ct[j]);
                    j = j + 1;
                    assert(out@ =~= nonce@ + ct@.take(j as int));
                }
                assert(ct@.take(ct@.len() as int) == ct@);
                assert(nonce@.take(12) == nonce@);
                Ok(out)
            },
            Err(_) => Err(CryptoError::EncryptionFailed),
        }
    }

    /// Seals `plaintext` under a fresh random nonce; the output is the nonce
    /// followed by the ciphertext.
    pub fn encrypt(&self, plaintext: &[u8]) -> (r: Result<Vec<u8>, CryptoError>)
        requires
            plaintext@.len() + 16 <= usize::MAX,
        ensures
            r is Ok <==> sealable(plaintext@),
            r matches Ok(out) ==> opens_to(self.key@, out@, plaintext@),
    {
        let nonce = random_nonce();
        let r = self.encrypt_with_nonce(nonce, plaintext);
        proof {
            if sealable(plaintext@) {
                sealed_message_opens(self.key@, nonce@, plaintext@);
            }
        }
        r
    }

    /// Opens a message made by `encrypt`: the first 12 bytes are the nonce.
    pub fn decrypt(&self, data: &[u8]) -> (r: Result<Vec<u8>, CryptoError>)
        ensures
            data@.len() < 12 ==> r == Err::<Vec<u8>, CryptoError>(CryptoError::MessageTooShort),
            r matches Ok(p) ==> opens_to(self.key@, data@, p@),
            r matches Ok(p) ==> p@.len() + 28 == data@.len(),
            forall|p: Seq<u8>| opens_to(self.key@, data@, p) ==> (r matches Ok(q) && q@ == p),
            data@.len() >= 12 && r is Err ==> r == Err::<Vec<u8>, CryptoError>(CryptoError::DecryptionFailed),
    {
        if data.len() < 12 {
            return Err(CryptoError::MessageTooShort);
        }
        let nonce: [u8; 12] = [
            data[0], data[1], data[2], data[3], data[4], data[5],
            data[6], data[7], data[8], data[9], data[10], data[11],
        ];
        assert(nonce@ =~= data@.take(12));
        let mut ct: Vec<u8> = Vec::new();
        let mut i: usize = 12;
        while i < data.len()
            invariant
                12 <= i <= data@.len(),
                ct@ == data@.subrange(12, i as int),
            decreases data@.len() - i,
        {
            ct.push(data[i]);
            i = i + 1;
            assert(ct@ =~= data@.subrange(12, i as int));
        }
        assert(ct@ =~= data@.skip(12));
        match open(&self.key, &nonce, ct.as_slice()) {
            Ok(p) => Ok(p),
            Err(_) => Err(CryptoError::DecryptionFailed),
        }
    }
}

/// A message sealed under some nonce, with that nonce in front, opens to
/// the plaintext that was sealed, under the same key: what one side encrypts the
/// other side decrypts, unchanged.
pub proof fn sealed_message_opens(key: Seq<u8>, nonce: Seq<u8>, p: Seq<u8>)
    requires
        nonce.len() == 12,
        sealable(p),
    ensures
        opens_to(key, nonce + chacha20poly1305_seal(key, nonce, p), p),
{
    let d = nonce + chacha20poly1305_seal(key, nonce, p);
    assert(d.take(12) =~= nonce);
    assert(d.skip(12) =~= chacha20poly1305_seal(key, nonce, p));
}

/// What one peer seals under its derived key, the other peer opens under
/// its own: the relay carries end-to-end encrypted traffic both ways.
pub proof fn what_one_peer_seals_the_other_opens(a: SessionKeypair, b: SessionKeypair, data: Seq<u8>, p: Seq<u8>)
    requires
        a.well_formed(),
        b.well_formed(),
        opens_to(x25519_spec(a.secret_scalar(), b.public_key()), data, p),
    ensures
        opens_to(x25519_spec(b.secret_scalar(), a.public_key()), data, p),
{
    both_peers_derive_the_same_key(a, b);
}

} // verus!
