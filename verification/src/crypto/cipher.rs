//! The two supported authenticated ciphers, with a nonce that is derived
//! from the sealing device and its clock counter.

use aes_gcm::aead::{Aead, KeyInit};
use sha2::Digest;
use vstd::prelude::*;
use vstd::utf8::encode_utf8;

verus! {

/// The cipher that sealed an event file.
#[derive(Debug, Clone, Copy, PartialEq, Eq, Structural)]
pub enum Cipher {
    Aes256Gcm,
    XChaCha20Poly1305,
}

/// Why sealing or opening failed. Opening gives no detail: a wrong key, a
/// wrong nonce length and altered bytes all look the same.
#[derive(Debug, Clone, Copy, PartialEq, Eq, Structural)]
pub enum CipherError {
    /// The plaintext is longer than the cipher can seal under one nonce.
    PlaintextTooLong,
    /// The ciphertext did not open.
    DecryptionFailed,
}

/// The cipher that a selector byte stands for.
pub open spec fn cipher_of_byte(b: u8) -> Option<Cipher> {
    if b == 1 {
        Some(Cipher::Aes256Gcm)
    } else if b == 2 {
        Some(Cipher::XChaCha20Poly1305)
    } else {
        None
    }
}

/// Length of the authentication tag that both ciphers append.
pub const TAG_SIZE: usize = 16;

impl Cipher {
    /// The selector byte of this cipher.
    pub open spec fn selector(self) -> u8 {
        match self {
            Cipher::Aes256Gcm => 1,
            Cipher::XChaCha20Poly1305 => 2,
        }
    }

    /// The nonce length of this cipher, in bytes.
    pub open spec fn nonce_len(self) -> nat {
        match self {
            Cipher::Aes256Gcm => 12,
            Cipher::XChaCha20Poly1305 => 24,
        }
    }

    /// True when a plaintext of `len` bytes can be sealed under one nonce.
    pub open spec fn seals(self, len: nat) -> bool {
        match self {
            Cipher::Aes256Gcm => len <= 0x10_0000_0000,
            Cipher::XChaCha20Poly1305 => len / 64 < 0xffff_ffff,
        }
    }

    /// Reads a selector byte.
    pub fn from_byte(b: u8) -> (r: Option<Self>)
        ensures
            r == cipher_of_byte(b),
    {
        match b {
            1 => Some(Cipher::Aes256Gcm),
            2 => Some(Cipher::XChaCha20Poly1305),
            _ => None,
        }
    }

    /// The selector byte of this cipher.
    pub fn to_byte(&self) -> (b: u8)
        ensures
            b == self.selector(),
            cipher_of_byte(b) == Some(*self),
    {
        match self {
            Cipher::Aes256Gcm => 1,
            Cipher::XChaCha20Poly1305 => 2,
        }
    }

    /// The nonce length of this cipher, in bytes.
    pub fn nonce_size(&self) -> (n: usize)
        ensures
            n == self.nonce_len(),
    {
        match self {
            Cipher::Aes256Gcm => 12,
            Cipher::XChaCha20Poly1305 => 24,
        }
    }
}

/// The cipher to seal with: AES when the processor accelerates it,
/// XChaCha20 otherwise.
pub fn detect_preferred_cipher(aes_accelerated: bool) -> (c: Cipher)
    ensures
        c == (if aes_accelerated {
            Cipher::Aes256Gcm
        } else {
            Cipher::XChaCha20Poly1305
        }),
{
    if aes_accelerated {
        Cipher::Aes256Gcm
    } else {
        Cipher::XChaCha20Poly1305
    }
}

/// The SHA-256 digest of a byte string.
pub uninterp spec fn sha256_digest(data: Seq<u8>) -> Seq<u8>;

/// What AES-256-GCM seals `plaintext` to under `key` and `nonce`, the tag
/// appended.
pub uninterp spec fn aes256gcm_sealed(key: Seq<u8>, nonce: Seq<u8>, plaintext: Seq<u8>) -> Seq<
    u8,
>;

/// What AES-256-GCM opens `ciphertext` to under `key` and `nonce`; none
/// when the tag does not match.
pub uninterp spec fn aes256gcm_opened(key: Seq<u8>, nonce: Seq<u8>, ciphertext: Seq<u8>) -> Option<
    Seq<u8>,
>;

/// What XChaCha20-Poly1305 seals `plaintext` to under `key` and `nonce`,
/// the tag appended.
pub uninterp spec fn xchacha20poly1305_sealed(
    key: Seq<u8>,
    nonce: Seq<u8>,
    plaintext: Seq<u8>,
) -> Seq<u8>;

/// What XChaCha20-Poly1305 opens `ciphertext` to under `key` and `nonce`;
/// none when the tag does not match.
pub uninterp spec fn xchacha20poly1305_opened(
    key: Seq<u8>,
    nonce: Seq<u8>,
    ciphertext: Seq<u8>,
) -> Option<Seq<u8>>;

/// Hashes `data` with SHA-256.
///
/// Trusted: calls `sha2::Sha256::digest`. The contract names the digest,
/// which depends on the input alone; its 32 bytes are the array's length.
#[verifier::external_body]
pub(crate) fn sha256(data: &[u8]) -> (digest: [u8; 32])
    ensures
        digest@ == sha256_digest(data@),
{
    sha2::Sha256::digest(data).into()
}

/// Seals `plaintext` with AES-256-GCM and no associated data.
///
/// Trusted: calls `Aes256Gcm::new_from_slice` and `Aead::encrypt` of
/// `aes-gcm`. The call fails exactly when the plaintext exceeds the
/// cipher's limit of 2^36 bytes; otherwise it returns the sealed bytes,
/// sixteen longer than the plaintext, which open again to the plaintext
/// under the same key and nonce.
#[verifier::external_body]
pub(crate) fn aes256gcm_seal(key: &[u8; 32], nonce: &[u8], plaintext: &[u8]) -> (r: Option<
    Vec<u8>,
>)
    requires
        nonce@.len() == 12,
    ensures
        r is Some <==> plaintext@.len() <= 0x10_0000_0000,
        r matches Some(sealed) ==> sealed@ == aes256gcm_sealed(key@, nonce@, plaintext@)
            && sealed@.len() == plaintext@.len() + 16 && aes256gcm_opened(key@, nonce@, sealed@)
            == Some(plaintext@),
{
    let cipher = aes_gcm::Aes256Gcm::new_from_slice(key).ok()?;
    cipher.encrypt(aes_gcm::Nonce::from_slice(nonce), plaintext).ok()
}

/// Opens `ciphertext` with AES-256-GCM and no associated data.
///
/// Trusted: calls `Aes256Gcm::new_from_slice` and `Aead::decrypt` of
/// `aes-gcm`. The contract names the outcome, which depends on the three
/// inputs alone.
#[verifier::external_body]
pub(crate) fn aes256gcm_open(key: &[u8; 32], nonce: &[u8], ciphertext: &[u8]) -> (r: Option<
    Vec<u8>,
>)
    requires
        nonce@.len() == 12,
    ensures
        r.deep_view() == aes256gcm_opened(key@, nonce@, ciphertext@),
{
    let cipher = aes_gcm::Aes256Gcm::new_from_slice(key).ok()?;
    cipher.decrypt(aes_gcm::Nonce::from_slice(nonce), ciphertext).ok()
}

/// Seals `plaintext` with XChaCha20-Poly1305 and no associated data.
///
/// Trusted: calls `XChaCha20Poly1305::new_from_slice` and `Aead::encrypt`
/// of `chacha20poly1305`. The call fails exactly when the plaintext spans
/// 2^32 - 1 blocks of 64 bytes or more; otherwise it returns the sealed
/// bytes, sixteen longer than the plaintext, which open again to the
/// plaintext under the same key and nonce.
#[verifier::external_body]
pub(crate) fn xchacha20poly1305_seal(key: &[u8; 32], nonce: &[u8], plaintext: &[u8]) -> (r:
    Option<Vec<u8>>)
    requires
        nonce@.len() == 24,
    ensures
        r is Some <==> plaintext@.len() / 64 < 0xffff_ffff,
        r matches Some(sealed) ==> sealed@ == xchacha20poly1305_sealed(
            key@,
            nonce@,
            plaintext@,
        ) && sealed@.len() == plaintext@.len() + 16 && xchacha20poly1305_opened(
            key@,
            nonce@,
            sealed@,
        ) == Some(plaintext@),
{
    let cipher = chacha20poly1305::XChaCha20Poly1305::new_from_slice(key).ok()?;
    cipher.encrypt(chacha20poly1305::XNonce::from_slice(nonce), plaintext).ok()
}

/// Opens `ciphertext` with XChaCha20-Poly1305 and no associated data.
///
/// Trusted: calls `XChaCha20Poly1305::new_from_slice` and `Aead::decrypt`
/// of `chacha20poly1305`. The contract names the outcome, which depends on
/// the three inputs alone.
#[verifier::external_body]
pub(crate) fn xchacha20poly1305_open(key: &[u8; 32], nonce: &[u8], ciphertext: &[u8]) -> (r:
    Option<Vec<u8>>)
    requires
        nonce@.len() == 24,
    ensures
        r.deep_view() == xchacha20poly1305_opened(key@, nonce@, ciphertext@),
{
    let cipher = chacha20poly1305::XChaCha20Poly1305::new_from_slice(key).ok()?;
    cipher.decrypt(chacha20poly1305::XNonce::from_slice(nonce), ciphertext).ok()
}

/// Byte `i` of the big-endian form of `counter`, for `i` from 0 to 7.
pub open spec fn be_byte(counter: u64, i: int) -> u8 {
    ((counter >> ((56 - 8 * i) as u64)) & 0xff) as u8
}

/// The eight bytes of `counter`, most significant first.
pub open spec fn be_bytes(counter: u64) -> Seq<u8> {
    Seq::new(8, |i: int| be_byte(counter, i))
}

/// The nonce prefix of a device: the leading bytes of the SHA-256 digest
/// of its identifier, as many as the cipher's nonce leaves beside the
/// counter.
pub open spec fn device_prefix(cipher: Cipher, device_id: Seq<char>) -> Seq<u8> {
    sha256_digest(encode_utf8(device_id)).subrange(0, cipher.nonce_len() - 8)
}

/// The nonce under which `device_id` seals at clock counter `counter`.
pub open spec fn derived_nonce(cipher: Cipher, device_id: Seq<char>, counter: u64) -> Seq<u8> {
    device_prefix(cipher, device_id) + be_bytes(counter)
}

/// What `cipher` seals `plaintext` to.
pub open spec fn sealed(cipher: Cipher, key: Seq<u8>, nonce: Seq<u8>, plaintext: Seq<u8>) -> Seq<
    u8,
> {
    match cipher {
        Cipher::Aes256Gcm => aes256gcm_sealed(key, nonce, plaintext),
        Cipher::XChaCha20Poly1305 => xchacha20poly1305_sealed(key, nonce, plaintext),
    }
}

/// What `cipher` opens `ciphertext` to: none when the nonce has the wrong
/// length or the tag does not match.
pub open spec fn opened(cipher: Cipher, key: Seq<u8>, nonce: Seq<u8>, ciphertext: Seq<u8>) -> Option<
    Seq<u8>,
> {
    if nonce.len() != cipher.nonce_len() {
        None
    } else {
        match cipher {
            Cipher::Aes256Gcm => aes256gcm_opened(key, nonce, ciphertext),
            Cipher::XChaCha20Poly1305 => xchacha20poly1305_opened(key, nonce, ciphertext),
        }
    }
}

/// The eight bytes of `counter`, most significant first.
fn counter_bytes(counter: u64) -> (r: [u8; 8])
    ensures
        r@ == be_bytes(counter),
{
    let r: [u8; 8] = [
        ((counter >> 56) & 0xff) as u8,
        ((counter >> 48) & 0xff) as u8,
        ((counter >> 40) & 0xff) as u8,
        ((counter >> 32) & 0xff) as u8,
        ((counter >> 24) & 0xff) as u8,
        ((counter >> 16) & 0xff) as u8,
        ((counter >> 8) & 0xff) as u8,
        (counter & 0xff) as u8,
    ];
    proof {
        assert((counter >> 0) == counter) by (bit_vector);
        assert(r@ =~= be_bytes(counter));
    }
    r
}

/// Derives the nonce of `cipher` for a device and its counter.
pub fn derive_nonce(cipher: Cipher, device_id: &str, counter: u64) -> (nonce: Vec<u8>)
    ensures
        nonce@ == derived_nonce(cipher, device_id@, counter),
        nonce@.len() == cipher.nonce_len(),
{
    let digest = sha256(device_id.as_bytes());
    let tail = counter_bytes(counter);
    let prefix_len = cipher.nonce_size() - 8;
    let mut nonce: Vec<u8> = Vec::new();
    let mut i: usize = 0;
    while i < prefix_len
        invariant
            i <= prefix_len,
            prefix_len <= 32,
            nonce@ == digest@.subrange(0, i as int),
        decreases prefix_len - i,
    {
        nonce.push(digest[i]);
        proof {
            assert(nonce@ =~= digest@.subrange(0, i + 1));
        }
        i += 1;
    }
    let mut j: usize = 0;
    while j < 8
        invariant
            j <= 8,
            nonce@ == digest@.subrange(0, prefix_len as int) + tail@.subrange(0, j as int),
        decreases 8 - j,
    {
        nonce.push(tail[j]);
        proof {
            assert(nonce@ =~= digest@.subrange(0, prefix_len as int) + tail@.subrange(
                0,
                j + 1,
            ));
        }
        j += 1;
    }
    proof {
        assert(tail@.subrange(0, 8) =~= tail@);
    }
    nonce
}

/// The 12-byte nonce of AES-256-GCM for a device and its counter.
pub fn derive_nonce_aes(device_id: &str, counter: u64) -> (nonce: [u8; 12])
    ensures
        nonce@ == derived_nonce(Cipher::Aes256Gcm, device_id@, counter),
{
    let bytes = derive_nonce(Cipher::Aes256Gcm, device_id, counter);
    let mut nonce = [0u8; 12];
    let mut i: usize = 0;
    while i < 12
        invariant
            i <= 12,
            bytes@.len() == 12,
            forall|j: int| 0 <= j < i ==> nonce@[j] == bytes@[j],
        decreases 12 - i,
    {
        nonce[i] = bytes[i];
        i += 1;
    }
    proof {
        assert(nonce@ =~= bytes@);
    }
    nonce
}

/// The 24-byte nonce of XChaCha20-Poly1305 for a device and its counter.
pub fn derive_nonce_xchacha(device_id: &str, counter: u64) -> (nonce: [u8; 24])
    ensures
        nonce@ == derived_nonce(Cipher::XChaCha20Poly1305, device_id@, counter),
{
    let bytes = derive_nonce(Cipher::XChaCha20Poly1305, device_id, counter);
    let mut nonce = [0u8; 24];
    let mut i: usize = 0;
    while i < 24
        invariant
            i <= 24,
            bytes@.len() == 24,
            forall|j: int| 0 <= j < i ==> nonce@[j] == bytes@[j],
        decreases 24 - i,
    {
        nonce[i] = bytes[i];
        i += 1;
    }
    proof {
        assert(nonce@ =~= bytes@);
    }
    nonce
}

/// Seals `plaintext` under the nonce derived from the device and its
/// counter. Returns the nonce and the sealed bytes, which open again to
/// the plaintext; fails exactly when the plaintext is too long for the
/// cipher.
pub fn encrypt(
    cipher: Cipher,
    key: &[u8; 32],
    device_id: &str,
    counter: u64,
    plaintext: &[u8],
) -> (r: Result<(Vec<u8>, Vec<u8>), CipherError>)
    ensures
        r is Ok <==> cipher.seals(plaintext@.len()),
        r matches Ok((nonce, ciphertext)) ==> {
            &&& nonce@ == derived_nonce(cipher, device_id@, counter)
            &&& nonce@.len() == cipher.nonce_len()
            &&& ciphertext@ == sealed(cipher, key@, nonce@, plaintext@)
            &&& ciphertext@.len() == plaintext@.len() + 16
            &&& opened(cipher, key@, nonce@, ciphertext@) == Some(plaintext@)
        },
        r matches Err(e) ==> e == CipherError::PlaintextTooLong,
{
    let nonce = derive_nonce(cipher, device_id, counter);
    let outcome = match cipher {
        Cipher::Aes256Gcm => aes256gcm_seal(key, nonce.as_slice(), plaintext),
        Cipher::XChaCha20Poly1305 => xchacha20poly1305_seal(key, nonce.as_slice(), plaintext),
    };
    match outcome {
        Some(ciphertext) => Ok((nonce, ciphertext)),
        None => Err(CipherError::PlaintextTooLong),
    }
}

/// Opens `ciphertext`. Succeeds exactly when the nonce has the cipher's
/// length and the bytes open under the key.
pub fn decrypt(cipher: Cipher, key: &[u8; 32], nonce: &[u8], ciphertext: &[u8]) -> (r: Result<
    Vec<u8>,
    CipherError,
>)
    ensures
        match opened(cipher, key@, nonce@, ciphertext@) {
            Some(plaintext) => r matches Ok(p) && p@ == plaintext,
            None => r == Err::<Vec<u8>, CipherError>(CipherError::DecryptionFailed),
        },
{
    if nonce.len() != cipher.nonce_size() {
        return Err(CipherError::DecryptionFailed);
    }
    let outcome = match cipher {
        Cipher::Aes256Gcm => aes256gcm_open(key, nonce, ciphertext),
        Cipher::XChaCha20Poly1305 => xchacha20poly1305_open(key, nonce, ciphertext),
    };
    match outcome {
        Some(plaintext) => Ok(plaintext),
        None => Err(CipherError::DecryptionFailed),
    }
}

/// Two counters with the same big-endian bytes are the same counter.
pub proof fn lemma_be_bytes_injective(c1: u64, c2: u64)
    requires
        be_bytes(c1) == be_bytes(c2),
    ensures
        c1 == c2,
{
    assert(be_bytes(c1)[0] == be_byte(c1, 0) && be_bytes(c2)[0] == be_byte(c2, 0));
    assert(be_bytes(c1)[1] == be_byte(c1, 1) && be_bytes(c2)[1] == be_byte(c2, 1));
    assert(be_bytes(c1)[2] == be_byte(c1, 2) && be_bytes(c2)[2] == be_byte(c2, 2));
    assert(be_bytes(c1)[3] == be_byte(c1, 3) && be_bytes(c2)[3] == be_byte(c2, 3));
    assert(be_bytes(c1)[4] == be_byte(c1, 4) && be_bytes(c2)[4] == be_byte(c2, 4));
    assert(be_bytes(c1)[5] == be_byte(c1, 5) && be_bytes(c2)[5] == be_byte(c2, 5));
    assert(be_bytes(c1)[6] == be_byte(c1, 6) && be_bytes(c2)[6] == be_byte(c2, 6));
    assert(be_bytes(c1)[7] == be_byte(c1, 7) && be_bytes(c2)[7] == be_byte(c2, 7));
    assert(c1 == c2) by (bit_vector)
        requires
            ((c1 >> 56) & 0xff) as u8 == ((c2 >> 56) & 0xff) as u8,
            ((c1 >> 48) & 0xff) as u8 == ((c2 >> 48) & 0xff) as u8,
            ((c1 >> 40) & 0xff) as u8 == ((c2 >> 40) & 0xff) as u8,
            ((c1 >> 32) & 0xff) as u8 == ((c2 >> 32) & 0xff) as u8,
            ((c1 >> 24) & 0xff) as u8 == ((c2 >> 24) & 0xff) as u8,
            ((c1 >> 16) & 0xff) as u8 == ((c2 >> 16) & 0xff) as u8,
            ((c1 >> 8) & 0xff) as u8 == ((c2 >> 8) & 0xff) as u8,
            ((c1 >> 0) & 0xff) as u8 == ((c2 >> 0) & 0xff) as u8,
    ;
}

/// The nonce of a device is a function of its identifier and counter, and
/// distinct counters of one device never share a nonce.
pub proof fn law_nonce_never_repeats(cipher: Cipher, device_id: Seq<char>, c1: u64, c2: u64)
    ensures
        c1 == c2 ==> derived_nonce(cipher, device_id, c1) == derived_nonce(cipher, device_id, c2),
        c1 != c2 ==> derived_nonce(cipher, device_id, c1) != derived_nonce(cipher, device_id, c2),
{
    if derived_nonce(cipher, device_id, c1) == derived_nonce(cipher, device_id, c2) {
        let p = device_prefix(cipher, device_id);
        let n1 = p + be_bytes(c1);
        let n2 = p + be_bytes(c2);
        assert forall|i: int| 0 <= i < 8 implies be_bytes(c1)[i] == be_bytes(c2)[i] by {
            assert(n1[p.len() + i] == be_bytes(c1)[i]);
            assert(n2[p.len() + i] == be_bytes(c2)[i]);
        }
        assert(be_bytes(c1) =~= be_bytes(c2));
        lemma_be_bytes_injective(c1, c2);
    }
}

} // verus!
