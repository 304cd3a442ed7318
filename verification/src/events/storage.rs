//! The sealed event file: a fixed header, the nonce, and the
//! authenticated ciphertext to the end of the file.

use vstd::prelude::*;
use crate::crypto::cipher::{
    cipher_of_byte, decrypt, derived_nonce, encrypt, opened, sealed, Cipher,
};
use crate::crypto::keypair::PublicKey;

verus! {

/// The format version that this library reads and writes.
pub const EVENT_VERSION: u8 = 2;

/// Length of the header before the nonce: magic, version, cipher
/// selector, sender key and nonce length.
pub const HEADER_LEN: usize = 39;

/// The four magic bytes, `WOLF`.
pub open spec fn event_magic() -> Seq<u8> {
    seq![0x57u8, 0x4fu8, 0x4cu8, 0x46u8]
}

/// What can go wrong with the event log.
#[derive(Debug, Clone, Copy, PartialEq, Eq, Structural)]
pub enum LogError {
    /// An empty list of events was handed to the writer.
    EmptyBatch,
    /// A file lacks the magic bytes, has an unsupported version or an
    /// unknown cipher selector, or ends inside a fixed field.
    CorruptLogFile,
    /// A file did not open under the group secret.
    GroupKeyMismatchOrTamper,
    /// The batch is longer than the cipher can seal.
    BatchTooLarge,
    /// The clock counter or the event numbers of the device are used up.
    CounterExhausted,
}

/// A sealed batch of envelopes.
#[derive(Debug)]
pub struct EventFile {
    pub cipher: Cipher,
    pub sender_public_key: PublicKey,
    pub nonce: Vec<u8>,
    pub ciphertext: Vec<u8>,
}

/// An event file as plain data.
pub struct EventFileView {
    pub cipher: Cipher,
    pub sender_public_key: Seq<u8>,
    pub nonce: Seq<u8>,
    pub ciphertext: Seq<u8>,
}

impl View for EventFile {
    type V = EventFileView;

    open spec fn view(&self) -> EventFileView {
        EventFileView {
            cipher: self.cipher,
            sender_public_key: self.sender_public_key@,
            nonce: self.nonce@,
            ciphertext: self.ciphertext@,
        }
    }
}

/// The bytes of an event file.
pub open spec fn encoded(f: EventFileView) -> Seq<u8> {
    event_magic() + seq![EVENT_VERSION, f.cipher.selector()] + f.sender_public_key + seq![
        f.nonce.len() as u8,
    ] + f.nonce + f.ciphertext
}

/// True when `bytes` start with a complete, supported header and hold the
/// whole nonce.
pub open spec fn is_event_file(bytes: Seq<u8>) -> bool {
    &&& bytes.len() >= 39
    &&& bytes.subrange(0, 4) == event_magic()
    &&& bytes[4] == EVENT_VERSION
    &&& cipher_of_byte(bytes[5]) is Some
    &&& bytes.len() >= 39 + bytes[38]
}

/// The event file that `bytes` hold, or the reason why they hold none.
pub open spec fn decoded(bytes: Seq<u8>) -> Result<EventFileView, LogError> {
    if is_event_file(bytes) {
        Ok(
            EventFileView {
                cipher: cipher_of_byte(bytes[5])->0,
                sender_public_key: bytes.subrange(6, 38),
                nonce: bytes.subrange(39, 39 + bytes[38]),
                ciphertext: bytes.subrange(39 + bytes[38], bytes.len() as int),
            },
        )
    } else {
        Err(LogError::CorruptLogFile)
    }
}

impl EventFile {
    /// Seals `plaintext`, the serialised envelopes of one batch, under the
    /// nonce derived from the device and its counter. Fails exactly when
    /// the plaintext is too long for the cipher.
    pub fn new(
        sender_public_key: PublicKey,
        device_id: &str,
        counter: u64,
        shared_secret: &[u8; 32],
        plaintext: &[u8],
        cipher: Cipher,
    ) -> (r: Result<Self, LogError>)
        ensures
            r is Ok <==> cipher.seals(plaintext@.len()),
            r matches Ok(f) ==> {
                &&& f@.cipher == cipher
                &&& f@.sender_public_key == sender_public_key@
                &&& f@.nonce == derived_nonce(cipher, device_id@, counter)
                &&& f@.nonce.len() == cipher.nonce_len()
                &&& f@.ciphertext == sealed(cipher, shared_secret@, f@.nonce, plaintext@)
                &&& opened(cipher, shared_secret@, f@.nonce, f@.ciphertext) == Some(plaintext@)
            },
            r matches Err(e) ==> e == LogError::BatchTooLarge,
    {
        match encrypt(cipher, shared_secret, device_id, counter, plaintext) {
            Ok((nonce, ciphertext)) => Ok(
                EventFile { cipher, sender_public_key, nonce, ciphertext },
            ),
            Err(_) => Err(LogError::BatchTooLarge),
        }
    }

    /// Opens the file under `shared_secret` and returns the serialised
    /// envelopes. Fails exactly when the bytes do not open.
    pub fn decrypt(&self, shared_secret: &[u8; 32]) -> (r: Result<Vec<u8>, LogError>)
        ensures
            match opened(self@.cipher, shared_secret@, self@.nonce, self@.ciphertext) {
                Some(plaintext) => r matches Ok(p) && p@ == plaintext,
                None => r == Err::<Vec<u8>, LogError>(LogError::GroupKeyMismatchOrTamper),
            },
    {
        match decrypt(
            self.cipher,
            shared_secret,
            self.nonce.as_slice(),
            self.ciphertext.as_slice(),
        ) {
            Ok(plaintext) => Ok(plaintext),
            Err(_) => Err(LogError::GroupKeyMismatchOrTamper),
        }
    }

    /// Appends the bytes of the file to `writer`. The nonce length must
    /// fit the one byte that the format gives it.
    pub fn write_to(&self, writer: &mut Vec<u8>)
        requires
            self@.nonce.len() <= 255,
        ensures
            final(writer)@ == old(writer)@ + encoded(self@),
    {
        let ghost start = writer@;
        writer.push(0x57);
        writer.push(0x4f);
        writer.push(0x4c);
        writer.push(0x46);
        writer.push(EVENT_VERSION);
        writer.push(self.cipher.to_byte());
        proof {
            assert(writer@ =~= start + event_magic() + seq![EVENT_VERSION, self@.cipher.selector()]);
        }
        append_bytes(writer, self.sender_public_key.as_slice());
        writer.push(self.nonce.len() as u8);
        append_bytes(writer, self.nonce.as_slice());
        append_bytes(writer, self.ciphertext.as_slice());
        proof {
            assert(writer@ =~= start + encoded(self@));
        }
    }

    /// Reads an event file from its bytes. Fails with `CorruptLogFile`
    /// exactly when the magic bytes are missing, the version is not
    /// supported, the cipher selector is unknown, or the bytes end inside
    /// the header or the nonce.
    pub fn read_from(reader: &[u8]) -> (r: Result<Self, LogError>)
        ensures
            match decoded(reader@) {
                Ok(v) => r matches Ok(f) && f@ == v,
                Err(e) => r matches Err(x) && x == e,
            },
    {
        if reader.len() < 4 {
            return Err(LogError::CorruptLogFile);
        }
        if reader[0] != 0x57 || reader[1] != 0x4f || reader[2] != 0x4c || reader[3] != 0x46 {
            proof {
                let m = reader@.subrange(0, 4);
                assert(m[0] == reader@[0] && m[1] == reader@[1] && m[2] == reader@[2] && m[3]
                    == reader@[3]);
            }
            return Err(LogError::CorruptLogFile);
        }
        proof {
            assert(reader@.subrange(0, 4) =~= event_magic());
        }
        if reader.len() < 6 {
            return Err(LogError::CorruptLogFile);
        }
        if reader[4] != EVENT_VERSION {
            return Err(LogError::CorruptLogFile);
        }
        let cipher = match Cipher::from_byte(reader[5]) {
            Some(c) => c,
            None => {
                return Err(LogError::CorruptLogFile);
            },
        };
        if reader.len() < 39 {
            return Err(LogError::CorruptLogFile);
        }
        let nonce_len = reader[38] as usize;
        if reader.len() - 39 < nonce_len {
            return Err(LogError::CorruptLogFile);
        }
        let mut sender_public_key = [0u8; 32];
        let mut i: usize = 0;
        while i < 32
            invariant
                i <= 32,
                reader@.len() >= 39,
                forall|j: int| 0 <= j < i ==> sender_public_key@[j] == reader@[6 + j],
            decreases 32 - i,
        {
            sender_public_key[i] = reader[6 + i];
            i += 1;
        }
        let nonce = copy_range(reader, 39, 39 + nonce_len);
        let ciphertext = copy_range(reader, 39 + nonce_len, reader.len());
        proof {
            assert(sender_public_key@ =~= reader@.subrange(6, 38));
        }
        Ok(EventFile { cipher, sender_public_key, nonce, ciphertext })
    }
}

/// Appends `bytes` to `out`.
pub fn append_bytes(out: &mut Vec<u8>, bytes: &[u8])
    ensures
        final(out)@ == old(out)@ + bytes@,
{
    let ghost start = out@;
    let mut i: usize = 0;
    while i < bytes.len()
        invariant
            i <= bytes.len(),
            out@ == start + bytes@.subrange(0, i as int),
        decreases bytes.len() - i,
    {
        out.push(bytes[i]);
        proof {
            assert(out@ =~= start + bytes@.subrange(0, i + 1));
        }
        i += 1;
    }
    proof {
        assert(bytes@.subrange(0, bytes.len() as int) =~= bytes@);
    }
}

/// Copies the bytes from `from` up to `to`.
pub fn copy_range(bytes: &[u8], from: usize, to: usize) -> (r: Vec<u8>)
    requires
        from <= to <= bytes@.len(),
    ensures
        r@ == bytes@.subrange(from as int, to as int),
{
    let mut out: Vec<u8> = Vec::new();
    let mut i: usize = from;
    while i < to
        invariant
            from <= i <= to,
            to <= bytes@.len(),
            out@ == bytes@.subrange(from as int, i as int),
        decreases to - i,
    {
        out.push(bytes[i]);
        proof {
            assert(out@ =~= bytes@.subrange(from as int, i + 1));
        }
        i += 1;
    }
    out
}

/// Writing an event file and reading it back gives the same file.
pub proof fn law_event_file_round_trip(f: EventFileView)
    requires
        f.sender_public_key.len() == 32,
        f.nonce.len() <= 255,
    ensures
        decoded(encoded(f)) == Ok::<EventFileView, LogError>(f),
{
    let b = encoded(f);
    let n = f.nonce.len() as int;
    assert(b.len() == 39 + n + f.ciphertext.len());
    assert(b.subrange(0, 4) =~= event_magic());
    assert(b[4] == EVENT_VERSION);
    assert(b[5] == f.cipher.selector());
    assert(cipher_of_byte(f.cipher.selector()) == Some(f.cipher));
    assert(b[38] == n as u8);
    assert(b.subrange(6, 38) =~= f.sender_public_key);
    assert(b.subrange(39, 39 + n) =~= f.nonce);
    assert(b.subrange(39 + n, b.len() as int) =~= f.ciphertext);
}

} // verus!
