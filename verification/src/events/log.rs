//! The per-device event log: numbering of event files, stamping and
//! sealing of batches, and opening of the files of any device.

use vstd::prelude::*;
use crate::crypto::cipher::{
    derived_nonce, detect_preferred_cipher, opened, sealed, Cipher,
};
use crate::crypto::keypair::{group_secret, public_keys, KeyPair, PublicKey};
use crate::events::clock::{clock_get, VectorClock};
use crate::events::order::{in_order, sort_envelopes};
use crate::events::storage::{decoded, encoded, EventFile, EventFileView, LogError};
use crate::events::types::{Event, EventEnvelope};
use crate::text::{join, pad_decimal, padded_decimal, parse_u32, parsed_u32, to_chars};

verus! {

/// The extension of event files.
pub open spec fn event_suffix() -> Seq<char> {
    seq!['.', 'e', 'v', 't']
}

/// The event number in a file name: the number before `.evt`; none when
/// the name has another form.
pub open spec fn event_number_of(name: Seq<char>) -> Option<u32> {
    if name.len() >= 4 && name.subrange(name.len() - 4, name.len() as int) == event_suffix() {
        parsed_u32(name.subrange(0, name.len() - 4))
    } else {
        None
    }
}

/// The largest event number among the names; zero when none has one.
pub open spec fn max_event_number(names: Seq<Seq<char>>) -> nat
    decreases names.len(),
{
    if names.len() == 0 {
        0
    } else {
        let rest = max_event_number(names.drop_last());
        match event_number_of(names.last()) {
            Some(n) => if n > rest {
                n as nat
            } else {
                rest
            },
            None => rest,
        }
    }
}

/// The directory of the event files of `device` below `base`.
pub open spec fn events_path(base: Seq<char>, device: Seq<char>) -> Seq<char> {
    base + "/events/"@ + device
}

/// The name of the event file with number `n`: four digits, zero padded.
pub open spec fn event_file_name(n: u32) -> Seq<char> {
    padded_decimal(n as nat, 4) + ".evt"@
}

/// The plaintext that the bytes of an event file open to under `secret`,
/// or the reason why they do not.
pub open spec fn opened_file(bytes: Seq<u8>, secret: Seq<u8>) -> Result<Seq<u8>, LogError> {
    match decoded(bytes) {
        Ok(f) => match opened(f.cipher, secret, f.nonce, f.ciphertext) {
            Some(plaintext) => Ok(plaintext),
            None => Err(LogError::GroupKeyMismatchOrTamper),
        },
        Err(e) => Err(e),
    }
}

/// Reads the event number from a file name.
pub fn event_number(name: &str) -> (r: Option<u32>)
    ensures
        r == event_number_of(name@),
{
    let chars = to_chars(name);
    let n = chars.len();
    if n < 4 {
        return None;
    }
    if chars[n - 4] != '.' || chars[n - 3] != 'e' || chars[n - 2] != 'v' || chars[n - 1] != 't' {
        proof {
            let tail = name@.subrange(n - 4, n as int);
            assert(tail[0] == chars@[n - 4] && tail[1] == chars@[n - 3] && tail[2] == chars@[n
                - 2] && tail[3] == chars@[n - 1]);
        }
        return None;
    }
    proof {
        assert(name@.subrange(n - 4, n as int) =~= event_suffix());
    }
    parse_u32(&chars, n - 4)
}

/// What sealing a batch comes to: `CounterExhausted` when the event
/// numbers are used up, otherwise `BatchTooLarge` when the cipher cannot
/// seal so much, otherwise the file sealed under the group secret, with
/// the preferred cipher and the nonce of the device's clock counter, and
/// its path under the next event number.
pub open spec fn seal_outcome(
    log: &EventLog,
    plaintext: Seq<u8>,
    known_devices: Seq<(String, [u8; 32])>,
    existing: Seq<Seq<char>>,
    aes_accelerated: bool,
    r: Result<SealedBatch, LogError>,
) -> bool {
    let cipher = if aes_accelerated {
        Cipher::Aes256Gcm
    } else {
        Cipher::XChaCha20Poly1305
    };
    let secret = group_secret(log.secret(), public_keys(known_devices));
    let counter = clock_get(log.clock_view(), log.device());
    let nonce = derived_nonce(cipher, log.device(), counter);
    if max_event_number(existing) >= u32::MAX {
        r matches Err(e) && e == LogError::CounterExhausted
    } else if !cipher.seals(plaintext.len()) {
        r matches Err(e) && e == LogError::BatchTooLarge
    } else {
        &&& r matches Ok(batch)
        &&& batch.file@ == (EventFileView {
            cipher,
            sender_public_key: log.public(),
            nonce,
            ciphertext: sealed(cipher, secret, nonce, plaintext),
        })
        &&& batch.file@.nonce.len() == cipher.nonce_len()
        &&& opened(cipher, secret, nonce, batch.file@.ciphertext) == Some(plaintext)
        &&& batch.path@ == events_path(log.base(), log.device()) + "/"@ + event_file_name(
            (max_event_number(existing) + 1) as u32,
        )
    }
}

/// A sealed batch and the path of the file that it belongs in.
#[derive(Debug)]
pub struct SealedBatch {
    pub path: String,
    pub file: EventFile,
}

/// The event log of one device.
pub struct EventLog {
    base_path: String,
    device_id: String,
    keypair: KeyPair,
    clock: VectorClock,
}

impl EventLog {
    /// The root directory of the log.
    pub closed spec fn base(&self) -> Seq<char> {
        self.base_path@
    }

    /// The device that writes this log.
    pub closed spec fn device(&self) -> Seq<char> {
        self.device_id@
    }

    /// The clock of the log.
    pub closed spec fn clock_view(&self) -> Map<Seq<char>, u64> {
        self.clock@
    }

    /// The secret key of the device.
    pub closed spec fn secret(&self) -> Seq<u8> {
        self.keypair.secret_bytes()
    }

    /// The public key of the device.
    pub closed spec fn public(&self) -> Seq<u8> {
        self.keypair.public_bytes()
    }

    /// A log below `base_path` for `device_id`, with an empty clock.
    pub fn new(base_path: String, device_id: String, keypair: KeyPair) -> (log: Self)
        ensures
            log.base() == base_path@,
            log.device() == device_id@,
            log.clock_view() == Map::<Seq<char>, u64>::empty(),
            log.secret() == keypair.secret_bytes(),
            log.public() == keypair.public_bytes(),
    {
        EventLog { base_path, device_id, keypair, clock: VectorClock::new() }
    }

    /// The directory of the event files of `device`.
    pub fn device_events_path(&self, device: &str) -> (path: String)
        ensures
            path@ == events_path(self.base(), device@),
    {
        let head = join(self.base_path.as_str(), "/events/");
        join(head.as_str(), device)
    }

    /// The number of the next event file, given the names that the
    /// device's directory holds: one more than the largest number among
    /// them, 1 when there is none. Fails when the numbers are used up.
    pub fn next_event_number(&self, existing: &[String]) -> (r: Result<u32, LogError>)
        ensures
            match r {
                Ok(n) => n == max_event_number(existing.deep_view()) + 1,
                Err(e) => e == LogError::CounterExhausted && max_event_number(
                    existing.deep_view(),
                ) == u32::MAX,
            },
    {
        let mut max: u32 = 0;
        let mut i: usize = 0;
        proof {
            assert(existing.deep_view().subrange(0, 0) =~= Seq::<Seq<char>>::empty());
        }
        while i < existing.len()
            invariant
                i <= existing.len(),
                max == max_event_number(existing.deep_view().subrange(0, i as int)),
            decreases existing.len() - i,
        {
            proof {
                let all = existing.deep_view();
                assert(all.subrange(0, i + 1).drop_last() =~= all.subrange(0, i as int));
                assert(all.subrange(0, i + 1).last() == existing[i as int]@);
            }
            match event_number(existing[i].as_str()) {
                Some(n) => {
                    if n > max {
                        max = n;
                    }
                },
                None => {},
            }
            i += 1;
        }
        proof {
            assert(existing.deep_view().subrange(0, existing.len() as int)
                =~= existing.deep_view());
        }
        if max == u32::MAX {
            Err(LogError::CounterExhausted)
        } else {
            Ok(max + 1)
        }
    }

    /// Starts a batch: counts it on the device's clock and wraps each
    /// event in an envelope with a fresh identifier, the current time, the
    /// device and a copy of the clock. Fails with `EmptyBatch` on an empty
    /// list and with `CounterExhausted` when the counter cannot advance;
    /// the clock is then unchanged.
    pub fn write_events(&mut self, events: Vec<Event>) -> (r: Result<Vec<EventEnvelope>, LogError>)
        ensures
            final(self).base() == old(self).base(),
            final(self).device() == old(self).device(),
            final(self).secret() == old(self).secret(),
            final(self).public() == old(self).public(),
            events@.len() == 0 ==> (r matches Err(e) && e == LogError::EmptyBatch),
            events@.len() > 0 && clock_get(old(self).clock_view(), old(self).device()) == u64::MAX
                ==> (r matches Err(e) && e == LogError::CounterExhausted),
            events@.len() > 0 && clock_get(old(self).clock_view(), old(self).device()) < u64::MAX
                ==> r is Ok,
            r is Err ==> final(self).clock_view() == old(self).clock_view(),
            r matches Ok(envelopes) ==> {
                &&& final(self).clock_view() == old(self).clock_view().insert(
                    old(self).device(),
                    (clock_get(old(self).clock_view(), old(self).device()) + 1) as u64,
                )
                &&& envelopes@.len() == events@.len()
                &&& forall|i: int|
                    0 <= i < envelopes@.len() ==> {
                        &&& (#[trigger] envelopes[i])@.device == old(self).device()
                        &&& envelopes[i]@.clock == final(self).clock_view()
                        &&& envelopes[i]@.event == events[i]@
                    }
            },
    {
        if events.len() == 0 {
            return Err(LogError::EmptyBatch);
        }
        if self.clock.get(self.device_id.as_str()) == u64::MAX {
            return Err(LogError::CounterExhausted);
        }
        self.clock.increment(self.device_id.as_str());
        let mut envelopes: Vec<EventEnvelope> = Vec::new();
        let mut i: usize = 0;
        while i < events.len()
            invariant
                i <= events.len(),
                envelopes@.len() == i,
                forall|j: int|
                    0 <= j < i ==> {
                        &&& (#[trigger] envelopes[j])@.device == self.device_id@
                        &&& envelopes[j]@.clock == self.clock@
                        &&& envelopes[j]@.event == events[j]@
                    },
            decreases events.len() - i,
        {
            let envelope = EventEnvelope::new(
                self.device_id.clone(),
                self.clock.clone(),
                events[i].clone(),
            );
            envelopes.push(envelope);
            i += 1;
        }
        Ok(envelopes)
    }

    /// Seals the serialised envelopes of a batch: derives the group
    /// secret, picks the cipher, derives the nonce from the device and its
    /// clock counter, seals, and names the file after the next event
    /// number. Fails with `CounterExhausted` when the numbers are used up,
    /// otherwise with `BatchTooLarge` when the cipher cannot seal so much.
    pub fn seal_events(
        &self,
        plaintext: &[u8],
        known_devices: &[(String, PublicKey)],
        existing: &[String],
        aes_accelerated: bool,
    ) -> (r: Result<SealedBatch, LogError>)
        ensures
            seal_outcome(self, plaintext@, known_devices@, existing.deep_view(), aes_accelerated, r),
    {
        let number = match self.next_event_number(existing) {
            Ok(n) => n,
            Err(e) => {
                return Err(e);
            },
        };
        let secret = self.keypair.derive_group_secret(known_devices);
        let cipher = detect_preferred_cipher(aes_accelerated);
        let counter = self.clock.get(self.device_id.as_str());
        let file = match EventFile::new(
            self.keypair.public_key(),
            self.device_id.as_str(),
            counter,
            &secret,
            plaintext,
            cipher,
        ) {
            Ok(f) => f,
            Err(e) => {
                return Err(e);
            },
        };
        let dir = self.device_events_path(self.device_id.as_str());
        let name = join(pad_decimal(number as u64, 4).as_str(), ".evt");
        let path = join(join(dir.as_str(), "/").as_str(), name.as_str());
        Ok(SealedBatch { path, file })
    }

    /// Opens the bytes of one event file under the group secret and
    /// returns the serialised envelopes.
    pub fn open_event_file(&self, bytes: &[u8], known_devices: &[(String, PublicKey)]) -> (r:
        Result<Vec<u8>, LogError>)
        ensures
            match opened_file(
                bytes@,
                group_secret(self.secret(), public_keys(known_devices@)),
            ) {
                Ok(plaintext) => r matches Ok(p) && p@ == plaintext,
                Err(e) => r matches Err(x) && x == e,
            },
    {
        let secret = self.keypair.derive_group_secret(known_devices);
        match EventFile::read_from(bytes) {
            Ok(file) => file.decrypt(&secret),
            Err(e) => Err(e),
        }
    }

    /// Opens the event files of one device, given their bytes in the order
    /// of their names. Each file has its own outcome: one that is corrupt
    /// or does not open does not keep the others from being read.
    pub fn read_device_events(&self, files: &[Vec<u8>], known_devices: &[(String, PublicKey)]) -> (r:
        Vec<Result<Vec<u8>, LogError>>)
        ensures
            r@.len() == files@.len(),
            forall|i: int|
                0 <= i < r@.len() ==> match opened_file(
                    files[i]@,
                    group_secret(self.secret(), public_keys(known_devices@)),
                ) {
                    Ok(plaintext) => (#[trigger] r[i]) matches Ok(p) && p@ == plaintext,
                    Err(e) => r[i] matches Err(x) && x == e,
                },
    {
        let mut out: Vec<Result<Vec<u8>, LogError>> = Vec::new();
        let mut i: usize = 0;
        while i < files.len()
            invariant
                i <= files.len(),
                out@.len() == i,
                forall|j: int|
                    0 <= j < i ==> match opened_file(
                        files[j]@,
                        group_secret(self.secret(), public_keys(known_devices@)),
                    ) {
                        Ok(plaintext) => (#[trigger] out[j]) matches Ok(p) && p@ == plaintext,
                        Err(e) => out[j] matches Err(x) && x == e,
                    },
            decreases files.len() - i,
        {
            out.push(self.open_event_file(files[i].as_slice(), known_devices));
            i += 1;
        }
        out
    }

    /// Puts the envelopes of all devices in order of application.
    pub fn read_all_events(&self, envelopes: &[EventEnvelope]) -> (sorted: Vec<EventEnvelope>)
        ensures
            in_order(sorted.deep_view()),
            sorted.deep_view().to_multiset() == envelopes.deep_view().to_multiset(),
    {
        sort_envelopes(envelopes)
    }

    /// The clock of the log.
    pub fn clock(&self) -> (c: &VectorClock)
        ensures
            c@ == self.clock_view(),
    {
        &self.clock
    }

    /// Replaces the clock of the log.
    pub fn set_clock(&mut self, clock: VectorClock)
        ensures
            final(self).clock_view() == clock@,
            final(self).base() == old(self).base(),
            final(self).device() == old(self).device(),
            final(self).secret() == old(self).secret(),
            final(self).public() == old(self).public(),
    {
        self.clock = clock;
    }

    /// The device that writes this log.
    pub fn device_id(&self) -> (d: &str)
        ensures
            d@ == self.device(),
    {
        self.device_id.as_str()
    }
}

} // verus!
