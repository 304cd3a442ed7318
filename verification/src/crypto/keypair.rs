//! The X25519 key pair of a device and the group secret that paired
//! devices seal their event files with.

use vstd::prelude::*;
use crate::text::{hex_decode, hex_decoded, hex_encode, hex_encoded};

verus! {

/// A 32-byte secret key.
pub type SecretKey = [u8; 32];

/// A 32-byte public key.
pub type PublicKey = [u8; 32];

/// The X25519 public key of a secret key.
pub uninterp spec fn x25519_public(secret: Seq<u8>) -> Seq<u8>;

/// The X25519 Diffie-Hellman value of a secret key and a peer's public key.
pub uninterp spec fn x25519_shared(secret: Seq<u8>, their_public: Seq<u8>) -> Seq<u8>;

/// Computes the public key of a secret key.
///
/// Trusted: calls `StaticSecret::from` and `PublicKey::from` of
/// `x25519-dalek`. The contract names the key, which depends on the
/// secret alone.
#[verifier::external_body]
pub(crate) fn x25519_public_key(secret: &[u8; 32]) -> (public: [u8; 32])
    ensures
        public@ == x25519_public(secret@),
{
    let secret = x25519_dalek::StaticSecret::from(*secret);
    x25519_dalek::PublicKey::from(&secret).to_bytes()
}

/// True when `shared` is the value on which both sides of a key exchange
/// agree: whoever holds the 32-byte secret key behind `their_public`
/// derives it with the public key of `secret`.
pub open spec fn agreed(secret: Seq<u8>, their_public: Seq<u8>, shared: Seq<u8>) -> bool {
    forall|other: Seq<u8>|
        other.len() == 32 && their_public == #[trigger] x25519_public(other) ==> shared
            == x25519_shared(other, x25519_public(secret))
}

/// Computes the Diffie-Hellman value of a secret key and a peer's public
/// key.
///
/// Trusted: calls `StaticSecret::diffie_hellman` of `x25519-dalek`. The
/// contract names the value, which depends on the two keys alone, and
/// states the agreement that the crate documents for it: the peer, with
/// its own secret key and the public key of this secret key, computes
/// the same value.
#[verifier::external_body]
pub(crate) fn x25519_diffie_hellman(secret: &[u8; 32], their_public: &[u8; 32]) -> (shared: [u8; 32])
    ensures
        shared@ == x25519_shared(secret@, their_public@),
        agreed(secret@, their_public@, shared@),
{
    let secret = x25519_dalek::StaticSecret::from(*secret);
    let public = x25519_dalek::PublicKey::from(*their_public);
    secret.diffie_hellman(&public).to_bytes()
}

/// Draws a random secret key from the operating system.
///
/// Trusted: calls `StaticSecret::random_from_rng` of `x25519-dalek` with
/// `OsRng` of `rand`. The key is random, so nothing is promised of it.
#[verifier::external_body]
pub(crate) fn random_secret() -> (secret: [u8; 32]) {
    x25519_dalek::StaticSecret::random_from_rng(rand::rngs::OsRng).to_bytes()
}

/// Why a stored key could not be read.
#[derive(Debug, Clone, Copy, PartialEq, Eq, Structural)]
pub enum KeyError {
    /// The text is not an even number of hexadecimal digits.
    InvalidHex,
    /// The key does not have 32 bytes.
    WrongLength,
}

/// Thirty-two zero bytes.
pub open spec fn zero_key() -> Seq<u8> {
    Seq::new(32, |i: int| 0u8)
}

/// The bytewise exclusive or of two byte strings of one length.
pub open spec fn xor_bytes(a: Seq<u8>, b: Seq<u8>) -> Seq<u8> {
    Seq::new(a.len(), |i: int| a[i] ^ b[i])
}

/// The exclusive or of all the values, thirty-two bytes each.
pub open spec fn xor_all(values: Seq<Seq<u8>>) -> Seq<u8>
    decreases values.len(),
{
    if values.len() == 0 {
        zero_key()
    } else {
        xor_bytes(xor_all(values.drop_last()), values.last())
    }
}

/// The Diffie-Hellman values of `secret` with each of the public keys.
pub open spec fn pairwise_secrets(secret: Seq<u8>, publics: Seq<Seq<u8>>) -> Seq<Seq<u8>> {
    Seq::new(publics.len(), |i: int| x25519_shared(secret, publics[i]))
}

/// The group secret of a device: the exclusive or of its Diffie-Hellman
/// values with every known device. A device that knows none uses the
/// value with its own public key.
pub open spec fn group_secret(secret: Seq<u8>, publics: Seq<Seq<u8>>) -> Seq<u8> {
    if publics.len() == 0 {
        x25519_shared(secret, x25519_public(secret))
    } else {
        xor_all(pairwise_secrets(secret, publics))
    }
}

/// The public keys of a list of known devices.
pub open spec fn public_keys(known_devices: Seq<(String, [u8; 32])>) -> Seq<Seq<u8>> {
    Seq::new(known_devices.len(), |i: int| known_devices[i].1@)
}

/// The key pair of a device.
pub struct KeyPair {
    secret: [u8; 32],
    public: [u8; 32],
}

/// A key pair as it is stored: both keys in hexadecimal.
#[derive(Debug)]
pub struct StoredKeyPair {
    pub secret: String,
    pub public: String,
}

impl Clone for StoredKeyPair {
    fn clone(&self) -> (r: Self)
        ensures
            r.secret@ == self.secret@,
            r.public@ == self.public@,
    {
        StoredKeyPair { secret: self.secret.clone(), public: self.public.clone() }
    }
}

impl KeyPair {
    #[verifier::type_invariant]
    spec fn inv(self) -> bool {
        self.public@ == x25519_public(self.secret@)
    }

    /// The secret key.
    pub closed spec fn secret_bytes(self) -> Seq<u8> {
        self.secret@
    }

    /// The public key.
    pub closed spec fn public_bytes(self) -> Seq<u8> {
        self.public@
    }

    /// A fresh random key pair.
    pub fn generate() -> (pair: Self)
        ensures
            pair.public_bytes() == x25519_public(pair.secret_bytes()),
    {
        let secret = random_secret();
        KeyPair::from_bytes(&secret)
    }

    /// The key pair of a given secret key.
    pub fn from_bytes(secret: &SecretKey) -> (pair: Self)
        ensures
            pair.secret_bytes() == secret@,
            pair.public_bytes() == x25519_public(secret@),
    {
        let public = x25519_public_key(secret);
        KeyPair { secret: *secret, public }
    }

    /// The public key.
    pub fn public_key(&self) -> (key: PublicKey)
        ensures
            key@ == self.public_bytes(),
            key@ == x25519_public(self.secret_bytes()),
    {
        proof {
            use_type_invariant(self);
        }
        self.public
    }

    /// The secret key.
    pub fn secret_key(&self) -> (key: SecretKey)
        ensures
            key@ == self.secret_bytes(),
    {
        self.secret
    }

    /// The Diffie-Hellman value with a peer's public key.
    pub fn derive_shared_secret(&self, their_public: &PublicKey) -> (shared: [u8; 32])
        ensures
            shared@ == x25519_shared(self.secret_bytes(), their_public@),
            agreed(self.secret_bytes(), their_public@, shared@),
    {
        x25519_diffie_hellman(&self.secret, their_public)
    }

    /// The group secret with the known devices. A device that knows one
    /// other device alone derives the secret that the other derives when
    /// it knows this device alone.
    pub fn derive_group_secret(&self, known_devices: &[(String, PublicKey)]) -> (secret: [u8; 32])
        ensures
            secret@ == group_secret(self.secret_bytes(), public_keys(known_devices@)),
            known_devices@.len() == 1 ==> forall|other: Seq<u8>|
                other.len() == 32 && known_devices@[0].1@ == #[trigger] x25519_public(other)
                    ==> secret@ == group_secret(other, seq![self.public_bytes()]),
    {
        proof {
            use_type_invariant(self);
        }
        if known_devices.len() == 0 {
            let own = self.public_key();
            return self.derive_shared_secret(&own);
        }
        let ghost publics = public_keys(known_devices@);
        let ghost values = pairwise_secrets(self.secret_bytes(), publics);
        let mut combined = [0u8; 32];
        proof {
            assert(combined@ =~= zero_key());
            assert(values.subrange(0, 0) =~= Seq::<Seq<u8>>::empty());
        }
        let mut k: usize = 0;
        while k < known_devices.len()
            invariant
                k <= known_devices.len(),
                publics == public_keys(known_devices@),
                values == pairwise_secrets(self.secret_bytes(), publics),
                combined@ == xor_all(values.subrange(0, k as int)),
                k > 0 ==> values[0].len() == 32 && agreed(
                    self.secret_bytes(),
                    publics[0],
                    values[0],
                ),
            decreases known_devices.len() - k,
        {
            let shared = self.derive_shared_secret(&known_devices[k].1);
            let ghost before = combined@;
            let mut i: usize = 0;
            while i < 32
                invariant
                    i <= 32,
                    before.len() == 32,
                    forall|j: int| 0 <= j < i ==> combined@[j] == before[j] ^ shared@[j],
                    forall|j: int| i <= j < 32 ==> combined@[j] == before[j],
                decreases 32 - i,
            {
                let byte = combined[i] ^ shared[i];
                combined[i] = byte;
                i += 1;
            }
            proof {
                let next = values.subrange(0, k + 1);
                assert(next.drop_last() =~= values.subrange(0, k as int));
                assert(next.last() == shared@);
                assert(combined@ =~= xor_bytes(before, shared@));
            }
            k += 1;
        }
        proof {
            assert(values.subrange(0, known_devices.len() as int) =~= values);
            if known_devices@.len() == 1 {
                assert(publics =~= seq![publics[0]]);
                lemma_group_secret_of_one_peer(self.secret_bytes(), publics[0]);
                assert forall|other: Seq<u8>|
                    other.len() == 32 && known_devices@[0].1@ == #[trigger] x25519_public(
                        other,
                    ) implies combined@ == group_secret(other, seq![self.public_bytes()]) by {
                    lemma_group_secret_of_one_peer(other, self.public_bytes());
                }
            }
        }
        combined
    }

    /// The stored form of this key pair.
    pub fn to_stored(&self) -> (stored: StoredKeyPair)
        ensures
            stored.secret@ == hex_encoded(self.secret_bytes()),
            stored.public@ == hex_encoded(self.public_bytes()),
    {
        StoredKeyPair {
            secret: hex_encode(self.secret.as_slice()),
            public: hex_encode(self.public.as_slice()),
        }
    }

    /// Reads a key pair from its stored form. Only the secret key is read;
    /// the public key is computed from it.
    pub fn from_stored(stored: &StoredKeyPair) -> (r: Result<Self, KeyError>)
        ensures
            match hex_decoded(stored.secret@) {
                None => r matches Err(e) && e == KeyError::InvalidHex,
                Some(bytes) => if bytes.len() == 32 {
                    r matches Ok(pair) && pair.secret_bytes() == bytes && pair.public_bytes()
                        == x25519_public(bytes)
                } else {
                    r matches Err(e) && e == KeyError::WrongLength
                },
            },
    {
        match key_from_hex(stored.secret.as_str()) {
            Ok(secret) => Ok(KeyPair::from_bytes(&secret)),
            Err(e) => Err(e),
        }
    }
}

impl Clone for KeyPair {
    fn clone(&self) -> (r: Self)
        ensures
            r.secret_bytes() == self.secret_bytes(),
            r.public_bytes() == self.public_bytes(),
    {
        proof {
            use_type_invariant(self);
        }
        KeyPair { secret: self.secret, public: self.public }
    }
}

/// The exclusive or with two values in turn does not depend on their
/// order.
pub proof fn lemma_xor_bytes_commutes(a: Seq<u8>, b: Seq<u8>, c: Seq<u8>)
    ensures
        xor_bytes(xor_bytes(a, b), c) == xor_bytes(xor_bytes(a, c), b),
{
    let left = xor_bytes(xor_bytes(a, b), c);
    let right = xor_bytes(xor_bytes(a, c), b);
    assert forall|i: int| 0 <= i < left.len() implies left[i] == right[i] by {
        let x = a[i];
        let y = b[i];
        let z = c[i];
        assert((x ^ y) ^ z == (x ^ z) ^ y) by (bit_vector);
    }
    assert(left =~= right);
}

/// A value that is put into the list at any place adds to the exclusive
/// or as if it were put at the end.
pub proof fn lemma_xor_all_insert(values: Seq<Seq<u8>>, k: int, v: Seq<u8>)
    requires
        0 <= k <= values.len(),
    ensures
        xor_all(values.insert(k, v)) == xor_bytes(xor_all(values), v),
    decreases values.len() - k,
{
    if k == values.len() {
        assert(values.insert(k, v) =~= values.push(v));
        assert(values.push(v).drop_last() =~= values);
    } else {
        let rest = values.drop_last();
        let last = values.last();
        assert(values.insert(k, v).drop_last() =~= rest.insert(k, v));
        assert(values.insert(k, v).last() == last);
        lemma_xor_all_insert(rest, k, v);
        lemma_xor_bytes_commutes(xor_all(rest), v, last);
    }
}

/// The exclusive or of the pairwise values does not depend on the order
/// of the public keys.
pub proof fn lemma_pairwise_xor_ignores_order(
    secret: Seq<u8>,
    first: Seq<Seq<u8>>,
    second: Seq<Seq<u8>>,
)
    requires
        first.to_multiset() == second.to_multiset(),
    ensures
        first.len() == second.len(),
        xor_all(pairwise_secrets(secret, first)) == xor_all(pairwise_secrets(secret, second)),
    decreases first.len(),
{
    broadcast use vstd::multiset::group_multiset_axioms;
    broadcast use vstd::seq_lib::group_to_multiset_ensures;

    vstd::seq_lib::to_multiset_len(first);
    vstd::seq_lib::to_multiset_len(second);
    if first.len() == 0 {
        assert(pairwise_secrets(secret, first) =~= pairwise_secrets(secret, second));
    } else {
        let v = first.last();
        assert(first.to_multiset().contains(v));
        assert(second.to_multiset().contains(v));
        let k = choose|k: int| 0 <= k < second.len() && #[trigger] second[k] == v;
        let q1 = first.drop_last();
        let q2 = second.remove(k);
        assert(q1 =~= first.remove(first.len() - 1));
        vstd::seq_lib::to_multiset_remove(first, first.len() - 1);
        vstd::seq_lib::to_multiset_remove(second, k);
        assert(q1.to_multiset() =~= q2.to_multiset());
        lemma_pairwise_xor_ignores_order(secret, q1, q2);
        let shared = x25519_shared(secret, v);
        assert(pairwise_secrets(secret, first) =~= pairwise_secrets(secret, q1).push(shared));
        assert(pairwise_secrets(secret, first).drop_last() =~= pairwise_secrets(secret, q1));
        assert(pairwise_secrets(secret, second) =~= pairwise_secrets(secret, q2).insert(k, shared));
        lemma_xor_all_insert(pairwise_secrets(secret, q2), k, shared);
    }
}

/// The group secret of a device depends on the set of paired devices it
/// knows, not on the order in which it lists them.
pub proof fn law_group_secret_ignores_order(
    secret: Seq<u8>,
    first: Seq<Seq<u8>>,
    second: Seq<Seq<u8>>,
)
    requires
        first.to_multiset() == second.to_multiset(),
    ensures
        group_secret(secret, first) == group_secret(secret, second),
{
    lemma_pairwise_xor_ignores_order(secret, first, second);
}

/// A device that knows no other derives the same group secret whether or
/// not it lists itself, its key exchange value being of the full length.
pub proof fn law_group_secret_of_solo_device(secret: Seq<u8>)
    requires
        x25519_shared(secret, x25519_public(secret)).len() == 32,
    ensures
        group_secret(secret, seq![x25519_public(secret)]) == group_secret(secret, Seq::empty()),
{
    lemma_group_secret_of_one_peer(secret, x25519_public(secret));
}

/// The group secret of a device that knows one other device is its key
/// exchange value with that device, the value being of the full length.
pub proof fn lemma_group_secret_of_one_peer(secret: Seq<u8>, peer: Seq<u8>)
    requires
        x25519_shared(secret, peer).len() == 32,
    ensures
        group_secret(secret, seq![peer]) == x25519_shared(secret, peer),
{
    let shared = x25519_shared(secret, peer);
    let values = pairwise_secrets(secret, seq![peer]);
    assert(values =~= seq![shared]);
    assert(values.drop_last() =~= Seq::<Seq<u8>>::empty());
    assert(values.last() == shared);
    assert(xor_all(values.drop_last()) == zero_key());
    assert(xor_all(values) == xor_bytes(xor_all(values.drop_last()), values.last()));
    assert forall|i: int| 0 <= i < 32 implies xor_bytes(zero_key(), shared)[i] == shared[i] by {
        let x = shared[i];
        assert(0u8 ^ x == x) by (bit_vector);
    }
    assert(xor_bytes(zero_key(), shared) =~= shared);
}

/// Two paired devices that know each other compute the same group
/// secret, wherever their key exchange agrees: the value that the first
/// derives with the public key of the second is the value that the
/// second derives with the public key of the first.
pub proof fn law_pair_computes_one_group_secret(first: Seq<u8>, second: Seq<u8>)
    requires
        x25519_shared(first, x25519_public(second)) == x25519_shared(second, x25519_public(first)),
        x25519_shared(first, x25519_public(second)).len() == 32,
    ensures
        group_secret(first, seq![x25519_public(second)]) == group_secret(
            second,
            seq![x25519_public(first)],
        ),
{
    lemma_group_secret_of_one_peer(first, x25519_public(second));
    lemma_group_secret_of_one_peer(second, x25519_public(first));
}

/// Reads a 32-byte key from hexadecimal text.
fn key_from_hex(text: &str) -> (r: Result<[u8; 32], KeyError>)
    ensures
        match hex_decoded(text@) {
            None => r == Err::<[u8; 32], KeyError>(KeyError::InvalidHex),
            Some(bytes) => if bytes.len() == 32 {
                r matches Ok(key) && key@ == bytes
            } else {
                r == Err::<[u8; 32], KeyError>(KeyError::WrongLength)
            },
        },
{
    match hex_decode(text) {
        None => Err(KeyError::InvalidHex),
        Some(bytes) => {
            if bytes.len() != 32 {
                return Err(KeyError::WrongLength);
            }
            let mut key = [0u8; 32];
            let mut i: usize = 0;
            while i < 32
                invariant
                    i <= 32,
                    bytes.len() == 32,
                    forall|j: int| 0 <= j < i ==> key@[j] == bytes@[j],
                decreases 32 - i,
            {
                key[i] = bytes[i];
                i += 1;
            }
            proof {
                assert(key@ =~= bytes@);
            }
            Ok(key)
        },
    }
}

/// The hexadecimal text of a public key.
pub fn public_key_to_hex(key: &PublicKey) -> (text: String)
    ensures
        text@ == hex_encoded(key@),
{
    hex_encode(key.as_slice())
}

/// Reads a public key from hexadecimal text.
pub fn public_key_from_hex(s: &str) -> (r: Result<PublicKey, KeyError>)
    ensures
        match hex_decoded(s@) {
            None => r == Err::<[u8; 32], KeyError>(KeyError::InvalidHex),
            Some(bytes) => if bytes.len() == 32 {
                r matches Ok(key) && key@ == bytes
            } else {
                r == Err::<[u8; 32], KeyError>(KeyError::WrongLength)
            },
        },
{
    key_from_hex(s)
}

} // verus!
