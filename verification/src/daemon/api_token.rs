//! The token that guards the local control surface.

use vstd::prelude::*;
use vstd::utf8::{decode_utf8, encode_utf8, encode_utf8_decode_utf8};
use crate::text::{hex_encode, hex_encoded, join};

verus! {

/// Number of random bytes in a token.
pub const TOKEN_LENGTH: usize = 32;

/// A text without the white space at its ends.
pub uninterp spec fn trimmed(text: Seq<char>) -> Seq<char>;

/// Takes the white space off both ends of a text.
///
/// Trusted: calls `str::trim` of the standard library. The contract names
/// the result, which depends on the text alone.
#[verifier::external_body]
pub(crate) fn trim_text(text: &str) -> (r: String)
    ensures
        r@ == trimmed(text@),
{
    text.trim().to_string()
}

/// Draws `count` random bytes.
///
/// Trusted: calls `Rng::gen` of `rand` on the thread's generator once for
/// every byte. The bytes are random; the contract states only how many
/// there are.
#[verifier::external_body]
pub(crate) fn random_bytes(count: usize) -> (bytes: Vec<u8>)
    ensures
        bytes@.len() == count,
{
    let mut rng = rand::thread_rng();
    (0..count).map(|_| rand::Rng::gen(&mut rng)).collect()
}

/// Compares two byte strings in time that depends on their lengths only.
pub fn constant_time_eq(a: &[u8], b: &[u8]) -> (r: bool)
    ensures
        r == (a@ == b@),
{
    if a.len() != b.len() {
        return false;
    }
    let mut result: u8 = 0;
    let mut i: usize = 0;
    proof {
        assert(a@.subrange(0, 0) =~= b@.subrange(0, 0));
    }
    while i < a.len()
        invariant
            i <= a.len(),
            a.len() == b.len(),
            result == 0 <==> a@.subrange(0, i as int) == b@.subrange(0, i as int),
        decreases a.len() - i,
    {
        let x = a[i];
        let y = b[i];
        let ghost before = result;
        result = result | (x ^ y);
        proof {
            assert((before | (x ^ y)) == 0 <==> (before == 0 && x == y)) by (bit_vector);
            let pa = a@.subrange(0, i as int);
            let pb = b@.subrange(0, i as int);
            let na = a@.subrange(0, i + 1);
            let nb = b@.subrange(0, i + 1);
            if na == nb {
                assert(na[i as int] == nb[i as int]);
                assert(pa =~= na.subrange(0, i as int));
                assert(pb =~= nb.subrange(0, i as int));
            }
            if pa == pb && x == y {
                assert(na =~= pa.push(x));
                assert(nb =~= pb.push(y));
            }
        }
        i += 1;
    }
    proof {
        assert(a@.subrange(0, a.len() as int) =~= a@);
        assert(b@.subrange(0, b.len() as int) =~= b@);
    }
    result == 0
}

/// Generates a token: 32 random bytes in hexadecimal, 64 characters.
pub fn generate_token() -> (token: String)
    ensures
        token@.len() == 2 * TOKEN_LENGTH,
        exists|bytes: Seq<u8>| bytes.len() == TOKEN_LENGTH && token@ == hex_encoded(bytes),
{
    let bytes = random_bytes(TOKEN_LENGTH);
    hex_encode(bytes.as_slice())
}

/// The keeper of the control surface's token.
pub struct ApiTokenManager {
    token_path: String,
    token: String,
}

impl ApiTokenManager {
    /// The current token.
    pub closed spec fn token_text(&self) -> Seq<char> {
        self.token@
    }

    /// The path of the token file.
    pub closed spec fn path_text(&self) -> Seq<char> {
        self.token_path@
    }

    /// The manager for the token file `api.token` below `data_dir`. With
    /// the content of an existing file the token is that content without
    /// the white space at its ends; without, a token is generated and is
    /// for the caller to store.
    pub fn load_or_create(data_dir: &str, stored: Option<&str>) -> (m: Self)
        ensures
            m.path_text() == data_dir@ + "/api.token"@,
            stored matches Some(content) ==> m.token_text() == trimmed(content@),
            stored is None ==> m.token_text().len() == 2 * TOKEN_LENGTH,
    {
        let token_path = join(data_dir, "/api.token");
        let token = match stored {
            Some(content) => trim_text(content),
            None => generate_token(),
        };
        ApiTokenManager { token_path, token }
    }

    /// The current token.
    pub fn token(&self) -> (t: &str)
        ensures
            t@ == self.token_text(),
    {
        self.token.as_str()
    }

    /// True exactly when `token` is the current token.
    pub fn validate(&self, token: &str) -> (r: bool)
        ensures
            r == (token@ == self.token_text()),
    {
        proof {
            encode_utf8_decode_utf8(token@);
            encode_utf8_decode_utf8(self.token@);
        }
        constant_time_eq(self.token.as_str().as_bytes(), token.as_bytes())
    }

    /// Replaces the token by a freshly generated one, which is for the
    /// caller to store. The old token is valid no longer.
    pub fn regenerate(&mut self) -> (t: &str)
        ensures
            t@ == final(self).token_text(),
            final(self).token_text().len() == 2 * TOKEN_LENGTH,
            final(self).path_text() == old(self).path_text(),
    {
        self.token = generate_token();
        self.token.as_str()
    }

    /// The path of the token file.
    pub fn token_path(&self) -> (p: &str)
        ensures
            p@ == self.path_text(),
    {
        self.token_path.as_str()
    }
}

} // verus!
