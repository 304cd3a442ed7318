//! The checks of the local control surface: who may call it, and how a
//! pairing outcome is reported.

use vstd::prelude::*;
use vstd::string::StrSliceExecFns;
use crate::daemon::api_token::ApiTokenManager;
use crate::daemon::pairing::{PairingResult, PairingResultView};
use crate::text::{join, starts_with};

verus! {

/// Why a call to the control surface is refused.
#[derive(Debug, Clone, Copy, PartialEq, Eq, Structural)]
pub enum ApiDenial {
    /// The token is missing or wrong.
    Unauthorized,
    /// The call comes from a web page.
    Forbidden,
    /// The daemon could not serve the call.
    Internal,
}

impl ApiDenial {
    /// The HTTP status of the refusal.
    pub fn status_code(&self) -> (code: u16)
        ensures
            code == match self {
                ApiDenial::Unauthorized => 401u16,
                ApiDenial::Forbidden => 403u16,
                ApiDenial::Internal => 500u16,
            },
    {
        match self {
            ApiDenial::Unauthorized => 401,
            ApiDenial::Forbidden => 403,
            ApiDenial::Internal => 500,
        }
    }
}

/// True when a call with this origin may pass: callers without an origin
/// and browser extensions may, web pages may not.
pub open spec fn origin_allowed(origin: Option<Seq<char>>) -> bool {
    match origin {
        None => true,
        Some(o) => "moz-extension://"@.is_prefix_of(o) || "chrome-extension://"@.is_prefix_of(o),
    }
}

/// Checks the origin of a call.
pub fn check_origin(origin: Option<&str>) -> (r: Result<(), ApiDenial>)
    ensures
        r is Ok <==> origin_allowed(origin.deep_view()),
        r matches Err(e) ==> e == ApiDenial::Forbidden,
{
    match origin {
        None => Ok(()),
        Some(o) => {
            if starts_with(o, "moz-extension://") || starts_with(o, "chrome-extension://") {
                Ok(())
            } else {
                Err(ApiDenial::Forbidden)
            }
        },
    }
}

/// Checks the token of a call.
pub fn validate_token(token: Option<&str>, manager: &ApiTokenManager) -> (r: Result<(), ApiDenial>)
    ensures
        r is Ok <==> token.deep_view() == Some(manager.token_text()),
        r matches Err(e) ==> e == ApiDenial::Unauthorized,
{
    match token {
        Some(t) => {
            if manager.validate(t) {
                Ok(())
            } else {
                Err(ApiDenial::Unauthorized)
            }
        },
        None => Err(ApiDenial::Unauthorized),
    }
}

/// Admits or refuses a call: a forbidden origin is refused first, then a
/// missing or wrong token.
pub fn authorize(origin: Option<&str>, token: Option<&str>, manager: &ApiTokenManager) -> (r:
    Result<(), ApiDenial>)
    ensures
        if !origin_allowed(origin.deep_view()) {
            r matches Err(e) && e == ApiDenial::Forbidden
        } else if token.deep_view() != Some(manager.token_text()) {
            r matches Err(e) && e == ApiDenial::Unauthorized
        } else {
            r is Ok
        },
{
    match check_origin(origin) {
        Err(e) => Err(e),
        Ok(()) => validate_token(token, manager),
    }
}

/// The word that reports a pairing outcome to the joiner.
pub open spec fn pairing_status_text(result: PairingResultView) -> Seq<char> {
    match result {
        PairingResultView::Accepted(_) => "accepted"@,
        PairingResultView::Rejected => "rejected"@,
        PairingResultView::Expired => "expired"@,
        PairingResultView::InvalidCode => "invalid_code"@,
    }
}

/// The word that reports a pairing outcome to the joiner.
pub fn pairing_status(result: &PairingResult) -> (s: &'static str)
    ensures
        s@ == pairing_status_text(result@),
{
    match result {
        PairingResult::Accepted(_) => "accepted",
        PairingResult::Rejected => "rejected",
        PairingResult::Expired => "expired",
        PairingResult::InvalidCode => "invalid_code",
    }
}

/// The short form of a public key for display: its first and last eight
/// characters around three dots, or the whole key when it has fewer than
/// sixteen characters.
pub open spec fn fingerprint_text(public_key: Seq<char>) -> Seq<char> {
    if public_key.len() >= 16 {
        public_key.subrange(0, 8) + "..."@ + public_key.subrange(
            public_key.len() - 8,
            public_key.len() as int,
        )
    } else {
        public_key
    }
}

/// The short form of a public key for display.
pub fn fingerprint(public_key: &str) -> (r: String)
    ensures
        r@ == fingerprint_text(public_key@),
{
    let n = public_key.unicode_len();
    if n >= 16 {
        let head = public_key.substring_char(0, 8);
        let tail = public_key.substring_char(n - 8, n);
        let front = join(head, "...");
        join(front.as_str(), tail)
    } else {
        public_key.to_owned()
    }
}

} // verus!
