//! The pairing state machine: a short-lived six-digit code lets one
//! joiner ask to be paired, and the initiator confirms or declines.
//!
//! The machine is a function from state, command and time to the next
//! state and the replies that are due. Whoever drives it holds the reply
//! channels and delivers the replies.

use vstd::prelude::*;
use crate::text::{decimal_digits, digit_value, str_eq, u64_to_string};

verus! {

/// How long a pairing code is valid, in milliseconds.
pub const CODE_EXPIRY_MS: u64 = 300_000;

/// The smallest pairing code.
pub const CODE_MIN: u32 = 100_000;

/// The largest pairing code.
pub const CODE_MAX: u32 = 999_999;

/// A six-digit pairing code.
pub type PairingCode = String;

/// A device as it introduces itself while pairing.
pub struct PartyView {
    pub device_id: Seq<char>,
    pub device_name: Seq<char>,
    pub public_key: Seq<char>,
}

/// The request of a joiner.
#[derive(Debug)]
pub struct PairingRequest {
    pub device_id: String,
    pub device_name: String,
    pub public_key: String,
}

/// The answer of the initiator.
#[derive(Debug)]
pub struct PairingResponse {
    pub device_id: String,
    pub device_name: String,
    pub public_key: String,
}

impl View for PairingRequest {
    type V = PartyView;

    open spec fn view(&self) -> PartyView {
        PartyView {
            device_id: self.device_id@,
            device_name: self.device_name@,
            public_key: self.public_key@,
        }
    }
}

impl DeepView for PairingRequest {
    type V = PartyView;

    open spec fn deep_view(&self) -> PartyView {
        self.view()
    }
}

impl View for PairingResponse {
    type V = PartyView;

    open spec fn view(&self) -> PartyView {
        PartyView {
            device_id: self.device_id@,
            device_name: self.device_name@,
            public_key: self.public_key@,
        }
    }
}

impl DeepView for PairingResponse {
    type V = PartyView;

    open spec fn deep_view(&self) -> PartyView {
        self.view()
    }
}

impl Clone for PairingRequest {
    fn clone(&self) -> (r: Self)
        ensures
            r@ == self@,
    {
        PairingRequest {
            device_id: self.device_id.clone(),
            device_name: self.device_name.clone(),
            public_key: self.public_key.clone(),
        }
    }
}

impl Clone for PairingResponse {
    fn clone(&self) -> (r: Self)
        ensures
            r@ == self@,
    {
        PairingResponse {
            device_id: self.device_id.clone(),
            device_name: self.device_name.clone(),
            public_key: self.public_key.clone(),
        }
    }
}

/// How a pairing attempt ended.
#[derive(Debug)]
pub enum PairingResult {
    Accepted(PairingResponse),
    Rejected,
    Expired,
    InvalidCode,
}

/// The end of a pairing attempt as plain data.
pub enum PairingResultView {
    Accepted(PartyView),
    Rejected,
    Expired,
    InvalidCode,
}

impl View for PairingResult {
    type V = PairingResultView;

    open spec fn view(&self) -> PairingResultView {
        match self {
            PairingResult::Accepted(r) => PairingResultView::Accepted(r@),
            PairingResult::Rejected => PairingResultView::Rejected,
            PairingResult::Expired => PairingResultView::Expired,
            PairingResult::InvalidCode => PairingResultView::InvalidCode,
        }
    }
}

impl DeepView for PairingResult {
    type V = PairingResultView;

    open spec fn deep_view(&self) -> PairingResultView {
        self.view()
    }
}

impl Clone for PairingResult {
    fn clone(&self) -> (r: Self)
        ensures
            r@ == self@,
    {
        match self {
            PairingResult::Accepted(r) => PairingResult::Accepted(r.clone()),
            PairingResult::Rejected => PairingResult::Rejected,
            PairingResult::Expired => PairingResult::Expired,
            PairingResult::InvalidCode => PairingResult::InvalidCode,
        }
    }
}

/// A command to the pairing state machine.
#[derive(Debug)]
pub enum PairingCommand {
    /// Initiator: open a session and get its code.
    CreateSession,
    /// Joiner: ask to be paired under a code.
    JoinSession { code: PairingCode, request: PairingRequest },
    /// Initiator: ask for the request that waits for confirmation.
    GetPendingRequest,
    /// Initiator: accept or decline the waiting request.
    RespondToRequest { accepted: bool, response: Option<PairingResponse> },
    /// Close the session.
    CancelSession,
}

/// A command as plain data.
pub enum PairingCommandView {
    CreateSession,
    JoinSession { code: Seq<char>, request: PartyView },
    GetPendingRequest,
    RespondToRequest { accepted: bool, response: Option<PartyView> },
    CancelSession,
}

impl View for PairingCommand {
    type V = PairingCommandView;

    open spec fn view(&self) -> PairingCommandView {
        match self {
            PairingCommand::CreateSession => PairingCommandView::CreateSession,
            PairingCommand::JoinSession { code, request } => PairingCommandView::JoinSession {
                code: code@,
                request: request@,
            },
            PairingCommand::GetPendingRequest => PairingCommandView::GetPendingRequest,
            PairingCommand::RespondToRequest {
                accepted,
                response,
            } => PairingCommandView::RespondToRequest {
                accepted: *accepted,
                response: response.deep_view(),
            },
            PairingCommand::CancelSession => PairingCommandView::CancelSession,
        }
    }
}

/// The replies that a command makes due.
#[derive(Debug)]
pub struct PairingEffect {
    /// The code to hand to the sender of `CreateSession`.
    pub code: Option<PairingCode>,
    /// The reply to the sender of this `JoinSession`, due at once.
    pub joiner_reply: Option<PairingResult>,
    /// The reply to the joiner who was held for confirmation before this
    /// command; that joiner is held no longer.
    pub held_reply: Option<PairingResult>,
    /// True when the sender of this `JoinSession` is now held for
    /// confirmation and gets its reply later.
    pub hold: bool,
    /// The reply to `GetPendingRequest`.
    pub pending_request: Option<PairingRequest>,
}

/// The replies as plain data.
pub struct PairingEffectView {
    pub code: Option<Seq<char>>,
    pub joiner_reply: Option<PairingResultView>,
    pub held_reply: Option<PairingResultView>,
    pub hold: bool,
    pub pending_request: Option<PartyView>,
}

impl View for PairingEffect {
    type V = PairingEffectView;

    open spec fn view(&self) -> PairingEffectView {
        PairingEffectView {
            code: self.code.deep_view(),
            joiner_reply: self.joiner_reply.deep_view(),
            held_reply: self.held_reply.deep_view(),
            hold: self.hold,
            pending_request: self.pending_request.deep_view(),
        }
    }
}

/// The state of the pairing machine.
pub enum PairingPhase {
    /// No session is open.
    Idle,
    /// A session is open under `code` since `created_at`; no joiner yet.
    AwaitingJoiner { code: Seq<char>, created_at: u64 },
    /// A joiner sent `request` under the code and is held until the
    /// initiator answers.
    AwaitingConfirmation { code: Seq<char>, created_at: u64, request: PartyView },
}

/// No reply is due.
pub open spec fn no_effect() -> PairingEffectView {
    PairingEffectView {
        code: None,
        joiner_reply: None,
        held_reply: None,
        hold: false,
        pending_request: None,
    }
}

/// True when a session opened at `created_at` is past its lifetime at
/// `now`; both in milliseconds on one monotonic clock.
pub open spec fn is_expired(created_at: u64, now: u64) -> bool {
    now > created_at && now - created_at > CODE_EXPIRY_MS
}

/// The reply that is due to a held joiner when the session closes.
pub open spec fn closing_reply(accepted: bool, response: Option<PartyView>) -> PairingResultView {
    match response {
        Some(r) => if accepted {
            PairingResultView::Accepted(r)
        } else {
            PairingResultView::Rejected
        },
        None => PairingResultView::Rejected,
    }
}

/// The transition function: the next state and the replies that are due
/// when `cmd` arrives at time `now`. `fresh_code` is the code that a new
/// session gets.
///
/// A new session replaces any open one, and a joiner who was held gets
/// `Rejected`. A joiner is held when its code matches within the
/// lifetime; past the lifetime the session closes with `Expired`; a wrong
/// code within the lifetime is answered `InvalidCode` and changes
/// nothing. A second joiner with the right code displaces the first, who
/// gets `Rejected`.
pub open spec fn pairing_step(
    phase: PairingPhase,
    cmd: PairingCommandView,
    now: u64,
    fresh_code: Seq<char>,
) -> (PairingPhase, PairingEffectView) {
    let held = phase is AwaitingConfirmation;
    let rejection = if held {
        Some(PairingResultView::Rejected)
    } else {
        None
    };
    match cmd {
        PairingCommandView::CreateSession => (
            PairingPhase::AwaitingJoiner { code: fresh_code, created_at: now },
            PairingEffectView { code: Some(fresh_code), held_reply: rejection, ..no_effect() },
        ),
        PairingCommandView::JoinSession { code, request } => match phase {
            PairingPhase::Idle => (
                PairingPhase::Idle,
                PairingEffectView {
                    joiner_reply: Some(PairingResultView::InvalidCode),
                    ..no_effect()
                },
            ),
            PairingPhase::AwaitingJoiner { code: expected, created_at } => if is_expired(
                created_at,
                now,
            ) {
                (
                    PairingPhase::Idle,
                    PairingEffectView {
                        joiner_reply: Some(PairingResultView::Expired),
                        ..no_effect()
                    },
                )
            } else if code != expected {
                (
                    phase,
                    PairingEffectView {
                        joiner_reply: Some(PairingResultView::InvalidCode),
                        ..no_effect()
                    },
                )
            } else {
                (
                    PairingPhase::AwaitingConfirmation { code: expected, created_at, request },
                    PairingEffectView { hold: true, ..no_effect() },
                )
            },
            PairingPhase::AwaitingConfirmation { code: expected, created_at, .. } => if is_expired(
                created_at,
                now,
            ) {
                (
                    PairingPhase::Idle,
                    PairingEffectView {
                        joiner_reply: Some(PairingResultView::Expired),
                        held_reply: rejection,
                        ..no_effect()
                    },
                )
            } else if code != expected {
                (
                    phase,
                    PairingEffectView {
                        joiner_reply: Some(PairingResultView::InvalidCode),
                        ..no_effect()
                    },
                )
            } else {
                (
                    PairingPhase::AwaitingConfirmation { code: expected, created_at, request },
                    PairingEffectView { hold: true, held_reply: rejection, ..no_effect() },
                )
            },
        },
        PairingCommandView::GetPendingRequest => (
            phase,
            PairingEffectView {
                pending_request: match phase {
                    PairingPhase::AwaitingConfirmation { request, .. } => Some(request),
                    _ => None,
                },
                ..no_effect()
            },
        ),
        PairingCommandView::RespondToRequest { accepted, response } => (
            PairingPhase::Idle,
            PairingEffectView {
                held_reply: if held {
                    Some(closing_reply(accepted, response))
                } else {
                    None
                },
                ..no_effect()
            },
        ),
        PairingCommandView::CancelSession => (
            PairingPhase::Idle,
            PairingEffectView { held_reply: rejection, ..no_effect() },
        ),
    }
}

/// True when `code` is the decimal form of a number from 100000 to
/// 999999.
pub open spec fn is_pairing_code(code: Seq<char>) -> bool {
    exists|n: u32| CODE_MIN <= n <= CODE_MAX && code == decimal_digits(n as nat)
}

/// Draws a number from `low` to `high`, both included.
///
/// Trusted: calls `Rng::gen_range` of `rand` on the thread's generator
/// with the inclusive range. The number is random; the contract states
/// only the range that it is drawn from. The call panics on an empty
/// range, which the precondition leaves out.
#[verifier::external_body]
pub(crate) fn random_in_range(low: u32, high: u32) -> (n: u32)
    requires
        low <= high,
    ensures
        low <= n <= high,
{
    rand::Rng::gen_range(&mut rand::thread_rng(), low..=high)
}

/// A code in the valid range has six characters, all decimal digits.
pub proof fn lemma_code_has_six_digits(n: u32)
    requires
        CODE_MIN <= n <= CODE_MAX,
    ensures
        decimal_digits(n as nat).len() == 6,
        forall|i: int| 0 <= i < 6 ==> digit_value(#[trigger] decimal_digits(n as nat)[i]) >= 0,
{
    reveal_with_fuel(decimal_digits, 7);
    let m = n as nat;
    assert(m / 10 >= 10 && m / 10 / 10 >= 10 && m / 10 / 10 / 10 >= 10 && m / 10 / 10 / 10 / 10
        >= 10 && m / 10 / 10 / 10 / 10 / 10 < 10);
}

/// Generates a pairing code: six decimal digits, from 100000 to 999999.
pub fn generate_pairing_code() -> (code: PairingCode)
    ensures
        is_pairing_code(code@),
        code@.len() == 6,
        forall|i: int| 0 <= i < 6 ==> digit_value(#[trigger] code@[i]) >= 0,
{
    let n = random_in_range(CODE_MIN, CODE_MAX);
    proof {
        lemma_code_has_six_digits(n);
    }
    u64_to_string(n as u64)
}

/// The exec form of the state.
enum Phase {
    Idle,
    AwaitingJoiner { code: String, created_at: u64 },
    AwaitingConfirmation { code: String, created_at: u64, request: PairingRequest },
}

/// The pairing state machine of one device.
pub struct PairingState {
    phase: Phase,
}

impl View for PairingState {
    type V = PairingPhase;

    closed spec fn view(&self) -> PairingPhase {
        match self.phase {
            Phase::Idle => PairingPhase::Idle,
            Phase::AwaitingJoiner { code, created_at } => PairingPhase::AwaitingJoiner {
                code: code@,
                created_at,
            },
            Phase::AwaitingConfirmation {
                code,
                created_at,
                request,
            } => PairingPhase::AwaitingConfirmation { code: code@, created_at, request: request@ },
        }
    }
}

/// True when a session opened at `created_at` is past its lifetime.
fn expired(created_at: u64, now: u64) -> (r: bool)
    ensures
        r == is_expired(created_at, now),
{
    now > created_at && now - created_at > CODE_EXPIRY_MS
}

/// An effect without any reply.
fn nothing() -> (e: PairingEffect)
    ensures
        e@ == no_effect(),
{
    PairingEffect {
        code: None,
        joiner_reply: None,
        held_reply: None,
        hold: false,
        pending_request: None,
    }
}

impl PairingState {
    /// A machine without a session.
    pub fn new() -> (s: Self)
        ensures
            s@ == PairingPhase::Idle,
    {
        PairingState { phase: Phase::Idle }
    }

    /// Takes one step with a given code for a new session.
    pub fn step(&mut self, cmd: PairingCommand, now: u64, fresh_code: PairingCode) -> (effect:
        PairingEffect)
        ensures
            (final(self)@, effect@) == pairing_step(old(self)@, cmd@, now, fresh_code@),
    {
        let mut phase = Phase::Idle;
        std::mem::swap(&mut phase, &mut self.phase);
        let held = match &phase {
            Phase::AwaitingConfirmation { .. } => true,
            _ => false,
        };
        let mut effect = nothing();
        match cmd {
            PairingCommand::CreateSession => {
                if held {
                    effect.held_reply = Some(PairingResult::Rejected);
                }
                effect.code = Some(fresh_code.clone());
                self.phase = Phase::AwaitingJoiner { code: fresh_code, created_at: now };
            },
            PairingCommand::JoinSession { code, request } => {
                match phase {
                    Phase::Idle => {
                        effect.joiner_reply = Some(PairingResult::InvalidCode);
                        self.phase = Phase::Idle;
                    },
                    Phase::AwaitingJoiner { code: expected, created_at } => {
                        if expired(created_at, now) {
                            effect.joiner_reply = Some(PairingResult::Expired);
                            self.phase = Phase::Idle;
                        } else if !str_eq(code.as_str(), expected.as_str()) {
                            effect.joiner_reply = Some(PairingResult::InvalidCode);
                            self.phase = Phase::AwaitingJoiner { code: expected, created_at };
                        } else {
                            effect.hold = true;
                            self.phase = Phase::AwaitingConfirmation {
                                code: expected,
                                created_at,
                                request,
                            };
                        }
                    },
                    Phase::AwaitingConfirmation { code: expected, created_at, request: waiting } => {
                        if expired(created_at, now) {
                            effect.joiner_reply = Some(PairingResult::Expired);
                            effect.held_reply = Some(PairingResult::Rejected);
                            self.phase = Phase::Idle;
                        } else if !str_eq(code.as_str(), expected.as_str()) {
                            effect.joiner_reply = Some(PairingResult::InvalidCode);
                            self.phase = Phase::AwaitingConfirmation {
                                code: expected,
                                created_at,
                                request: waiting,
                            };
                        } else {
                            effect.hold = true;
                            effect.held_reply = Some(PairingResult::Rejected);
                            self.phase = Phase::AwaitingConfirmation {
                                code: expected,
                                created_at,
                                request,
                            };
                        }
                    },
                }
            },
            PairingCommand::GetPendingRequest => {
                match &phase {
                    Phase::AwaitingConfirmation { request, .. } => {
                        effect.pending_request = Some(request.clone());
                    },
                    _ => {},
                }
                self.phase = phase;
            },
            PairingCommand::RespondToRequest { accepted, response } => {
                if held {
                    effect.held_reply = Some(
                        match response {
                            Some(r) => if accepted {
                                PairingResult::Accepted(r)
                            } else {
                                PairingResult::Rejected
                            },
                            None => PairingResult::Rejected,
                        },
                    );
                }
                self.phase = Phase::Idle;
            },
            PairingCommand::CancelSession => {
                if held {
                    effect.held_reply = Some(PairingResult::Rejected);
                }
                self.phase = Phase::Idle;
            },
        }
        effect
    }

    /// Takes one step; a new session gets a freshly drawn code.
    pub fn handle_command(&mut self, cmd: PairingCommand, now: u64) -> (effect: PairingEffect)
        ensures
            exists|code: Seq<char>|
                is_pairing_code(code) && code.len() == 6 && (final(self)@, effect@)
                    == #[trigger] pairing_step(old(self)@, cmd@, now, code),
    {
        let code = generate_pairing_code();
        self.step(cmd, now, code)
    }

    /// True when a session is open and within its lifetime at `now`.
    pub fn has_active_session(&self, now: u64) -> (r: bool)
        ensures
            r == match self@ {
                PairingPhase::Idle => false,
                PairingPhase::AwaitingJoiner { created_at, .. } => !is_expired(created_at, now),
                PairingPhase::AwaitingConfirmation { created_at, .. } => !is_expired(
                    created_at,
                    now,
                ),
            },
    {
        match &self.phase {
            Phase::Idle => false,
            Phase::AwaitingJoiner { created_at, .. } => !expired(*created_at, now),
            Phase::AwaitingConfirmation { created_at, .. } => !expired(*created_at, now),
        }
    }

    /// The code of the open session, if it is within its lifetime at
    /// `now`.
    pub fn current_code(&self, now: u64) -> (r: Option<&str>)
        ensures
            r.deep_view() == match self@ {
                PairingPhase::Idle => None::<Seq<char>>,
                PairingPhase::AwaitingJoiner { code, created_at } => if is_expired(
                    created_at,
                    now,
                ) {
                    None
                } else {
                    Some(code)
                },
                PairingPhase::AwaitingConfirmation { code, created_at, .. } => if is_expired(
                    created_at,
                    now,
                ) {
                    None
                } else {
                    Some(code)
                },
            },
    {
        match &self.phase {
            Phase::Idle => None,
            Phase::AwaitingJoiner { code, created_at } => if expired(*created_at, now) {
                None
            } else {
                Some(code.as_str())
            },
            Phase::AwaitingConfirmation { code, created_at, .. } => if expired(*created_at, now) {
                None
            } else {
                Some(code.as_str())
            },
        }
    }
}

impl Default for PairingState {
    fn default() -> (s: Self)
        ensures
            s@ == PairingPhase::Idle,
    {
        PairingState::new()
    }
}

} // verus!
