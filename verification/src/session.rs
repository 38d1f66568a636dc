//! The message-handling boundary: applying parsed intents to the shared
//! motor state under the payload-size and decode-failure policies.

use vstd::prelude::*;
use crate::command::DriveIntent;
use crate::command::parse;
use crate::command::parse_tokens;
use crate::command::strip_trailing_nuls;
use crate::command::utf8_valid;
use crate::motor::MotorControl;

verus! {

/// Longest accepted payload, in bytes; anything longer closes the session.
pub const MAX_LEN: usize = 128;

/// What the message-handling boundary decided about one inbound payload.
#[derive(Clone, Copy, PartialEq, Eq, Structural, Debug)]
pub enum HandleOutcome {
    /// The payload exceeded [`MAX_LEN`]: the transport must close the
    /// connection and raise a size violation; the payload never reaches
    /// the parser.
    SizeViolation,
    /// The payload was not valid UTF-8: it is dropped (after logging) and
    /// the session continues.
    DecodeFailure,
    /// The payload was parsed and its intent applied; unrecognized tokens
    /// were diagnosed and the corresponding field left unapplied.
    Applied,
}

/// The state after applying `i` to `s`: the direction change first (if the
/// intent carries one), then the enable change (if it carries one).
pub open spec fn apply_intent_spec(s: MotorControl, i: DriveIntent) -> MotorControl {
    let after_direction = match i.direction {
        Some(d) => s.with_direction(d),
        None => s,
    };
    match i.enable {
        Some(e) => after_direction.with_enable(e),
        None => after_direction,
    }
}

/// Apply one parsed intent to the motor state: direction first, then
/// enable; an absent field causes no change. The caller must hold the
/// shared state exclusively for the whole call, which the `&mut` borrow
/// enforces.
pub fn apply_intent(state: &mut MotorControl, intent: DriveIntent)
    ensures
        *final(state) == apply_intent_spec(*old(state), intent),
{
    if let Some(d) = intent.direction {
        state.set_direction(d);
    }
    if let Some(e) = intent.enable {
        state.set_enable(e);
    }
}

/// Handle one inbound payload against the shared motor state: enforce the
/// size limit, decode, parse, and apply the intent.
///
/// An oversized or undecodable payload leaves the state untouched; an
/// oversized one never reaches the parser. Unrecognized tokens within a
/// decodable payload are non-fatal: the other token, if recognized, is
/// still applied. The caller must hold the state exclusively for the whole
/// call, which the `&mut` borrow enforces.
pub fn handle_message(state: &mut MotorControl, raw: &[u8]) -> (r: HandleOutcome)
    ensures
        r is SizeViolation <==> raw@.len() > MAX_LEN,
        r is DecodeFailure <==> raw@.len() <= MAX_LEN && !utf8_valid(raw@),
        r is Applied <==> raw@.len() <= MAX_LEN && utf8_valid(raw@),
        r is Applied ==> *final(state) == apply_intent_spec(
            *old(state),
            parse_tokens(strip_trailing_nuls(raw@)).intent,
        ),
        !(r is Applied) ==> *final(state) == *old(state),
        old(state).wf() ==> final(state).wf(),
{
    if raw.len() > MAX_LEN {
        return HandleOutcome::SizeViolation;
    }
    match parse(raw) {
        None => HandleOutcome::DecodeFailure,
        Some(report) => {
            apply_intent(state, report.intent);
            HandleOutcome::Applied
        },
    }
}

/// Decode, parse and apply one payload, swallowing all non-fatal
/// diagnostics: an undecodable payload is a no-op. The size limit is the
/// transport's concern and is not checked here; see [`handle_message`].
pub fn apply(state: &mut MotorControl, raw: &[u8])
    ensures
        utf8_valid(raw@) ==> *final(state) == apply_intent_spec(
            *old(state),
            parse_tokens(strip_trailing_nuls(raw@)).intent,
        ),
        !utf8_valid(raw@) ==> *final(state) == *old(state),
        old(state).wf() ==> final(state).wf(),
{
    match parse(raw) {
        None => (),
        Some(report) => apply_intent(state, report.intent),
    }
}

/// Applying any intent preserves well-formedness: the two enable flags
/// are only ever written together, so they never come apart.
pub proof fn lemma_apply_preserves_wf(s: MotorControl, i: DriveIntent)
    requires
        s.wf(),
    ensures
        apply_intent_spec(s, i).wf(),
{
}

/// Idempotence: applying the same intent twice in sequence leaves the
/// state exactly as applying it once does.
pub proof fn lemma_apply_idempotent(s: MotorControl, i: DriveIntent)
    ensures
        apply_intent_spec(apply_intent_spec(s, i), i) == apply_intent_spec(s, i),
{
}

/// Serializability of concurrent intents: mutual exclusion over the state
/// means two intents from separate contexts are applied one after the
/// other, so the final state is the one produced by some serial order of
/// the two, and it is never a mixed (ill-formed) configuration.
pub proof fn lemma_serial_application(s: MotorControl, i1: DriveIntent, i2: DriveIntent)
    requires
        s.wf(),
    ensures
        apply_intent_spec(apply_intent_spec(s, i1), i2).wf(),
        exists|first: DriveIntent, second: DriveIntent|
            ((first == i1 && second == i2) || (first == i2 && second == i1))
                && apply_intent_spec(apply_intent_spec(s, i1), i2)
                    == apply_intent_spec(apply_intent_spec(s, first), second),
{
}

} // verus!
