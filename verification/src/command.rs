//! Decoding and parsing of raw command payloads into drive intents.
//!
//! A payload is a byte string expected to hold valid UTF-8 text of the
//! shape `<direction-token>["-" <state-token>]`, possibly followed by
//! trailing null padding. Parsing is a pure function of the bytes:
//! [`parse`] refuses a payload that is not valid UTF-8 and otherwise maps
//! each recognized token to the matching field of a [`DriveIntent`],
//! diagnosing (but tolerating) unrecognized tokens.

use vstd::prelude::*;
use crate::motor::Direction;

verus! {

/// The parsed result of one command message: a direction change and/or an
/// enable change. A field is present exactly when the corresponding token
/// was recognized; a fully malformed message yields neither and causes no
/// state change.
#[derive(Clone, Copy, PartialEq, Eq, Debug)]
pub struct DriveIntent {
    /// Present iff the message's direction token was recognized.
    pub direction: Option<Direction>,
    /// Present iff the message's state token was recognized
    /// (`true` = "down"/enabled, `false` = "up"/disabled).
    pub enable: Option<bool>,
}

/// One successful parse, together with the non-fatal diagnostics the
/// caller is expected to log: whether the direction token was missing or
/// unrecognized, and whether a state token was present but unrecognized.
#[derive(Clone, Copy, PartialEq, Eq, Debug)]
pub struct ParseReport {
    /// The intent carried by the message.
    pub intent: DriveIntent,
    /// The direction token (possibly empty) was not one of the four known
    /// direction words.
    pub unknown_direction: bool,
    /// A separator was present but the state token after it was neither
    /// "down" nor "up".
    pub unknown_state: bool,
}

/// A UTF-8 continuation byte.
pub open spec fn is_continuation(b: u8) -> bool {
    0x80 <= b && b <= 0xBF
}

/// Whether `s` is a well-formed UTF-8 byte sequence: a concatenation of
/// one- to four-byte scalar encodings, excluding overlong forms, the
/// surrogate range and code points above `U+10FFFF`.
pub open spec fn utf8_valid(s: Seq<u8>) -> bool
    decreases s.len(),
{
    if s.len() == 0 {
        true
    } else {
        let b0 = s[0];
        if b0 < 0x80 {
            utf8_valid(s.skip(1))
        } else if 0xC2 <= b0 && b0 <= 0xDF {
            s.len() >= 2 && is_continuation(s[1]) && utf8_valid(s.skip(2))
        } else if b0 == 0xE0 {
            s.len() >= 3 && 0xA0 <= s[1] && s[1] <= 0xBF && is_continuation(s[2])
                && utf8_valid(s.skip(3))
        } else if b0 == 0xED {
            s.len() >= 3 && 0x80 <= s[1] && s[1] <= 0x9F && is_continuation(s[2])
                && utf8_valid(s.skip(3))
        } else if 0xE1 <= b0 && b0 <= 0xEF {
            s.len() >= 3 && is_continuation(s[1]) && is_continuation(s[2])
                && utf8_valid(s.skip(3))
        } else if b0 == 0xF0 {
            s.len() >= 4 && 0x90 <= s[1] && s[1] <= 0xBF && is_continuation(s[2])
                && is_continuation(s[3]) && utf8_valid(s.skip(4))
        } else if 0xF1 <= b0 && b0 <= 0xF3 {
            s.len() >= 4 && is_continuation(s[1]) && is_continuation(s[2])
                && is_continuation(s[3]) && utf8_valid(s.skip(4))
        } else if b0 == 0xF4 {
            s.len() >= 4 && 0x80 <= s[1] && s[1] <= 0x8F && is_continuation(s[2])
                && is_continuation(s[3]) && utf8_valid(s.skip(4))
        } else {
            false
        }
    }
}

/// `s` with its trailing null-padding bytes removed.
pub open spec fn strip_trailing_nuls(s: Seq<u8>) -> Seq<u8>
    decreases s.len(),
{
    if s.len() > 0 && s[s.len() - 1] == 0 {
        strip_trailing_nuls(s.drop_last())
    } else {
        s
    }
}

/// Index of the first `-` separator in `s`, or `s.len()` if there is none.
pub open spec fn first_dash(s: Seq<u8>) -> int
    decreases s.len(),
{
    if s.len() == 0 {
        0
    } else if s[0] == 45 {
        0
    } else {
        1 + first_dash(s.skip(1))
    }
}

/// The token `t` is exactly the direction word "fwd".
pub open spec fn is_fwd_token(t: Seq<u8>) -> bool {
    t.len() == 3 && t[0] == 102 && t[1] == 119 && t[2] == 100
}

/// The token `t` is exactly the direction word "back".
pub open spec fn is_back_token(t: Seq<u8>) -> bool {
    t.len() == 4 && t[0] == 98 && t[1] == 97 && t[2] == 99 && t[3] == 107
}

/// The token `t` is exactly the direction word "left".
pub open spec fn is_left_token(t: Seq<u8>) -> bool {
    t.len() == 4 && t[0] == 108 && t[1] == 101 && t[2] == 102 && t[3] == 116
}

/// The token `t` is exactly the direction word "right".
pub open spec fn is_right_token(t: Seq<u8>) -> bool {
    t.len() == 5 && t[0] == 114 && t[1] == 105 && t[2] == 103 && t[3] == 104 && t[4] == 116
}

/// Case-sensitive, exact direction token mapping: "fwd", "back", "left",
/// "right"; anything else (the empty token included) is unrecognized.
pub open spec fn direction_token(t: Seq<u8>) -> Option<Direction> {
    if is_fwd_token(t) {
        Some(Direction::Forward)
    } else if is_back_token(t) {
        Some(Direction::Back)
    } else if is_left_token(t) {
        Some(Direction::Left)
    } else if is_right_token(t) {
        Some(Direction::Right)
    } else {
        None
    }
}

/// The token `t` is exactly the state word "down".
pub open spec fn is_down_token(t: Seq<u8>) -> bool {
    t.len() == 4 && t[0] == 100 && t[1] == 111 && t[2] == 119 && t[3] == 110
}

/// The token `t` is exactly the state word "up".
pub open spec fn is_up_token(t: Seq<u8>) -> bool {
    t.len() == 2 && t[0] == 117 && t[1] == 112
}

/// Case-sensitive, exact state token mapping: "down" enables, "up"
/// disables; anything else is unrecognized.
pub open spec fn state_token(t: Seq<u8>) -> Option<bool> {
    if is_down_token(t) {
        Some(true)
    } else if is_up_token(t) {
        Some(false)
    } else {
        None
    }
}

/// The parse of the already-stripped text `t`: the direction token runs to
/// the first separator (or the end); if a separator is present, the state
/// token runs from it to the next separator (or the end), and any further
/// bytes are ignored.
pub open spec fn parse_tokens(t: Seq<u8>) -> ParseReport {
    let d = first_dash(t);
    let dir = direction_token(t.take(d));
    if d == t.len() {
        ParseReport {
            intent: DriveIntent { direction: dir, enable: None },
            unknown_direction: dir is None,
            unknown_state: false,
        }
    } else {
        let rest = t.skip(d + 1);
        let st = state_token(rest.take(first_dash(rest)));
        ParseReport {
            intent: DriveIntent { direction: dir, enable: st },
            unknown_direction: dir is None,
            unknown_state: st is None,
        }
    }
}

/// The parse of a raw payload: no intent at all if the bytes are not valid
/// UTF-8; otherwise the token parse of the text with its trailing null
/// padding stripped.
pub open spec fn spec_parse(raw: Seq<u8>) -> Option<ParseReport> {
    if utf8_valid(raw) {
        Some(parse_tokens(strip_trailing_nuls(raw)))
    } else {
        None
    }
}

/// `first_dash` is exactly characterized by "no separator before `k`, and
/// a separator (or the end) at `k`".
proof fn lemma_first_dash_at(s: Seq<u8>, k: int)
    requires
        0 <= k <= s.len(),
        forall|j: int| 0 <= j < k ==> s[j] != 45,
        k == s.len() || s[k] == 45,
    ensures
        first_dash(s) == k,
    decreases s.len(),
{
    if s.len() == 0 {
    } else if s[0] == 45 {
        assert(k == 0);
    } else {
        let t = s.skip(1);
        assert(k >= 1);
        assert forall|j: int| 0 <= j < k - 1 implies t[j] != 45 by {
            assert(t[j] == s[j + 1]);
        }
        if k < s.len() {
            assert(t[k - 1] == s[k]);
        }
        lemma_first_dash_at(t, k - 1);
    }
}

/// Whether `s` is valid UTF-8, checked byte by byte.
pub fn check_utf8(s: &[u8]) -> (r: bool)
    ensures
        r == utf8_valid(s@),
{
    let n = s.len();
    let mut i: usize = 0;
    proof {
        assert(s@.skip(0) =~= s@);
    }
    while i < n
        invariant
            i <= n,
            n == s@.len(),
            utf8_valid(s@) == utf8_valid(s@.skip(i as int)),
        decreases n - i,
    {
        let ghost rest = s@.skip(i as int);
        let b0 = s[i];
        if b0 < 0x80 {
            proof {
                assert(rest.skip(1) =~= s@.skip(i + 1));
            }
            i = i + 1;
        } else if 0xC2 <= b0 && b0 <= 0xDF {
            if n - i < 2 {
                return false;
            }
            let b1 = s[i + 1];
            if !(0x80 <= b1 && b1 <= 0xBF) {
                return false;
            }
            proof {
                assert(rest.skip(2) =~= s@.skip(i + 2));
            }
            i = i + 2;
        } else if 0xE0 <= b0 && b0 <= 0xEF {
            if n - i < 3 {
                return false;
            }
            let b1 = s[i + 1];
            let b2 = s[i + 2];
            let b1_ok = if b0 == 0xE0 {
                0xA0 <= b1 && b1 <= 0xBF
            } else if b0 == 0xED {
                0x80 <= b1 && b1 <= 0x9F
            } else {
                0x80 <= b1 && b1 <= 0xBF
            };
            if !b1_ok {
                return false;
            }
            if !(0x80 <= b2 && b2 <= 0xBF) {
                return false;
            }
            proof {
                assert(rest.skip(3) =~= s@.skip(i + 3));
            }
            i = i + 3;
        } else if 0xF0 <= b0 && b0 <= 0xF4 {
            if n - i < 4 {
                return false;
            }
            let b1 = s[i + 1];
            let b2 = s[i + 2];
            let b3 = s[i + 3];
            let b1_ok = if b0 == 0xF0 {
                0x90 <= b1 && b1 <= 0xBF
            } else if b0 == 0xF4 {
                0x80 <= b1 && b1 <= 0x8F
            } else {
                0x80 <= b1 && b1 <= 0xBF
            };
            if !b1_ok {
                return false;
            }
            if !(0x80 <= b2 && b2 <= 0xBF) {
                return false;
            }
            if !(0x80 <= b3 && b3 <= 0xBF) {
                return false;
            }
            proof {
                assert(rest.skip(4) =~= s@.skip(i + 4));
            }
            i = i + 4;
        } else {
            return false;
        }
    }
    proof {
        assert(s@.skip(i as int) =~= Seq::<u8>::empty());
    }
    true
}

/// Length of `s` once its trailing null padding is stripped.
fn stripped_end(s: &[u8]) -> (r: usize)
    ensures
        r <= s@.len(),
        strip_trailing_nuls(s@) == s@.take(r as int),
{
    let mut end = s.len();
    proof {
        assert(s@.take(end as int) =~= s@);
    }
    while end > 0 && s[end - 1] == 0
        invariant
            end <= s@.len(),
            strip_trailing_nuls(s@) == strip_trailing_nuls(s@.take(end as int)),
        decreases end,
    {
        proof {
            let t = s@.take(end as int);
            assert(t[t.len() - 1] == s@[end - 1]);
            assert(t.drop_last() =~= s@.take(end - 1));
        }
        end = end - 1;
    }
    proof {
        let t = s@.take(end as int);
        if end > 0 {
            assert(t[t.len() - 1] == s@[end - 1]);
        }
        assert(strip_trailing_nuls(t) == t);
    }
    end
}

/// Index of the first `-` separator in `s[from..to]`, or `to` if there is
/// none.
fn find_dash(s: &[u8], from: usize, to: usize) -> (r: usize)
    requires
        from <= to <= s@.len(),
    ensures
        from <= r <= to,
        r - from == first_dash(s@.subrange(from as int, to as int)),
{
    let mut i = from;
    while i < to && s[i] != 45
        invariant
            from <= i <= to <= s@.len(),
            forall|j: int| from <= j < i ==> s@[j] != 45,
        decreases to - i,
    {
        i = i + 1;
    }
    proof {
        let t = s@.subrange(from as int, to as int);
        assert forall|j: int| 0 <= j < i - from implies t[j] != 45 by {
            assert(t[j] == s@[from + j]);
        }
        if i < to {
            assert(t[i - from] == s@[i as int]);
        }
        lemma_first_dash_at(t, i - from);
    }
    i
}

/// The direction token held in `s[from..to]`, if it is one of the four
/// known direction words.
fn direction_token_at(s: &[u8], from: usize, to: usize) -> (r: Option<Direction>)
    requires
        from <= to <= s@.len(),
    ensures
        r == direction_token(s@.subrange(from as int, to as int)),
{
    let n = to - from;
    if n == 3 && s[from] == 102 && s[from + 1] == 119 && s[from + 2] == 100 {
        Some(Direction::Forward)
    } else if n == 4 && s[from] == 98 && s[from + 1] == 97 && s[from + 2] == 99
        && s[from + 3] == 107 {
        Some(Direction::Back)
    } else if n == 4 && s[from] == 108 && s[from + 1] == 101 && s[from + 2] == 102
        && s[from + 3] == 116 {
        Some(Direction::Left)
    } else if n == 5 && s[from] == 114 && s[from + 1] == 105 && s[from + 2] == 103
        && s[from + 3] == 104 && s[from + 4] == 116 {
        Some(Direction::Right)
    } else {
        None
    }
}

/// The state token held in `s[from..to]`, if it is "down" or "up".
fn state_token_at(s: &[u8], from: usize, to: usize) -> (r: Option<bool>)
    requires
        from <= to <= s@.len(),
    ensures
        r == state_token(s@.subrange(from as int, to as int)),
{
    let n = to - from;
    if n == 4 && s[from] == 100 && s[from + 1] == 111 && s[from + 2] == 119
        && s[from + 3] == 110 {
        Some(true)
    } else if n == 2 && s[from] == 117 && s[from + 1] == 112 {
        Some(false)
    } else {
        None
    }
}

/// Parse one raw command payload.
///
/// Returns `None` exactly when the payload is not valid UTF-8 (the caller
/// drops the message); otherwise returns the intent carried by the text
/// after trailing null padding is stripped, with a diagnostic flag for
/// each token that was present (or owed) but not recognized. Parsing is a
/// pure function of the bytes.
pub fn parse(raw: &[u8]) -> (r: Option<ParseReport>)
    ensures
        r == spec_parse(raw@),
{
    if !check_utf8(raw) {
        return None;
    }
    let end = stripped_end(raw);
    let ghost t = strip_trailing_nuls(raw@);
    let d = find_dash(raw, 0, end);
    proof {
        assert(t.take(d as int) =~= raw@.subrange(0, d as int));
    }
    let dir = direction_token_at(raw, 0, d);
    if d == end {
        Some(ParseReport {
            intent: DriveIntent { direction: dir, enable: None },
            unknown_direction: dir.is_none(),
            unknown_state: false,
        })
    } else {
        let ghost rest = t.skip(d + 1);
        proof {
            assert(rest =~= raw@.subrange(d + 1, end as int));
        }
        let e = find_dash(raw, d + 1, end);
        proof {
            assert(rest.take(first_dash(rest)) =~= raw@.subrange(d + 1, e as int));
        }
        let st = state_token_at(raw, d + 1, e);
        Some(ParseReport {
            intent: DriveIntent { direction: dir, enable: st },
            unknown_direction: dir.is_none(),
            unknown_state: st.is_none(),
        })
    }
}

} // verus!
