//! Typed encode/decode helpers for the string-valued settings store.
//!
//! Settings rows are raw strings; booleans are stored as the two canonical
//! literals `"true"` / `"false"` and nothing else decodes.

use vstd::prelude::*;

verus! {

/// Canonical encoding of `true` in a settings row.
pub const BOOL_TRUE: &'static str = "true";

/// Canonical encoding of `false` in a settings row.
pub const BOOL_FALSE: &'static str = "false";

/// The characters of the canonical encoding of `v`.
pub open spec fn bool_literal(v: bool) -> Seq<char> {
    if v { seq!['t', 'r', 'u', 'e'] } else { seq!['f', 'a', 'l', 's', 'e'] }
}

/// Encode a `bool` for persistence: always one of the two canonical literals.
pub fn encode_bool(v: bool) -> (r: &'static str)
    ensures
        r@ == bool_literal(v),
{
    proof {
        reveal_strlit("true");
        reveal_strlit("false");
        assert("true"@ =~= bool_literal(true));
        assert("false"@ =~= bool_literal(false));
    }
    if v {
        BOOL_TRUE
    } else {
        BOOL_FALSE
    }
}

}

verus! {

/// The value a settings row decodes to: only the canonical literals decode.
pub open spec fn decode_spec(raw: Option<Seq<char>>) -> Option<bool> {
    if raw == Some(bool_literal(true)) {
        Some(true)
    } else if raw == Some(bool_literal(false)) {
        Some(false)
    } else {
        None
    }
}

/// Decodes a persisted bool row strictly: `"true"` and `"false"` decode,
/// anything else (including an absent row) is `None`.
pub fn decode_bool(raw: Option<&str>) -> (r: Option<bool>)
    ensures
        r == decode_spec(match raw {
            Some(s) => Some(s@),
            None => None,
        }),
{
    proof {
        reveal_strlit("true");
        reveal_strlit("false");
        assert("true"@ =~= bool_literal(true));
        assert("false"@ =~= bool_literal(false));
    }
    match raw {
        Some(s) => {
            if crate::text::str_eq(s, BOOL_TRUE) {
                Some(true)
            } else if crate::text::str_eq(s, BOOL_FALSE) {
                Some(false)
            } else {
                None
            }
        },
        None => None,
    }
}

/// Encoding then decoding gives the value back.
pub proof fn law_bool_round_trip(v: bool)
    ensures
        decode_spec(Some(bool_literal(v))) == Some(v),
{
    if !v {
        assert(bool_literal(false) != bool_literal(true)) by {
            assert(bool_literal(false).len() != bool_literal(true).len());
        }
    }
}

} // verus!
