//! Interpretation of the persisted sync-state flag.
//!
//! Storage keeps at most one flag row whose text value records whether a
//! full statistics sync has ever completed. The check is deliberately
//! fail-open to "not synced": an absent row, an empty value, a non-numeric
//! value, or a value outside the unsigned byte range all read as `false`,
//! so callers always fall back to attempting a fresh sync instead of
//! trusting a damaged marker.

use vstd::prelude::*;

verus! {

/// The numeric value of a decimal digit character, if it is one.
pub open spec fn digit_of(c: char) -> Option<u8> {
    let v = c as u32;
    if 48 <= v && v <= 57 {
        Some((v - 48) as u8)
    } else {
        None
    }
}

/// Decimal parse of the characters from position `i` on, continuing from
/// the partial value `acc`: fails on a non-digit or once the value leaves
/// the unsigned byte range.
pub open spec fn spec_parse_u8_from(s: Seq<char>, i: int, acc: u8) -> Option<u8>
    decreases s.len() - i,
{
    if i >= s.len() {
        Some(acc)
    } else {
        match digit_of(s[i]) {
            None => None,
            Some(d) => {
                let x = acc * 10 + d;
                if x > 255 {
                    None
                } else {
                    spec_parse_u8_from(s, i + 1, x as u8)
                }
            },
        }
    }
}

/// Decimal parse of a whole character sequence as an unsigned byte;
/// the empty sequence is not a number.
pub open spec fn spec_parse_u8(s: Seq<char>) -> Option<u8> {
    if s.len() == 0 {
        None
    } else {
        spec_parse_u8_from(s, 0, 0)
    }
}

/// What a stored flag value means: synced exactly when the text parses as
/// a nonzero unsigned byte; an absent row or an unparseable value means
/// "never synced".
pub open spec fn sync_flag_set(flag: Option<Seq<char>>) -> bool {
    match flag {
        None => false,
        Some(v) => match spec_parse_u8(v) {
            Some(n) => n != 0,
            None => false,
        },
    }
}

/// Decimal parse of a string as an unsigned byte.
pub fn parse_u8(s: &str) -> (r: Option<u8>)
    ensures
        r == spec_parse_u8(s@),
{
    let n = s.unicode_len();
    if n == 0 {
        return None;
    }
    let mut acc: u8 = 0;
    let mut i: usize = 0;
    while i < n
        invariant
            0 <= i <= n,
            n == s@.len(),
            spec_parse_u8_from(s@, 0, 0) == spec_parse_u8_from(s@, i as int, acc),
        decreases n - i,
    {
        let c = s.get_char(i);
        let v = c as u32;
        if v < 48 || v > 57 {
            return None;
        }
        let d = (v - 48) as u8;
        if acc > 25 || (acc == 25 && d > 5) {
            return None;
        }
        acc = acc * 10 + d;
        i = i + 1;
    }
    Some(acc)
}

/// Interprets the sync-state flag row as read from storage: `None` stands
/// for "no row found" (including any read failure, which the caller
/// downgrades to `None` before calling). Never fails: every outcome is a
/// plain boolean.
pub fn interpret_sync_flag(row: Option<&String>) -> (r: bool)
    ensures
        r == sync_flag_set(match row {
            Some(v) => Some(v@),
            None => None,
        }),
{
    match row {
        None => false,
        Some(v) => match parse_u8(v.as_str()) {
            Some(n) => n != 0,
            None => false,
        },
    }
}

} // verus!
