//! Verified parsing of environment-variable text into scalar values:
//! decimal integers with an optional sign, and the two boolean words.
//! A value that does not parse is treated as absent, never as an error.

use vstd::prelude::*;
use crate::value::{ScalarKind, Value, ValueV};

verus! {

pub open spec fn is_digit(c: char) -> bool {
    48 <= c as u32 <= 57
}

pub open spec fn digit_val(c: char) -> int {
    c as u32 - 48
}

pub open spec fn all_digits(s: Seq<char>) -> bool {
    forall|i: int| 0 <= i < s.len() ==> is_digit(#[trigger] s[i])
}

/// The value of a digit run read as a decimal number.
pub open spec fn digits_val(s: Seq<char>) -> int
    decreases s,
{
    if s.len() == 0 {
        0
    } else {
        digits_val(s.drop_last()) * 10 + digit_val(s.last())
    }
}

pub proof fn lemma_digits_val_nonneg(s: Seq<char>)
    requires
        all_digits(s),
    ensures
        digits_val(s) >= 0,
    decreases s,
{
    if s.len() > 0 {
        assert(all_digits(s.drop_last()));
        lemma_digits_val_nonneg(s.drop_last());
    }
}

pub proof fn lemma_digits_val_step(s: Seq<char>, k: int)
    requires
        0 <= k < s.len(),
    ensures
        digits_val(s.take(k + 1)) == digits_val(s.take(k)) * 10 + digit_val(s[k]),
{
    assert(s.take(k + 1).drop_last() =~= s.take(k));
    assert(s.take(k + 1).last() == s[k]);
}

/// The value of a digit run is at least the value of any of its prefixes.
pub proof fn lemma_digits_val_prefix_le(s: Seq<char>, k: int)
    requires
        all_digits(s),
        0 <= k <= s.len(),
    ensures
        digits_val(s.take(k)) <= digits_val(s),
    decreases s.len() - k,
{
    if k == s.len() {
        assert(s.take(k) =~= s);
    } else {
        assert(all_digits(s.take(k)));
        lemma_digits_val_nonneg(s.take(k));
        lemma_digits_val_step(s, k);
        lemma_digits_val_prefix_le(s, k + 1);
    }
}

/// The parse of a bare (unsigned, signless) digit run as a 64-bit value.
pub open spec fn spec_parse_digits(s: Seq<char>) -> Option<u64> {
    if s.len() > 0 && all_digits(s) && digits_val(s) <= u64::MAX {
        Some(digits_val(s) as u64)
    } else {
        None
    }
}

/// The digit run of `s` starting at `start`, read as a 64-bit value.
fn parse_digits(s: &str, start: usize) -> (r: Option<u64>)
    requires
        start <= s@.len(),
    ensures
        r == spec_parse_digits(s@.skip(start as int)),
{
    let ghost t = s@.skip(start as int);
    let n = s.unicode_len();
    if start == n {
        return None;
    }
    let mut acc: u64 = 0;
    let mut j: usize = start;
    while j < n
        invariant
            start <= j <= n,
            n == s@.len(),
            start < n,
            t == s@.skip(start as int),
            all_digits(t.take(j - start)),
            acc == digits_val(t.take(j - start)),
        decreases n - j,
    {
        let c = s.get_char(j);
        let u = c as u32;
        proof {
            assert(t[j - start] == s@[j as int]);
        }
        if u < 48 || u > 57 {
            proof {
                assert(!is_digit(t[j - start]));
                assert(!all_digits(t));
            }
            return None;
        }
        let d: u64 = (u - 48) as u64;
        proof {
            lemma_digits_val_step(t, j - start);
            assert(all_digits(t.take(j - start + 1)));
        }
        if acc > u64::MAX / 10 {
            proof {
                lemma_digits_val_nonneg(t.take(j - start));
                assert(digits_val(t.take(j - start + 1)) > u64::MAX);
                if all_digits(t) {
                    lemma_digits_val_prefix_le(t, j - start + 1);
                }
            }
            return None;
        }
        let acc10: u64 = acc * 10;
        if acc10 > u64::MAX - d {
            proof {
                assert(digits_val(t.take(j - start + 1)) > u64::MAX);
                if all_digits(t) {
                    lemma_digits_val_prefix_le(t, j - start + 1);
                }
            }
            return None;
        }
        acc = acc10 + d;
        j += 1;
    }
    proof {
        assert(t.take(n - start) =~= t);
    }
    Some(acc)
}

/// The parse of unsigned decimal text: an optional leading `+`, then one
/// digit or more, value at most `u64::MAX`. Anything else is absent.
pub open spec fn spec_parse_u64(s: Seq<char>) -> Option<u64> {
    if s.len() > 0 && s[0] == '+' {
        spec_parse_digits(s.drop_first())
    } else {
        spec_parse_digits(s)
    }
}

pub fn parse_u64(s: &str) -> (r: Option<u64>)
    ensures
        r == spec_parse_u64(s@),
{
    let n = s.unicode_len();
    if n > 0 && s.get_char(0) == '+' {
        proof {
            assert(s@.skip(1) =~= s@.drop_first());
        }
        parse_digits(s, 1)
    } else {
        proof {
            assert(s@.skip(0) =~= s@);
        }
        parse_digits(s, 0)
    }
}

/// The parse of signed decimal text: an optional leading `+` or `-`, then
/// one digit or more, value within the signed 64-bit range. Anything else
/// is absent.
pub open spec fn spec_parse_i64(s: Seq<char>) -> Option<i64> {
    if s.len() > 0 && s[0] == '-' {
        match spec_parse_digits(s.drop_first()) {
            Some(mag) => if mag <= 0x8000_0000_0000_0000u64 {
                Some((0 - mag as int) as i64)
            } else {
                None
            },
            None => None,
        }
    } else {
        match spec_parse_u64(s) {
            Some(mag) => if mag <= i64::MAX as u64 {
                Some(mag as i64)
            } else {
                None
            },
            None => None,
        }
    }
}

pub fn parse_i64(s: &str) -> (r: Option<i64>)
    ensures
        r == spec_parse_i64(s@),
{
    let n = s.unicode_len();
    if n > 0 && s.get_char(0) == '-' {
        proof {
            assert(s@.skip(1) =~= s@.drop_first());
        }
        match parse_digits(s, 1) {
            Some(mag) => {
                if mag > 0x8000_0000_0000_0000u64 {
                    None
                } else if mag == 0x8000_0000_0000_0000u64 {
                    Some(i64::MIN)
                } else {
                    Some(-(mag as i64))
                }
            },
            None => None,
        }
    } else {
        match parse_u64(s) {
            Some(mag) => {
                if mag > i64::MAX as u64 {
                    None
                } else {
                    Some(mag as i64)
                }
            },
            None => None,
        }
    }
}

/// The parse of boolean text: exactly `true` or `false`.
pub open spec fn spec_parse_bool(s: Seq<char>) -> Option<bool> {
    if s == "true"@ {
        Some(true)
    } else if s == "false"@ {
        Some(false)
    } else {
        None
    }
}

pub fn parse_bool(s: &str) -> (r: Option<bool>)
    ensures
        r == spec_parse_bool(s@),
{
    if crate::text::str_eq(s, "true") {
        Some(true)
    } else if crate::text::str_eq(s, "false") {
        Some(false)
    } else {
        None
    }
}

/// The parse of environment text into a value of the declared kind. Text
/// fields take the text as it stands; the other kinds parse it, and treat
/// an unparsable value as absent.
pub open spec fn parse_scalar_v(k: ScalarKind, raw: Seq<char>) -> Option<ValueV> {
    match k {
        ScalarKind::Int => match spec_parse_i64(raw) {
            Some(i) => Some(ValueV::Int(i)),
            None => None,
        },
        ScalarKind::Uint => match spec_parse_u64(raw) {
            Some(u) => Some(ValueV::Uint(u)),
            None => None,
        },
        ScalarKind::Bool => match spec_parse_bool(raw) {
            Some(b) => Some(ValueV::Bool(b)),
            None => None,
        },
        ScalarKind::Str => Some(ValueV::Str(raw)),
    }
}

pub fn parse_scalar(k: ScalarKind, raw: &str) -> (r: Option<Value>)
    ensures
        crate::layer::opt_value_view(r) == parse_scalar_v(k, raw@),
{
    match k {
        ScalarKind::Int => match parse_i64(raw) {
            Some(i) => Some(Value::Int(i)),
            None => None,
        },
        ScalarKind::Uint => match parse_u64(raw) {
            Some(u) => Some(Value::Uint(u)),
            None => None,
        },
        ScalarKind::Bool => match parse_bool(raw) {
            Some(b) => Some(Value::Bool(b)),
            None => None,
        },
        ScalarKind::Str => Some(Value::Str(raw.to_owned())),
    }
}

} // verus!
