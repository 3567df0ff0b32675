use vstd::prelude::*;

use crate::data::ActionResult;
use crate::error::TianyiError;
use crate::numeric::{
    digit_val, digits_value, is_digit_char, lemma_digits_value_lower, lemma_digits_value_mono,
    lemma_pow10_mono, pow10,
};
use crate::token::chars_of;

verus! {

/// A blank character JSON allows between tokens.
pub open spec fn is_json_ws(c: char) -> bool {
    c == ' ' || c == '\t' || c == '\n' || c == '\r'
}

/// The first position at or after `i` that holds no blank.
pub open spec fn skip_ws(s: Seq<char>, i: int) -> int
    decreases s.len() - i,
{
    if i < s.len() && is_json_ws(s[i]) {
        skip_ws(s, i + 1)
    } else {
        i
    }
}

/// The first position at or after `i` that holds no decimal digit.
pub open spec fn skip_digits(s: Seq<char>, i: int) -> int
    decreases s.len() - i,
{
    if i < s.len() && is_digit_char(s[i]) {
        skip_digits(s, i + 1)
    } else {
        i
    }
}

/// The value of a rule-mutation response body: `Some(v)` exactly when
/// the body spells a JSON object `{"retVal": v}` — blanks allowed
/// between tokens, `v` a decimal integer with an optional minus sign
/// and no leading zero, nothing after the closing brace but blanks —
/// and `None` for every other body.
pub open spec fn action_result_value(s: Seq<char>) -> Option<int> {
    let p0 = skip_ws(s, 0);
    if !(p0 < s.len() && s[p0] == '{') {
        None
    } else {
        let p1 = skip_ws(s, p0 + 1);
        if !(p1 + 8 <= s.len() && s[p1] == '"' && s[p1 + 1] == 'r' && s[p1 + 2] == 'e'
            && s[p1 + 3] == 't' && s[p1 + 4] == 'V' && s[p1 + 5] == 'a' && s[p1 + 6] == 'l'
            && s[p1 + 7] == '"') {
            None
        } else {
            let p2 = skip_ws(s, p1 + 8);
            if !(p2 < s.len() && s[p2] == ':') {
                None
            } else {
                let p3 = skip_ws(s, p2 + 1);
                let neg = p3 < s.len() && s[p3] == '-';
                let ds = if neg {
                    p3 + 1
                } else {
                    p3
                };
                let de = skip_digits(s, ds);
                if !(ds < de && (de == ds + 1 || digit_val(s[ds]) != 0)) {
                    None
                } else {
                    let p4 = skip_ws(s, de);
                    if !(p4 < s.len() && s[p4] == '}' && skip_ws(s, p4 + 1) == s.len()) {
                        None
                    } else {
                        let mag = digits_value(s, ds, de);
                        Some(
                            if neg {
                                -mag
                            } else {
                                mag
                            },
                        )
                    }
                }
            }
        }
    }
}

fn is_json_ws_exec(c: char) -> (r: bool)
    ensures
        r == is_json_ws(c),
{
    c == ' ' || c == '\t' || c == '\n' || c == '\r'
}

fn is_digit_exec(c: char) -> (r: bool)
    ensures
        r == is_digit_char(c),
{
    let u = c as u32;
    '0' as u32 <= u && u <= '9' as u32
}

fn skip_ws_exec(v: &Vec<char>, i: usize) -> (r: usize)
    requires
        i <= v@.len(),
    ensures
        i <= r <= v@.len(),
        r == skip_ws(v@, i as int),
    decreases v@.len() - i,
{
    let mut j = i;
    while j < v.len() && is_json_ws_exec(v[j])
        invariant
            i <= j <= v@.len(),
            skip_ws(v@, i as int) == skip_ws(v@, j as int),
        decreases v@.len() - j,
    {
        j += 1;
    }
    j
}

fn skip_digits_exec(v: &Vec<char>, i: usize) -> (r: usize)
    requires
        i <= v@.len(),
    ensures
        i <= r <= v@.len(),
        r == skip_digits(v@, i as int),
        forall|k: int| i <= k < r ==> is_digit_char(#[trigger] v@[k]),
    decreases v@.len() - i,
{
    let mut j = i;
    while j < v.len() && is_digit_exec(v[j])
        invariant
            i <= j <= v@.len(),
            skip_digits(v@, i as int) == skip_digits(v@, j as int),
            forall|k: int| i <= k < j ==> is_digit_char(#[trigger] v@[k]),
        decreases v@.len() - j,
    {
        j += 1;
    }
    j
}

proof fn lemma_pow10_small_values()
    ensures
        pow10(9) == 1000000000,
        pow10(10) == 10000000000,
{
    assert(pow10(0) == 1);
    assert(pow10(1) == 10);
    assert(pow10(2) == 100);
    assert(pow10(3) == 1000);
    assert(pow10(4) == 10000);
    assert(pow10(5) == 100000);
    assert(pow10(6) == 1000000);
    assert(pow10(7) == 10000000);
    assert(pow10(8) == 100000000);
    assert(pow10(9) == 1000000000);
    assert(pow10(10) == 10000000000);
}

/// Reads a rule-mutation response. Returns the return code exactly when
/// the body spells `{"retVal": <integer>}` and the integer fits the
/// code's type; every other body, and a value out of range, is a parse
/// failure.
pub fn parse_action_result(body: &str) -> (r: Result<ActionResult, TianyiError>)
    ensures
        match action_result_value(body@) {
            Some(v) => {
                if i32::MIN <= v <= i32::MAX {
                    r matches Ok(a) && a.ret_val as int == v
                } else {
                    r == Err::<ActionResult, TianyiError>(TianyiError::Parse)
                }
            },
            None => r == Err::<ActionResult, TianyiError>(TianyiError::Parse),
        },
{
    let v = chars_of(body);
    let n = v.len();
    let p0 = skip_ws_exec(&v, 0);
    if !(p0 < n && v[p0] == '{') {
        return Err(TianyiError::Parse);
    }
    let p1 = skip_ws_exec(&v, p0 + 1);
    if n - p1 < 8 {
        return Err(TianyiError::Parse);
    }
    if !(v[p1] == '"' && v[p1 + 1] == 'r' && v[p1 + 2] == 'e' && v[p1 + 3] == 't'
        && v[p1 + 4] == 'V' && v[p1 + 5] == 'a' && v[p1 + 6] == 'l' && v[p1 + 7] == '"') {
        return Err(TianyiError::Parse);
    }
    let p2 = skip_ws_exec(&v, p1 + 8);
    if !(p2 < n && v[p2] == ':') {
        return Err(TianyiError::Parse);
    }
    let p3 = skip_ws_exec(&v, p2 + 1);
    let neg = p3 < n && v[p3] == '-';
    let ds = if neg {
        p3 + 1
    } else {
        p3
    };
    let de = skip_digits_exec(&v, ds);
    if !(ds < de) {
        return Err(TianyiError::Parse);
    }
    let lead = v[ds] as u32 - '0' as u32;
    if !(de == ds + 1 || lead != 0) {
        return Err(TianyiError::Parse);
    }
    let p4 = skip_ws_exec(&v, de);
    if !(p4 < n && v[p4] == '}') {
        return Err(TianyiError::Parse);
    }
    let p5 = skip_ws_exec(&v, p4 + 1);
    if p5 != n {
        return Err(TianyiError::Parse);
    }
    // the body is well-formed; what is left is the range of the value
    if de - ds > 10 {
        proof {
            lemma_digits_value_lower(v@, ds as int, ds + 11);
            lemma_digits_value_mono(v@, ds as int, ds + 11, de as int);
            lemma_pow10_small_values();
        }
        return Err(TianyiError::Parse);
    }
    let mut acc: u64 = 0;
    let mut j = ds;
    while j < de
        invariant
            ds <= j <= de,
            de - ds <= 10,
            de <= v@.len(),
            forall|k: int| ds <= k < de ==> is_digit_char(#[trigger] v@[k]),
            acc == digits_value(v@, ds as int, j as int),
            acc < pow10((j - ds) as nat),
        decreases de - j,
    {
        proof {
            lemma_pow10_small_values();
            lemma_pow10_mono((j - ds) as nat, 9nat);
            assert(pow10(((j - ds) + 1) as nat) == 10 * pow10((j - ds) as nat));
        }
        let d = v[j] as u32 - '0' as u32;
        acc = acc * 10 + d as u64;
        j += 1;
    }
    if neg {
        if acc > 2147483648 {
            return Err(TianyiError::Parse);
        }
        let ret: i32 = (-(acc as i64)) as i32;
        Ok(ActionResult { ret_val: ret })
    } else {
        if acc > 2147483647 {
            return Err(TianyiError::Parse);
        }
        Ok(ActionResult { ret_val: acc as i32 })
    }
}

} // verus!
