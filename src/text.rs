//! Numbers written as text in configuration files.
use vstd::prelude::*;
use vstd::string::StringSliceAdditionalSpecFns;

verus! {

/// The value of ASCII digit `c` in base `radix` (10 or 16; letters in either case).
pub open spec fn digit_value(c: u8, radix: nat) -> Option<nat> {
    if 48 <= c <= 57 {
        Some((c - 48) as nat)
    } else if radix == 16 && 97 <= c <= 102 {
        Some((c - 87) as nat)
    } else if radix == 16 && 65 <= c <= 70 {
        Some((c - 55) as nat)
    } else {
        None
    }
}

/// The value of a string of digits in base `radix`; the empty string is 0.
pub open spec fn digits_value(s: Seq<u8>, radix: nat) -> Option<nat>
    decreases s.len(),
{
    if s.len() == 0 {
        Some(0)
    } else {
        match (digits_value(s.drop_last(), radix), digit_value(s.last(), radix)) {
            (Some(v), Some(d)) => Some(v * radix + d),
            _ => None,
        }
    }
}

/// An unsigned number: an optional `+`, then at least one digit.
pub open spec fn number_value(s: Seq<u8>, radix: nat) -> Option<nat> {
    let body = if s.len() > 0 && s[0] == 43 {
        s.skip(1)
    } else {
        s
    };
    if body.len() == 0 {
        None
    } else {
        digits_value(body, radix)
    }
}

/// A byte written in decimal, or in hexadecimal after `0x` or `0X`; values
/// above 255 are refused.
pub open spec fn byte_value(s: Seq<u8>) -> Option<u8> {
    let hex = s.len() >= 2 && s[0] == 48 && (s[1] == 120 || s[1] == 88);
    let v = if hex {
        number_value(s.skip(2), 16)
    } else {
        number_value(s, 10)
    };
    match v {
        Some(n) => if n <= 255 {
            Some(n as u8)
        } else {
            None
        },
        None => None,
    }
}

fn digit_of(c: u8, radix: u32) -> (r: Option<u32>)
    requires
        radix == 10 || radix == 16,
    ensures
        match digit_value(c, radix as nat) {
            Some(d) => r == Some(d as u32),
            None => r is None,
        },
{
    if 48 <= c && c <= 57 {
        Some((c - 48) as u32)
    } else if radix == 16 && 97 <= c && c <= 102 {
        Some((c - 87) as u32)
    } else if radix == 16 && 65 <= c && c <= 70 {
        Some((c - 55) as u32)
    } else {
        None
    }
}

/// The value of `s[from..]` as an unsigned number in base `radix`, when it
/// is at most 255.
fn small_number(s: &[u8], from: usize, radix: u32) -> (r: Option<u8>)
    requires
        from <= s@.len(),
        radix == 10 || radix == 16,
    ensures
        match number_value(s@.skip(from as int), radix as nat) {
            Some(n) => if n <= 255 {
                r == Some(n as u8)
            } else {
                r is None
            },
            None => r is None,
        },
{
    let ghost text = s@.skip(from as int);
    let len = s.len();
    let mut start = from;
    if start < len && s[start] == 43 {
        start = start + 1;
    }
    let ghost body = s@.subrange(start as int, len as int);
    assert(body =~= (if text.len() > 0 && text[0] == 43 {
        text.skip(1)
    } else {
        text
    }));
    if start == len {
        return None;
    }
    let mut acc: u32 = 0;
    let mut too_big = false;
    let mut i = start;
    while i < len
        invariant
            start <= i <= len,
            len == s@.len(),
            radix == 10 || radix == 16,
            body == s@.subrange(start as int, len as int),
            text == s@.skip(from as int),
            body.len() > 0,
            body == (if text.len() > 0 && text[0] == 43 {
                text.skip(1)
            } else {
                text
            }),
            !too_big ==> acc <= 255 && digits_value(s@.subrange(start as int, i as int), radix as nat)
                == Some(acc as nat),
            too_big ==> (digits_value(s@.subrange(start as int, i as int), radix as nat) matches Some(
                v,
            ) && v > 255),
        decreases len - i,
    {
        let ghost prefix = s@.subrange(start as int, i as int);
        let ghost next = s@.subrange(start as int, i + 1);
        assert(next.drop_last() =~= prefix);
        match digit_of(s[i], radix) {
            None => {
                assert(digits_value(next, radix as nat) is None);
                proof {
                    lemma_no_value_extends(s@, start as int, i + 1, len as int, radix as nat);
                }
                assert(s@.subrange(start as int, len as int) =~= body);
                return None;
            },
            Some(d) => {
                if !too_big {
                    let v = acc * radix + d;
                    if v > 255 {
                        too_big = true;
                    } else {
                        acc = v;
                    }
                } else {
                    proof {
                        let w = digits_value(prefix, radix as nat)->Some_0;
                        assert(w * radix >= w) by (nonlinear_arith)
                            requires
                                radix >= 1,
                        ;
                    }
                }
            },
        }
        i = i + 1;
    }
    assert(s@.subrange(start as int, len as int) =~= body);
    if too_big {
        None
    } else {
        Some(acc as u8)
    }
}

proof fn lemma_no_value_extends(s: Seq<u8>, start: int, i: int, len: int, radix: nat)
    requires
        0 <= start <= i <= len <= s.len(),
        digits_value(s.subrange(start, i), radix) is None,
    ensures
        digits_value(s.subrange(start, len), radix) is None,
    decreases len - i,
{
    if i < len {
        assert(s.subrange(start, i + 1).drop_last() =~= s.subrange(start, i));
        lemma_no_value_extends(s, start, i + 1, len, radix);
    }
}

/// Reads a byte written as text, in decimal or `0x`-prefixed hexadecimal.
pub fn parse_byte(s: &str) -> (r: Option<u8>)
    ensures
        r == byte_value(s.spec_bytes()),
{
    let b = s.as_bytes();
    let len = b.len();
    if len >= 2 && b[0] == 48 && (b[1] == 120 || b[1] == 88) {
        small_number(b, 2, 16)
    } else {
        assert(b@.skip(0) =~= b@);
        small_number(b, 0, 10)
    }
}

} // verus!
