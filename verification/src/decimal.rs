//! Decimal numerals: rendering integers as text for the emitter and the
//! error reporter, and reading a signed 32-bit value out of a token's text
//! for the parser.

use vstd::prelude::*;
use crate::text::is_digit_char;
use crate::text::push_char;

verus! {

/// The digit character for a value below ten.
pub open spec fn digit_char(d: int) -> char {
    (48 + d) as char
}

/// The value of a digit character.
pub open spec fn digit_val(c: char) -> int {
    c as int - 48
}

/// The decimal numeral of a natural number, most significant digit first.
pub open spec fn dec_digits(n: nat) -> Seq<char>
    decreases n,
{
    if n < 10 {
        seq![digit_char(n as int)]
    } else {
        dec_digits(n / 10) + seq![digit_char((n % 10) as int)]
    }
}

/// The decimal numeral of an integer: a leading minus sign when negative.
pub open spec fn dec_int(n: int) -> Seq<char> {
    if n < 0 {
        seq!['-'] + dec_digits((-n) as nat)
    } else {
        dec_digits(n as nat)
    }
}

/// Every character of the sequence is a decimal digit.
pub open spec fn all_digits(s: Seq<char>) -> bool {
    forall|i: int| 0 <= i < s.len() ==> is_digit_char(#[trigger] s[i])
}

/// The numeric value of a run of decimal digits.
pub open spec fn digits_val(s: Seq<char>) -> int
    decreases s.len(),
{
    if s.len() == 0 {
        0
    } else {
        digits_val(s.drop_last()) * 10 + digit_val(s.last())
    }
}

/// What reading a signed 32-bit integer out of text yields: an optional
/// sign, then one or more decimal digits, and a value within the 32-bit
/// signed range; anything else is rejected.
pub open spec fn parse_i32_spec(s: Seq<char>) -> Option<i32> {
    let neg = s.len() > 0 && s[0] == '-';
    let digits = if s.len() > 0 && (s[0] == '-' || s[0] == '+') {
        s.subrange(1, s.len() as int)
    } else {
        s
    };
    if digits.len() == 0 || !all_digits(digits) {
        None
    } else {
        let v = if neg {
            -digits_val(digits)
        } else {
            digits_val(digits)
        };
        if i32::MIN <= v <= i32::MAX {
            Some(v as i32)
        } else {
            None
        }
    }
}

/// A digit run is worth no less than any of its prefixes.
pub proof fn lemma_digits_val_prefix(s: Seq<char>, k: int)
    requires
        all_digits(s),
        0 <= k <= s.len(),
    ensures
        digits_val(s) >= digits_val(s.subrange(0, k)),
        digits_val(s) >= 0,
    decreases s.len(),
{
    if s.len() == 0 {
    } else {
        let head = s.drop_last();
        assert(all_digits(head));
        lemma_digits_val_prefix(head, if k <= head.len() { k } else { head.len() as int });
        assert(is_digit_char(s.last()));
        assert(digit_val(s.last()) >= 0);
        if k == s.len() {
            assert(s.subrange(0, k) =~= s);
        } else {
            assert(s.subrange(0, k) =~= head.subrange(0, k));
        }
    }
}

fn digit_to_char(d: u64) -> (c: char)
    requires
        d < 10,
    ensures
        c == digit_char(d as int),
{
    ((48 + d) as u8) as char
}

/// Renders a natural number as its decimal numeral.
pub fn u64_to_string(n: u64) -> (r: String)
    ensures
        r@ == dec_digits(n as nat),
{
    let mut rev: Vec<char> = Vec::new();
    let mut m: u64 = n;
    loop
        invariant_except_break
            dec_digits(n as nat) =~= dec_digits(m as nat) + rev@.reverse(),
        ensures
            dec_digits(n as nat) =~= rev@.reverse(),
        decreases m,
    {
        let d = m % 10;
        let c = digit_to_char(d);
        let ghost old_rev = rev@;
        rev.push(c);
        proof {
            assert(rev@.reverse() =~= seq![c] + old_rev.reverse());
        }
        if m < 10 {
            proof {
                assert(dec_digits(m as nat) =~= seq![c]);
                assert(dec_digits(n as nat) =~= rev@.reverse());
            }
            break;
        }
        proof {
            assert(dec_digits(m as nat) =~= dec_digits((m / 10) as nat) + seq![c]);
            assert(dec_digits(n as nat) =~= dec_digits((m / 10) as nat) + rev@.reverse());
        }
        m = m / 10;
    }
    let ghost target = dec_digits(n as nat);
    let mut s = String::new();
    let mut i: usize = rev.len();
    proof {
        assert(target.len() == rev@.len());
    }
    while i > 0
        invariant
            i <= rev@.len(),
            target == rev@.reverse(),
            target.len() == rev@.len(),
            s@ =~= target.subrange(0, rev@.len() - i),
        decreases i,
    {
        i = i - 1;
        let c = rev[i];
        push_char(&mut s, c);
        proof {
            assert(target[rev@.len() - 1 - i] == rev@[i as int]);
            assert(s@ =~= target.subrange(0, rev@.len() - i));
        }
    }
    proof {
        assert(s@ =~= target);
    }
    s
}

/// Renders a signed 32-bit integer as its decimal numeral, with a leading
/// minus sign when it is negative.
pub fn i32_to_string(n: i32) -> (r: String)
    ensures
        r@ == dec_int(n as int),
{
    if n >= 0 {
        u64_to_string(n as u64)
    } else {
        let magnitude: u64 = (-(n as i64)) as u64;
        let mut s = String::new();
        push_char(&mut s, '-');
        let digits = u64_to_string(magnitude);
        s.append(digits.as_str());
        proof {
            assert(s@ =~= seq!['-'] + dec_digits(magnitude as nat));
        }
        s
    }
}

/// Reads a signed 32-bit integer out of text: an optional sign, then one or
/// more decimal digits; rejects anything else, and any value outside the
/// 32-bit signed range.
pub fn parse_i32(s: &str) -> (r: Option<i32>)
    ensures
        r == parse_i32_spec(s@),
{
    let len = s.unicode_len();
    let mut start: usize = 0;
    let mut neg = false;
    if len > 0 {
        let c0 = s.get_char(0);
        if c0 == '-' {
            neg = true;
            start = 1;
        } else if c0 == '+' {
            start = 1;
        }
    }
    let ghost digits = if start == 1 { s@.subrange(1, s@.len() as int) } else { s@ };
    if start >= len {
        proof {
            assert(digits.len() == 0);
        }
        return None;
    }
    let mut acc: u64 = 0;
    let mut i: usize = start;
    while i < len
        invariant
            start <= i <= len,
            len == s@.len(),
            start == 0 || start == 1,
            neg == (s@.len() > 0 && s@[0] == '-'),
            (start == 1) == (s@.len() > 0 && (s@[0] == '-' || s@[0] == '+')),
            start == 1 ==> digits == s@.subrange(1, len as int),
            start == 0 ==> digits == s@,
            all_digits(s@.subrange(start as int, i as int)),
            acc == digits_val(s@.subrange(start as int, i as int)),
            acc <= 0x8000_0000,
        decreases len - i,
    {
        let c = s.get_char(i);
        let ghost pre = s@.subrange(start as int, i as int);
        let ghost cur = s@.subrange(start as int, (i + 1) as int);
        proof {
            assert(cur.drop_last() =~= pre);
            assert(cur.last() == s@[i as int]);
        }
        if !crate::text::is_digit(c) {
            proof {
                assert(digits[i - start] == s@[i as int]);
                assert(!all_digits(digits));
            }
            return None;
        }
        let d: u64 = (c as u32 - 48) as u64;
        proof {
            assert(d < 10);
        }
        acc = acc * 10 + d;
        proof {
            assert(acc == digits_val(cur));
        }
        if acc > 0x8000_0000 {
            proof {
                assert(all_digits(cur));
                assert(forall|j: int| 0 <= j < digits.len() ==> digits[j] == s@[#[trigger] (j + start)]);
                if all_digits(digits) {
                    assert(cur =~= digits.subrange(0, i + 1 - start));
                    lemma_digits_val_prefix(digits, i + 1 - start);
                    assert(digits_val(digits) > 0x8000_0000);
                }
            }
            return None;
        }
        i = i + 1;
    }
    proof {
        assert(s@.subrange(start as int, len as int) =~= digits);
    }
    if neg {
        let v: i64 = -(acc as i64);
        Some(v as i32)
    } else {
        if acc > 0x7fff_ffff {
            return None;
        }
        Some(acc as i32)
    }
}

} // verus!
