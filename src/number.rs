//! Reading decimal numbers from text.
use vstd::prelude::*;

verus! {

/// The value of a sequence of decimal digits.
pub open spec fn digits_value(s: Seq<char>) -> nat
    decreases s.len(),
{
    if s.len() == 0 {
        0
    } else {
        digits_value(s.drop_last()) * 10 + ((s.last() as u32) - ('0' as u32)) as nat
    }
}

pub open spec fn is_digit(c: char) -> bool {
    '0' <= c && c <= '9'
}

/// The digits of an unsigned number: the text without one leading `+`.
pub open spec fn unsigned_digits(s: Seq<char>) -> Seq<char> {
    if s.len() > 0 && s[0] == '+' {
        s.drop_first()
    } else {
        s
    }
}

/// What reading `s` as an unsigned decimal number of at most `usize::MAX`
/// gives: an optional `+`, then one digit or more.
pub open spec fn decimal_of(s: Seq<char>) -> Option<usize> {
    let d = unsigned_digits(s);
    if d.len() > 0 && (forall|i: int| 0 <= i < d.len() ==> is_digit(#[trigger] d[i])) && digits_value(d)
        <= usize::MAX {
        Some(digits_value(d) as usize)
    } else {
        None
    }
}

proof fn lemma_digits_value_grows(s: Seq<char>, j: int)
    requires
        0 <= j <= s.len(),
        forall|i: int| 0 <= i < s.len() ==> is_digit(#[trigger] s[i]),
    ensures
        digits_value(s.subrange(0, j)) <= digits_value(s),
    decreases s.len() - j,
{
    if j < s.len() {
        lemma_digits_value_grows(s, j + 1);
        assert(s.subrange(0, j + 1).drop_last() =~= s.subrange(0, j));
    } else {
        assert(s.subrange(0, j) =~= s);
    }
}

/// Reads `s` as an unsigned decimal number, as `usize`'s `from_str` does;
/// `None` when it is no such number or does not fit in `usize`.
pub fn parse_decimal(s: &str) -> (r: Option<usize>)
    ensures
        r == decimal_of(s@),
{
    let len: usize = s.unicode_len();
    let ghost d = unsigned_digits(s@);
    let mut i: usize = 0;
    if len > 0 && s.get_char(0) == '+' {
        i = 1;
    }
    let start: usize = i;
    assert(d =~= s@.subrange(start as int, len as int));
    if i >= len {
        return None;
    }
    let mut value: usize = 0;
    while i < len
        invariant
            len == s@.len(),
            start <= i <= len,
            start < len,
            d == unsigned_digits(s@),
            d =~= s@.subrange(start as int, len as int),
            forall|k: int| start <= k < i ==> is_digit(#[trigger] s@[k]),
            value == digits_value(s@.subrange(start as int, i as int)),
        decreases len - i,
    {
        let c = s.get_char(i);
        if c < '0' || c > '9' {
            assert(!is_digit(d[i - start]));
            return None;
        }
        let digit: usize = (c as u32 - '0' as u32) as usize;
        assert(s@.subrange(start as int, i + 1).drop_last() =~= s@.subrange(start as int, i as int));
        if value > (usize::MAX - digit) / 10 {
            proof {
                let p = s@.subrange(start as int, i + 1);
                assert(digits_value(p) > usize::MAX) by (nonlinear_arith)
                    requires
                        digits_value(p) == value * 10 + digit,
                        value > (usize::MAX - digit) / 10,
                        digit <= 9;
                if forall|k: int| 0 <= k < d.len() ==> is_digit(#[trigger] d[k]) {
                    assert(d.subrange(0, i + 1 - start) =~= p);
                    lemma_digits_value_grows(d, i + 1 - start);
                }
            }
            return None;
        }
        assert(value * 10 + digit <= usize::MAX) by (nonlinear_arith)
            requires
                value <= (usize::MAX - digit) / 10,
                digit <= 9;
        value = value * 10 + digit;
        i += 1;
    }
    assert(s@.subrange(start as int, len as int) =~= d);
    Some(value)
}

/// Whether `s` starts with a sign character.
pub open spec fn has_sign(s: Seq<char>) -> bool {
    s.len() > 0 && (s[0] == '+' || s[0] == '-')
}

/// The digits of a signed number: the text without one leading sign.
pub open spec fn signed_digits(s: Seq<char>) -> Seq<char> {
    if has_sign(s) {
        s.drop_first()
    } else {
        s
    }
}

/// What reading `s` as an `i32` gives: an optional `+` or `-`, then one
/// digit or more, with a value from `i32::MIN` to `i32::MAX`.
pub open spec fn i32_of(s: Seq<char>) -> Option<i32> {
    let negative = s.len() > 0 && s[0] == '-';
    let d = signed_digits(s);
    let v = digits_value(d);
    if d.len() > 0 && (forall|i: int| 0 <= i < d.len() ==> is_digit(#[trigger] d[i])) && (if negative {
        v <= 0x8000_0000
    } else {
        v <= 0x7fff_ffff
    }) {
        Some((if negative {
            -v
        } else {
            v as int
        }) as i32)
    } else {
        None
    }
}

/// Reads `s` as a signed decimal `i32`, as `i32`'s `from_str` does; `None`
/// when it is no such number or lies outside `i32`'s range.
pub fn parse_i32(s: &str) -> (r: Option<i32>)
    ensures
        r == i32_of(s@),
{
    let len: usize = s.unicode_len();
    if len == 0 {
        return None;
    }
    let first: char = s.get_char(0);
    let negative: bool = first == '-';
    let start: usize = if first == '+' || first == '-' { 1 } else { 0 };
    let digits: &str = s.substring_char(start, len);
    assert(digits@ =~= signed_digits(s@));
    if start == len {
        return None;
    }
    if digits.get_char(0) == '+' {
        assert(!is_digit(digits@[0]));
        return None;
    }
    assert(unsigned_digits(digits@) == digits@);
    match parse_decimal(digits) {
        None => None,
        Some(v) => {
            if negative {
                if v <= 0x8000_0000 {
                    Some((0 - (v as i64)) as i32)
                } else {
                    None
                }
            } else {
                if v <= 0x7fff_ffff {
                    Some(v as i32)
                } else {
                    None
                }
            }
        },
    }
}

} // verus!
