use vstd::prelude::*;
use vstd::string::StrSliceExecFns;
use crate::strutil::push_char;

verus! {

/// Whether `c` is a decimal digit.
pub open spec fn is_digit(c: char) -> bool {
    48 <= c as u32 <= 57
}

/// The value of the digit `c`.
pub open spec fn digit_val(c: char) -> int {
    c as u32 - 48
}

/// Every character of `s` is a decimal digit.
pub open spec fn all_digits(s: Seq<char>) -> bool {
    forall|i: int| 0 <= i < s.len() ==> is_digit(#[trigger] s[i])
}

/// The number a digit string denotes, most significant digit first.
pub open spec fn digits_val(s: Seq<char>) -> int
    decreases s.len(),
{
    if s.len() == 0 {
        0
    } else {
        digits_val(s.drop_last()) * 10 + digit_val(s.last())
    }
}

/// The `i32` a decimal string denotes: an optional leading minus sign, then
/// at least one digit, the value within the `i32` range. Any other string
/// denotes nothing.
pub open spec fn dec_i32(s: Seq<char>) -> Option<int> {
    if s.len() > 0 && s[0] == '-' {
        let d = s.subrange(1, s.len() as int);
        if d.len() > 0 && all_digits(d) && -digits_val(d) >= i32::MIN as int {
            Some(-digits_val(d))
        } else {
            None
        }
    } else {
        if s.len() > 0 && all_digits(s) && digits_val(s) <= i32::MAX as int {
            Some(digits_val(s))
        } else {
            None
        }
    }
}

/// A digit string denotes a nonnegative number.
pub proof fn lemma_digits_val_nonneg(s: Seq<char>)
    requires
        all_digits(s),
    ensures
        digits_val(s) >= 0,
    decreases s.len(),
{
    if s.len() > 0 {
        assert(forall|i: int|
            0 <= i < s.drop_last().len() ==> is_digit(#[trigger] s.drop_last()[i]));
        lemma_digits_val_nonneg(s.drop_last());
    }
}

/// A digit string denotes at least what any of its prefixes denotes.
pub proof fn lemma_digits_val_prefix(s: Seq<char>, i: int)
    requires
        all_digits(s),
        0 <= i <= s.len(),
    ensures
        digits_val(s.subrange(0, i)) <= digits_val(s),
    decreases s.len(),
{
    if i == s.len() {
        assert(s.subrange(0, i) =~= s);
    } else {
        let d = s.drop_last();
        assert(forall|j: int| 0 <= j < d.len() ==> is_digit(#[trigger] d[j]));
        lemma_digits_val_nonneg(d);
        assert(digit_val(s.last()) >= 0);
        assert(digits_val(s) >= digits_val(d));
        assert(s.subrange(0, i) =~= d.subrange(0, i));
        lemma_digits_val_prefix(d, i);
    }
}

/// Reads a decimal `i32` from `s`, accepting exactly the strings that
/// `dec_i32` gives a value.
pub fn parse_i32(s: &str) -> (r: Option<i32>)
    ensures
        match r {
            Some(v) => dec_i32(s@) == Some(v as int),
            None => dec_i32(s@) is None,
        },
{
    let n: usize = s.unicode_len();
    if n == 0 {
        return None;
    }
    let neg: bool = s.get_char(0) == '-';
    let start: usize = if neg {
        1
    } else {
        0
    };
    if n == start {
        return None;
    }
    let ghost full: Seq<char> = s@.subrange(start as int, n as int);
    proof {
        if neg {
            assert(full =~= s@.subrange(1, s@.len() as int));
        } else {
            assert(full =~= s@);
        }
    }
    let mut i: usize = start;
    let mut acc: u64 = 0;
    while i < n
        invariant
            start <= i <= n,
            n == s@.len(),
            n > start,
            neg == (s@[0] == '-'),
            neg ==> start == 1,
            !neg ==> start == 0,
            full == s@.subrange(start as int, n as int),
            all_digits(s@.subrange(start as int, i as int)),
            acc == digits_val(s@.subrange(start as int, i as int)),
            acc <= 0x8000_0000,
        decreases n - i,
    {
        let c = s.get_char(i);
        let v: u32 = c as u32;
        if v < 48 || v > 57 {
            proof {
                assert(full[i - start] == s@[i as int]);
                assert(!all_digits(full));
            }
            return None;
        }
        acc = acc * 10 + (v - 48) as u64;
        proof {
            let pre = s@.subrange(start as int, i as int);
            assert(s@.subrange(start as int, i as int + 1) =~= pre.push(s@[i as int]));
            assert(digits_val(pre.push(s@[i as int])) == digits_val(pre) * 10 + digit_val(
                s@[i as int],
            )) by {
                assert(pre.push(s@[i as int]).drop_last() =~= pre);
            }
        }
        if acc > 0x8000_0000 {
            proof {
                if !neg {
                    assert(full =~= s@);
                } else {
                    assert(full =~= s@.subrange(1, s@.len() as int));
                }
                if all_digits(full) {
                    assert(s@.subrange(start as int, i as int + 1) =~= full.subrange(
                        0,
                        i as int + 1 - start,
                    ));
                    lemma_digits_val_prefix(full, i as int + 1 - start);
                    assert(digits_val(full) > 0x8000_0000);
                }
            }
            return None;
        }
        i = i + 1;
    }
    proof {
        assert(s@.subrange(start as int, i as int) =~= full);
    }
    if neg {
        let val: i64 = -(acc as i64);
        proof {
            assert(i32::MIN as int <= val as int <= 0);
        }
        Some(val as i32)
    } else {
        if acc > 0x7FFF_FFFF {
            return None;
        }
        Some(acc as i32)
    }
}

/// The decimal digit character for `n` (0 ≤ n < 10).
pub open spec fn digit_char(n: int) -> char {
    ((n + 48) as u8) as char
}

/// The decimal text of a nonnegative number, most significant digit first.
pub open spec fn dec_str_nat(n: int) -> Seq<char>
    decreases n,
{
    if n < 10 {
        seq![digit_char(n)]
    } else {
        dec_str_nat(n / 10).push(digit_char(n % 10))
    }
}

/// The decimal text of an `i32` value, with a minus sign when negative.
pub open spec fn dec_str_i32(n: int) -> Seq<char> {
    if n < 0 {
        seq!['-'] + dec_str_nat(-n)
    } else {
        dec_str_nat(n)
    }
}

/// Appends the decimal text of `n` to `s`.
pub fn append_dec_u32(s: &mut String, n: u32)
    ensures
        final(s)@ == old(s)@ + dec_str_nat(n as int),
    decreases n,
{
    if n < 10 {
        let d: u8 = (n as u8) + 48;
        push_char(s, d as char);
        proof {
            assert(d as char == digit_char(n as int));
            assert(old(s)@.push(digit_char(n as int)) =~= old(s)@ + seq![
                digit_char(n as int),
            ]);
        }
    } else {
        append_dec_u32(s, n / 10);
        let d: u8 = ((n % 10) as u8) + 48;
        push_char(s, d as char);
        proof {
            assert(d as char == digit_char(n as int % 10));
            assert(n as int / 10 == (n / 10) as int);
            assert((old(s)@ + dec_str_nat(n as int / 10)).push(digit_char(n as int % 10))
                =~= old(s)@ + dec_str_nat(n as int / 10).push(digit_char(n as int % 10)));
        }
    }
}

/// Appends the decimal text of the `i32` value `n` to `s`.
pub fn append_dec_i32(s: &mut String, n: i32)
    ensures
        final(s)@ == old(s)@ + dec_str_i32(n as int),
{
    if n < 0 {
        push_char(s, '-');
        let m64: i64 = -(n as i64);
        proof {
            assert(0 < m64 as int <= u32::MAX as int);
        }
        let m: u32 = m64 as u32;
        append_dec_u32(s, m);
        proof {
            assert(old(s)@.push('-') + dec_str_nat(m as int) =~= old(s)@ + (seq!['-']
                + dec_str_nat(-(n as int))));
        }
    } else {
        append_dec_u32(s, n as u32);
    }
}

} // verus!
