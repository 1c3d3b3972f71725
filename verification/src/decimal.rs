//! ASCII decimal numbers. Player counts, ports and challenge tokens travel on
//! the wire as decimal digit strings; these functions parse them with exact
//! success conditions: a parse succeeds exactly on a non-empty digit run whose
//! value fits the target type.

use vstd::prelude::*;

verus! {

/// Whether `b` is an ASCII decimal digit.
pub open spec fn is_digit(b: u8) -> bool {
    0x30 <= b <= 0x39
}

/// Whether every byte of `s` is an ASCII decimal digit.
pub open spec fn all_digits(s: Seq<u8>) -> bool {
    forall|i: int| 0 <= i < s.len() ==> is_digit(#[trigger] s[i])
}

/// The value denoted by the digit run `s`, most significant digit first.
pub open spec fn dec_val(s: Seq<u8>) -> nat
    decreases s.len(),
{
    if s.len() == 0 {
        0
    } else {
        (dec_val(s.drop_last()) * 10 + (s.last() - 0x30)) as nat
    }
}

/// On a digit run, the value of a prefix never exceeds the value of the whole.
pub proof fn lemma_dec_val_prefix(s: Seq<u8>, i: int)
    requires
        0 <= i <= s.len(),
        all_digits(s),
    ensures
        dec_val(s.take(i)) <= dec_val(s),
    decreases s.len() - i,
{
    if i == s.len() {
        assert(s.take(i) =~= s);
    } else {
        assert(s.take(i + 1).drop_last() =~= s.take(i));
        assert(s.take(i + 1).last() == s[i]);
        assert(is_digit(s[i]));
        assert(dec_val(s.take(i)) <= dec_val(s.take(i + 1)));
        lemma_dec_val_prefix(s, i + 1);
    }
}

/// The unsigned value the token denotes: defined exactly when the token is a
/// non-empty digit run whose value fits in `usize`.
pub open spec fn parse_unsigned(s: Seq<u8>) -> Option<usize> {
    if s.len() > 0 && all_digits(s) && dec_val(s) <= usize::MAX {
        Some(dec_val(s) as usize)
    } else {
        None
    }
}

/// The unsigned 16-bit value the token denotes: defined exactly when the token
/// is a non-empty digit run whose value fits in `u16`.
pub open spec fn parse_unsigned16(s: Seq<u8>) -> Option<u16> {
    if s.len() > 0 && all_digits(s) && dec_val(s) <= u16::MAX {
        Some(dec_val(s) as u16)
    } else {
        None
    }
}

/// The signed 32-bit value the token denotes: an optional leading `-`
/// followed by a non-empty digit run, with the result in `i32` range.
pub open spec fn parse_signed32(s: Seq<u8>) -> Option<i32> {
    if s.len() >= 1 && s[0] == 0x2d {
        let digs = s.skip(1);
        if digs.len() > 0 && all_digits(digs) && dec_val(digs) <= 0x8000_0000 {
            Some((0 - dec_val(digs)) as i32)
        } else {
            None
        }
    } else if s.len() > 0 && all_digits(s) && dec_val(s) <= i32::MAX {
        Some(dec_val(s) as i32)
    } else {
        None
    }
}

/// A token that parses as a decimal number contains no null byte.
pub proof fn lemma_digits_null_free(s: Seq<u8>)
    requires
        parse_unsigned(s) is Some,
    ensures
        forall|j: int| 0 <= j < s.len() ==> s[j] != 0,
{
    assert forall|j: int| 0 <= j < s.len() implies s[j] != 0 by {
        assert(is_digit(s[j]));
    }
}

/// Parses `s` as an unsigned decimal number, rejecting empty input, any
/// non-digit byte, and values that overflow `usize`.
pub fn parse_usize(s: &[u8]) -> (r: Option<usize>)
    ensures
        r == parse_unsigned(s@),
{
    let n = s.len();
    if n == 0 {
        return None;
    }
    let mut acc: usize = 0;
    let mut i: usize = 0;
    while i < n
        invariant
            n == s@.len(),
            0 < n,
            i <= n,
            all_digits(s@.take(i as int)),
            acc == dec_val(s@.take(i as int)),
        decreases n - i,
    {
        let b = s[i];
        if b < 0x30 || b > 0x39 {
            assert(!is_digit(s@[i as int]));
            return None;
        }
        let d = (b - 0x30) as usize;
        proof {
            assert(s@.take(i + 1).drop_last() =~= s@.take(i as int));
            assert(s@.take(i + 1).last() == s@[i as int]);
        }
        if acc > (usize::MAX - d) / 10 {
            proof {
                vstd::arithmetic::div_mod::lemma_fundamental_div_mod(
                    (usize::MAX - d) as int,
                    10,
                );
                vstd::arithmetic::div_mod::lemma_mod_bound((usize::MAX - d) as int, 10);
                assert(acc * 10 + d > usize::MAX);
                assert(dec_val(s@.take(i + 1)) > usize::MAX);
                if all_digits(s@) {
                    lemma_dec_val_prefix(s@, i + 1);
                }
            }
            return None;
        }
        proof {
            vstd::arithmetic::div_mod::lemma_fundamental_div_mod((usize::MAX - d) as int, 10);
            vstd::arithmetic::div_mod::lemma_mod_bound((usize::MAX - d) as int, 10);
            assert(acc * 10 + d <= usize::MAX);
        }
        acc = acc * 10 + d;
        i += 1;
    }
    assert(s@.take(n as int) =~= s@);
    Some(acc)
}

/// Parses `s` as an unsigned 16-bit decimal number.
pub fn parse_u16(s: &[u8]) -> (r: Option<u16>)
    ensures
        r == parse_unsigned16(s@),
{
    match parse_usize(s) {
        Some(v) => {
            if v <= u16::MAX as usize {
                Some(v as u16)
            } else {
                None
            }
        },
        None => {
            proof {
                if s@.len() > 0 && all_digits(s@) {
                    assert(dec_val(s@) > usize::MAX);
                }
            }
            None
        },
    }
}

/// Parses `s` as a signed 32-bit decimal number: an optional leading `-`
/// followed by decimal digits.
pub fn parse_i32(s: &[u8]) -> (r: Option<i32>)
    ensures
        r == parse_signed32(s@),
{
    if s.len() >= 1 && s[0] == 0x2d {
        let digs = vstd::slice::slice_subrange(s, 1, s.len());
        assert(digs@ =~= s@.skip(1));
        match parse_usize(digs) {
            Some(v) => {
                if v <= 0x8000_0000usize {
                    let m = v as i64;
                    Some((-m) as i32)
                } else {
                    None
                }
            },
            None => {
                proof {
                    if digs@.len() > 0 && all_digits(digs@) {
                        assert(dec_val(digs@) > usize::MAX);
                    }
                }
                None
            },
        }
    } else {
        match parse_usize(s) {
            Some(v) => {
                if v <= i32::MAX as usize {
                    Some(v as i32)
                } else {
                    None
                }
            },
            None => {
                proof {
                    if s@.len() > 0 && all_digits(s@) {
                        assert(dec_val(s@) > usize::MAX);
                    }
                }
                None
            },
        }
    }
}

} // verus!
