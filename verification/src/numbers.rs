//! Verified numeric text handling: the tolerant integer parsing used by the
//! lexer (malformed or overflowing numeric text silently yields 0), and the
//! decimal / hexadecimal renderings used by the disassembler.
use crate::chars::is_dec_digit;
use crate::chars::is_hex_digit;
use vstd::arithmetic::div_mod::lemma_div_is_strictly_smaller;
use vstd::prelude::*;

verus! {

/// The value of one digit character in base `base` (10 or 16).
pub open spec fn digit_val(c: char) -> int {
    if is_dec_digit(c) {
        (c as u32) - 0x30
    } else if 'a' <= c && c <= 'f' {
        (c as u32) - 0x61 + 10
    } else if 'A' <= c && c <= 'F' {
        (c as u32) - 0x41 + 10
    } else {
        0
    }
}

/// Whether `c` is a digit of base `base`.
pub open spec fn is_digit_in_base(c: char, base: int) -> bool {
    if base == 16 {
        is_hex_digit(c)
    } else {
        is_dec_digit(c)
    }
}

/// Whether every character of `s` is a digit of base `base`.
pub open spec fn all_digits(s: Seq<char>, base: int) -> bool {
    forall|i: int| 0 <= i < s.len() ==> is_digit_in_base(#[trigger] s[i], base)
}

/// The base-`base` value of the digit string `s`, most significant first.
pub open spec fn base_val(s: Seq<char>, base: int) -> int
    decreases s.len(),
{
    if s.len() == 0 {
        0
    } else {
        base_val(s.drop_last(), base) * base + digit_val(s.last())
    }
}

/// The tolerant reading of `s` as an unsigned base-`base` integer, as
/// `str::parse` and `from_str_radix` behave under `unwrap_or(0)`: an empty
/// string, any non-digit character, or a value above `max` all yield 0.
pub open spec fn parsed_int(s: Seq<char>, base: int, max: int) -> int {
    if s.len() > 0 && all_digits(s, base) && base_val(s, base) <= max {
        base_val(s, base)
    } else {
        0
    }
}

pub proof fn lemma_base_val_nonneg(s: Seq<char>, base: int)
    requires
        all_digits(s, base),
        base >= 2,
    ensures
        base_val(s, base) >= 0,
    decreases s.len(),
{
    if s.len() > 0 {
        assert(all_digits(s.drop_last(), base)) by {
            assert(forall|i: int|
                0 <= i < s.drop_last().len() ==> s.drop_last()[i] == #[trigger] s[i]);
        }
        lemma_base_val_nonneg(s.drop_last(), base);
        assert(digit_val(s.last()) >= 0);
        assert(base_val(s.drop_last(), base) * base >= 0) by (nonlinear_arith)
            requires
                base_val(s.drop_last(), base) >= 0,
                base >= 2,
        ;
    }
}

/// A digit string's value never falls when more digits are appended.
pub proof fn lemma_base_val_prefix_mono(s: Seq<char>, i: int, base: int)
    requires
        all_digits(s, base),
        base >= 2,
        0 <= i <= s.len(),
    ensures
        base_val(s.subrange(0, i), base) <= base_val(s, base),
    decreases s.len() - i,
{
    if i < s.len() {
        let t = s.subrange(0, i + 1);
        assert(t.drop_last() =~= s.subrange(0, i));
        assert(all_digits(t, base));
        lemma_base_val_nonneg(s.subrange(0, i), base);
        assert(base_val(s.subrange(0, i), base) * base >= base_val(s.subrange(0, i), base))
            by (nonlinear_arith)
            requires
                base_val(s.subrange(0, i), base) >= 0,
                base >= 2,
        ;
        assert(base_val(t, base) >= base_val(s.subrange(0, i), base));
        lemma_base_val_prefix_mono(s, i + 1, base);
    } else {
        assert(s.subrange(0, i) =~= s);
    }
}

/// Reads the digits of `s` from position `from` on as an unsigned integer
/// of base `base`, tolerantly: 0 on a non-digit, an empty range, or a value
/// above `max`.
pub fn parse_int(s: &Vec<char>, from: usize, base: u64, max: u64) -> (r: u64)
    requires
        from <= s@.len(),
        base == 10 || base == 16,
        max >= 15,
    ensures
        r == parsed_int(s@.subrange(from as int, s@.len() as int), base as int, max as int),
        r <= max,
{
    let ghost whole = s@.subrange(from as int, s@.len() as int);
    let n = s.len();
    if from == n {
        return 0;
    }
    let mut acc: u64 = 0;
    let mut i: usize = from;
    while i < n
        invariant
            from <= i <= n,
            n == s@.len(),
            from < n,
            base == 10 || base == 16,
            max >= 15,
            whole == s@.subrange(from as int, n as int),
            all_digits(s@.subrange(from as int, i as int), base as int),
            acc == base_val(s@.subrange(from as int, i as int), base as int),
            acc <= max,
        decreases n - i,
    {
        let c = s[i];
        let is_digit = if base == 16 {
            crate::chars::char_is_hex_digit(c)
        } else {
            crate::chars::char_is_dec_digit(c)
        };
        if !is_digit {
            proof {
                assert(!is_digit_in_base(whole[i - from], base as int));
                assert(!all_digits(whole, base as int));
            }
            return 0;
        }
        let cu = c as u32;
        let d: u64 = if cu >= 0x61 {
            (cu - 0x61 + 10) as u64
        } else if cu >= 0x41 {
            (cu - 0x41 + 10) as u64
        } else {
            (cu - 0x30) as u64
        };
        proof {
            assert(d == digit_val(c));
            assert(d <= 15);
        }
        proof {
            assert((acc as int) * (base as int) <= (max as int) * 16) by (nonlinear_arith)
                requires
                    0 <= acc <= max,
                    0 <= base <= 16,
            ;
        }
        let next: u128 = (acc as u128) * (base as u128) + (d as u128);
        proof {
            let pre = s@.subrange(from as int, i as int);
            let ext = s@.subrange(from as int, i + 1);
            assert(ext.drop_last() =~= pre);
            assert(ext.last() == c);
            assert(next == base_val(ext, base as int));
        }
        if next > max as u128 {
            // The value of the scanned prefix already exceeds `max`; with or
            // without well-formed digits after it, the tolerant reading is 0.
            proof {
                let ext = s@.subrange(from as int, i + 1);
                if all_digits(whole, base as int) {
                    lemma_base_val_prefix_mono(whole, i + 1 - from, base as int);
                    assert(whole.subrange(0, i + 1 - from) =~= ext);
                }
            }
            return 0;
        }
        acc = next as u64;
        i = i + 1;
    }
    proof {
        assert(s@.subrange(from as int, i as int) =~= whole);
        assert(whole.len() > 0);
    }
    acc
}

/// The character for digit value `d` (0 to 15), lower case.
pub open spec fn digit_char(d: int) -> char {
    if d < 10 {
        (0x30 + d) as char
    } else {
        (0x57 + d) as char
    }
}

/// The decimal rendering of `n` (no sign, at least one digit).
pub open spec fn dec_rep(n: int) -> Seq<char>
    decreases n,
    when n >= 0
{
    if n < 10 {
        seq![digit_char(n)]
    } else {
        proof {
            lemma_div_is_strictly_smaller(n, 10);
        }
        dec_rep(n / 10).push(digit_char(n % 10))
    }
}

/// The decimal rendering of a signed value: a `-` sign before the digits of
/// the magnitude when negative.
pub open spec fn dec_rep_signed(n: int) -> Seq<char> {
    if n < 0 {
        seq!['-'] + dec_rep(-n)
    } else {
        dec_rep(n)
    }
}

/// The lower-case hexadecimal rendering of `n`, zero-padded on the left to
/// at least `width` digits.
pub open spec fn hex_rep(n: int, width: int) -> Seq<char>
    decreases n + if width > 0 {
        width
    } else {
        0
    },
    when n >= 0
{
    if n < 16 && width <= 1 {
        seq![digit_char(n)]
    } else {
        proof {
            if n >= 16 {
                lemma_div_is_strictly_smaller(n, 16);
            } else {
                vstd::arithmetic::div_mod::lemma_basic_div(n, 16);
            }
        }
        hex_rep(
            n / 16,
            if width > 1 {
                width - 1
            } else {
                0
            },
        ).push(digit_char(n % 16))
    }
}

/// Appends the decimal digits of `n` to `out`.
pub fn push_dec_u64(out: &mut String, n: u64)
    ensures
        final(out)@ == old(out)@ + dec_rep(n as int),
    decreases n,
{
    if n < 10 {
        let c = ((0x30 + n) as u8) as char;
        proof {
            assert(c == digit_char(n as int));
        }
        crate::chars::push_char(out, c);
    } else {
        push_dec_u64(out, n / 10);
        let d = n % 10;
        let c = ((0x30 + d) as u8) as char;
        proof {
            assert(c == digit_char((n as int) % 10));
        }
        crate::chars::push_char(out, c);
        proof {
            assert(final(out)@ =~= old(out)@ + dec_rep(n as int));
        }
    }
}

/// Appends the decimal rendering of the signed value `n` to `out`.
pub fn push_dec_i64(out: &mut String, n: i64)
    ensures
        final(out)@ == old(out)@ + dec_rep_signed(n as int),
{
    if n < 0 {
        crate::chars::push_char(out, '-');
        let wide: i128 = n as i128;
        let mag: u64 = (-wide) as u64;
        proof {
            assert(mag == -(n as int));
        }
        push_dec_u64(out, mag);
        proof {
            assert(final(out)@ =~= old(out)@ + dec_rep_signed(n as int));
        }
    } else {
        push_dec_u64(out, n as u64);
    }
}

/// Appends the hexadecimal digits of `n`, zero-padded to at least `width`
/// digits, to `out`.
pub fn push_hex_u64(out: &mut String, n: u64, width: usize)
    requires
        width <= 16,
    ensures
        final(out)@ == old(out)@ + hex_rep(n as int, width as int),
    decreases n + if width > 0 {
        width as int
    } else {
        0
    },
{
    if n < 16 && width <= 1 {
        let c = if n < 10 {
            ((0x30 + n) as u8) as char
        } else {
            ((0x57 + n) as u8) as char
        };
        proof {
            assert(c == digit_char(n as int));
        }
        crate::chars::push_char(out, c);
    } else {
        proof {
            if n >= 16 {
                lemma_div_is_strictly_smaller(n as int, 16);
            } else {
                vstd::arithmetic::div_mod::lemma_basic_div(n as int, 16);
            }
        }
        let w2: usize = if width > 1 {
            width - 1
        } else {
            0
        };
        push_hex_u64(out, n / 16, w2);
        let d = n % 16;
        let c = if d < 10 {
            ((0x30 + d) as u8) as char
        } else {
            ((0x57 + d) as u8) as char
        };
        proof {
            assert(c == digit_char((n as int) % 16));
        }
        crate::chars::push_char(out, c);
        proof {
            assert(final(out)@ =~= old(out)@ + hex_rep(n as int, width as int));
        }
    }
}

} // verus!
