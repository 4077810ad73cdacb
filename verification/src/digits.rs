//! Fixed-width decimal rendering and parsing of unsigned values, used by the
//! token wire format.

use vstd::prelude::*;
use vstd::string::StrSliceExecFns;
use vstd::string::StringExecFns;

verus! {

/// Whether `c` is a decimal digit.
pub open spec fn is_digit(c: char) -> bool {
    48 <= c as int && c as int <= 57
}

/// The value of a decimal digit.
pub open spec fn digit_val(c: char) -> int {
    c as int - 48
}

/// The decimal digit with value `d`, for `0 <= d < 10`.
pub open spec fn digit_char(d: int) -> char {
    if d == 0 {
        '0'
    } else if d == 1 {
        '1'
    } else if d == 2 {
        '2'
    } else if d == 3 {
        '3'
    } else if d == 4 {
        '4'
    } else if d == 5 {
        '5'
    } else if d == 6 {
        '6'
    } else if d == 7 {
        '7'
    } else if d == 8 {
        '8'
    } else {
        '9'
    }
}

/// `10^w`.
pub open spec fn pow10(w: nat) -> int
    decreases w,
{
    if w == 0 {
        1
    } else {
        10 * pow10((w - 1) as nat)
    }
}

/// `n` rendered as exactly `w` decimal digits, most significant first,
/// zero-padded; `n` is taken modulo `10^w`.
pub open spec fn dec_pad(n: int, w: nat) -> Seq<char>
    decreases w,
{
    if w == 0 {
        Seq::empty()
    } else {
        dec_pad(n / 10, (w - 1) as nat).push(digit_char(n % 10))
    }
}

/// Whether every character of `s` is a decimal digit.
pub open spec fn digits_ok(s: Seq<char>) -> bool {
    forall|i: int| 0 <= i < s.len() ==> is_digit(#[trigger] s[i])
}

/// The value of a digit sequence, most significant first.
pub open spec fn val_of_digits(s: Seq<char>) -> int
    decreases s.len(),
{
    if s.len() == 0 {
        0
    } else {
        val_of_digits(s.drop_last()) * 10 + digit_val(s.last())
    }
}

pub proof fn lemma_dec_pad_len(n: int, w: nat)
    ensures
        dec_pad(n, w).len() == w,
    decreases w,
{
    if w > 0 {
        lemma_dec_pad_len(n / 10, (w - 1) as nat);
    }
}

pub proof fn lemma_dec_pad_digits(n: int, w: nat)
    requires
        n >= 0,
    ensures
        digits_ok(dec_pad(n, w)),
    decreases w,
{
    if w > 0 {
        lemma_dec_pad_digits(n / 10, (w - 1) as nat);
        lemma_dec_pad_len(n / 10, (w - 1) as nat);
        let s = dec_pad(n, w);
        let prev = dec_pad(n / 10, (w - 1) as nat);
        assert forall|i: int| 0 <= i < s.len() implies is_digit(#[trigger] s[i]) by {
            if i < prev.len() {
                assert(s[i] == prev[i]);
            } else {
                assert(s[i] == digit_char(n % 10));
            }
        }
    }
}

pub proof fn lemma_val_of_dec_pad(n: int, w: nat)
    requires
        0 <= n < pow10(w),
    ensures
        val_of_digits(dec_pad(n, w)) == n,
    decreases w,
{
    if w == 0 {
        assert(n == 0);
    } else {
        let prev = dec_pad(n / 10, (w - 1) as nat);
        assert(n / 10 < pow10((w - 1) as nat)) by {
            assert(n < 10 * pow10((w - 1) as nat));
        };
        lemma_val_of_dec_pad(n / 10, (w - 1) as nat);
        let s = dec_pad(n, w);
        assert(s.drop_last() =~= prev);
        assert(s.last() == digit_char(n % 10));
        assert(digit_val(digit_char(n % 10)) == n % 10);
        assert(val_of_digits(s) == (n / 10) * 10 + n % 10);
        assert((n / 10) * 10 + n % 10 == n) by (nonlinear_arith);
    }
}

/// The value of a digit sequence is never negative.
pub proof fn lemma_val_of_digits_nonneg(s: Seq<char>)
    requires
        digits_ok(s),
    ensures
        val_of_digits(s) >= 0,
    decreases s.len(),
{
    if s.len() > 0 {
        assert(digits_ok(s.drop_last()));
        lemma_val_of_digits_nonneg(s.drop_last());
        assert(is_digit(s.last()));
    }
}

/// A digit prefix never exceeds the value of the whole sequence.
pub proof fn lemma_val_of_digits_prefix(s: Seq<char>, i: int)
    requires
        digits_ok(s),
        0 <= i <= s.len(),
    ensures
        val_of_digits(s.subrange(0, i)) <= val_of_digits(s),
    decreases s.len() - i,
{
    if i < s.len() {
        let t = s.subrange(0, i + 1);
        assert(t.drop_last() =~= s.subrange(0, i));
        assert(digits_ok(t.drop_last()));
        lemma_val_of_digits_nonneg(s.subrange(0, i));
        assert(is_digit(t.last()));
        assert(val_of_digits(t) == val_of_digits(s.subrange(0, i)) * 10 + digit_val(t.last()));
        assert(val_of_digits(s.subrange(0, i)) * 10 >= val_of_digits(s.subrange(0, i))) by (nonlinear_arith)
            requires
                val_of_digits(s.subrange(0, i)) >= 0,
        ;
        lemma_val_of_digits_prefix(s, i + 1);
    } else {
        assert(s.subrange(0, i) =~= s);
    }
}

/// A digit sequence's value is bounded by ten to its length.
pub proof fn lemma_val_of_digits_bound(s: Seq<char>)
    requires
        digits_ok(s),
    ensures
        0 <= val_of_digits(s) < pow10(s.len()),
    decreases s.len(),
{
    if s.len() == 0 {
    } else {
        assert(digits_ok(s.drop_last()));
        lemma_val_of_digits_bound(s.drop_last());
        let v = val_of_digits(s.drop_last());
        let p = pow10((s.len() - 1) as nat);
        assert(is_digit(s.last()));
        assert(v * 10 + digit_val(s.last()) < 10 * p) by (nonlinear_arith)
            requires
                0 <= v < p,
                0 <= digit_val(s.last()) < 10,
        ;
        assert(v * 10 + digit_val(s.last()) >= 0) by (nonlinear_arith)
            requires
                v >= 0,
                digit_val(s.last()) >= 0,
        ;
        assert(pow10(s.len()) == 10 * p);
    }
}

/// The concrete powers of ten the token wire format leans on.
pub proof fn lemma_pow10_bounds()
    ensures
        pow10(19) == 10_000_000_000_000_000_000,
        pow10(20) == 100_000_000_000_000_000_000,
        (u128::MAX as int) < pow10(39),
        (i64::MAX as int) < pow10(19),
        (u64::MAX as int) < pow10(20),
{
    reveal_with_fuel(pow10, 40);
    assert(pow10(19) == 10_000_000_000_000_000_000);
    assert(pow10(20) == 100_000_000_000_000_000_000);
    assert(pow10(39) == 1_000_000_000_000_000_000_000_000_000_000_000_000_000int);
}

/// The decimal digit with value `d` as a one-character string slice.
fn digit_str(d: u8) -> (r: &'static str)
    requires
        d < 10,
    ensures
        r@.len() == 1,
        r@[0] == digit_char(d as int),
{
    if d == 0 {
        proof {
            reveal_strlit("0");
        }
        "0"
    } else if d == 1 {
        proof {
            reveal_strlit("1");
        }
        "1"
    } else if d == 2 {
        proof {
            reveal_strlit("2");
        }
        "2"
    } else if d == 3 {
        proof {
            reveal_strlit("3");
        }
        "3"
    } else if d == 4 {
        proof {
            reveal_strlit("4");
        }
        "4"
    } else if d == 5 {
        proof {
            reveal_strlit("5");
        }
        "5"
    } else if d == 6 {
        proof {
            reveal_strlit("6");
        }
        "6"
    } else if d == 7 {
        proof {
            reveal_strlit("7");
        }
        "7"
    } else if d == 8 {
        proof {
            reveal_strlit("8");
        }
        "8"
    } else {
        proof {
            reveal_strlit("9");
        }
        "9"
    }
}

/// Renders `n` as exactly `w` zero-padded decimal digits.
pub fn enc_pad(n: u128, w: u32) -> (r: String)
    ensures
        r@ == dec_pad(n as int, w as nat),
    decreases w,
{
    if w == 0 {
        let r = String::new();
        proof {
            assert(r@ =~= dec_pad(n as int, 0));
        }
        r
    } else {
        let mut s = enc_pad(n / 10, w - 1);
        let d: u8 = (n % 10) as u8;
        s.append(digit_str(d));
        proof {
            assert(s@ =~= dec_pad(n as int, w as nat));
        }
        s
    }
}

/// Parses `s[from..to]` as a decimal number. `None` exactly when the range
/// holds a non-digit or the value does not fit in `u128`.
pub fn parse_digits_range(s: &str, from: usize, to: usize) -> (r: Option<u128>)
    requires
        from <= to <= s@.len(),
    ensures
        match r {
            Some(v) => digits_ok(s@.subrange(from as int, to as int)) && v as int == val_of_digits(
                s@.subrange(from as int, to as int),
            ),
            None => !digits_ok(s@.subrange(from as int, to as int)) || val_of_digits(
                s@.subrange(from as int, to as int),
            ) > u128::MAX,
        },
{
    let ghost whole = s@.subrange(from as int, to as int);
    let mut i: usize = from;
    let mut acc: u128 = 0;
    while i < to
        invariant
            from <= i <= to <= s@.len(),
            whole == s@.subrange(from as int, to as int),
            digits_ok(s@.subrange(from as int, i as int)),
            acc as int == val_of_digits(s@.subrange(from as int, i as int)),
        decreases to - i,
    {
        let c = s.get_char(i);
        let cu: u32 = c as u32;
        let ghost prefix = s@.subrange(from as int, i as int);
        let ghost prefix1 = s@.subrange(from as int, i as int + 1);
        proof {
            assert(prefix1.drop_last() =~= prefix);
            assert(prefix1.last() == c);
        }
        if cu < 48 || cu > 57 {
            proof {
                assert(!is_digit(whole[i - from]));
            }
            return None;
        }
        let d: u8 = (cu - 48) as u8;
        if acc > (u128::MAX - d as u128) / 10 {
            proof {
                assert(digits_ok(prefix1));
                assert(val_of_digits(prefix1) == acc as int * 10 + d as int);
                assert(acc as int * 10 + d as int > u128::MAX) by (nonlinear_arith)
                    requires
                        acc as int > (u128::MAX - d as u128) as int / 10,
                        0 <= d < 10,
                        acc as int >= 0,
                ;
                if digits_ok(whole) {
                    lemma_val_of_digits_prefix(whole, i - from + 1);
                    assert(whole.subrange(0, i - from + 1) =~= prefix1);
                }
            }
            return None;
        }
        proof {
            assert(acc as int * 10 + d as int <= u128::MAX) by (nonlinear_arith)
                requires
                    acc as int <= (u128::MAX - d as u128) as int / 10,
                    0 <= d < 10,
                    acc as int >= 0,
            ;
        }
        acc = acc * 10 + d as u128;
        i = i + 1;
    }
    proof {
        assert(s@.subrange(from as int, i as int) =~= whole);
    }
    Some(acc)
}

} // verus!
