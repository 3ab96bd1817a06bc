//! Decimal rendering of the integers that the status lines display.
use vstd::prelude::*;

verus! {

/// The character for a single decimal digit.
pub open spec fn dec_digit(d: int) -> char {
    if d == 0 {
        '0'
    } else if d == 1 {
        '1'
    } else if d == 2 {
        '2'
    } else if d == 3 {
        '3'
    } else if d == 4 {
        '4'
    } else if d == 5 {
        '5'
    } else if d == 6 {
        '6'
    } else if d == 7 {
        '7'
    } else if d == 8 {
        '8'
    } else {
        '9'
    }
}

/// The decimal digit string of a natural number, most significant digit
/// first, with no leading zeros (a single '0' for zero).
pub open spec fn dec_rep(n: nat) -> Seq<char>
    decreases n,
{
    if n < 10 {
        seq![dec_digit(n as int)]
    } else {
        dec_rep(n / 10).push(dec_digit((n % 10) as int))
    }
}

/// The decimal string of a signed number: a leading '-' before the
/// magnitude when the number is negative.
pub open spec fn dec_rep_signed(v: int) -> Seq<char> {
    if v >= 0 {
        dec_rep(v as nat)
    } else {
        seq!['-'].add(dec_rep((-v) as nat))
    }
}

/// Powers of ten, for bounding digit counts.
pub open spec fn pow10(k: nat) -> nat
    decreases k,
{
    if k == 0 {
        1
    } else {
        10 * pow10((k - 1) as nat)
    }
}

/// A number below the k-th power of ten has at most k decimal digits.
pub proof fn lemma_dec_rep_len_le(n: nat, k: nat)
    requires
        1 <= k,
        n < pow10(k),
    ensures
        dec_rep(n).len() <= k,
    decreases n,
{
    if n >= 10 {
        assert(pow10(k) == 10 * pow10((k - 1) as nat));
        if k == 1 {
            assert(pow10(0nat) == 1);
            assert(false);
        }
        assert(n / 10 < pow10((k - 1) as nat)) by (nonlinear_arith)
            requires
                n < 10 * pow10((k - 1) as nat),
        ;
        lemma_dec_rep_len_le(n / 10, (k - 1) as nat);
    }
}

/// A value that fits in 64 bits has at most 20 decimal digits.
pub proof fn lemma_dec_rep_len_u64(n: nat)
    requires
        n < 0x1_0000_0000_0000_0000,
    ensures
        dec_rep(n).len() <= 20,
{
    assert(pow10(20) > 0xFFFF_FFFF_FFFF_FFFFnat) by {
        reveal_with_fuel(pow10, 21);
    };
    lemma_dec_rep_len_le(n, 20);
}

fn dec_digit_str(d: u64) -> (s: &'static str)
    requires
        d < 10,
    ensures
        s@ == seq![dec_digit(d as int)],
{
    proof {
        reveal_strlit("0");
        reveal_strlit("1");
        reveal_strlit("2");
        reveal_strlit("3");
        reveal_strlit("4");
        reveal_strlit("5");
        reveal_strlit("6");
        reveal_strlit("7");
        reveal_strlit("8");
        reveal_strlit("9");
    }
    if d == 0 {
        "0"
    } else if d == 1 {
        "1"
    } else if d == 2 {
        "2"
    } else if d == 3 {
        "3"
    } else if d == 4 {
        "4"
    } else if d == 5 {
        "5"
    } else if d == 6 {
        "6"
    } else if d == 7 {
        "7"
    } else if d == 8 {
        "8"
    } else {
        "9"
    }
}

/// A value that fits in 128 bits has at most 39 decimal digits.
pub proof fn lemma_dec_rep_len_u128(n: nat)
    requires
        n < 0x1_0000_0000_0000_0000_0000_0000_0000_0000,
    ensures
        dec_rep(n).len() <= 39,
{
    assert(pow10(39) > 0xFFFF_FFFF_FFFF_FFFF_FFFF_FFFF_FFFF_FFFFnat) by {
        reveal_with_fuel(pow10, 40);
    };
    lemma_dec_rep_len_le(n, 39);
}

/// Renders an unsigned number in decimal.
pub fn u64_to_dec(n: u64) -> (s: String)
    ensures
        s@ == dec_rep(n as nat),
    decreases n,
{
    if n < 10 {
        String::from_str(dec_digit_str(n))
    } else {
        let mut s = u64_to_dec(n / 10);
        s.append(dec_digit_str(n % 10));
        proof {
            assert(s@ =~= dec_rep(n as nat));
        }
        s
    }
}

/// Renders a wide unsigned counter in decimal.
pub fn u128_to_dec(n: u128) -> (s: String)
    ensures
        s@ == dec_rep(n as nat),
    decreases n,
{
    if n < 10 {
        String::from_str(dec_digit_str(n as u64))
    } else {
        let mut s = u128_to_dec(n / 10);
        s.append(dec_digit_str((n % 10) as u64));
        proof {
            assert(s@ =~= dec_rep(n as nat));
        }
        s
    }
}

/// The number of characters in the decimal rendering of a wide counter.
pub fn dec_len_u128(n: u128) -> (len: usize)
    ensures
        len == dec_rep(n as nat).len(),
    decreases n,
{
    if n < 10 {
        1
    } else {
        let rest = dec_len_u128(n / 10);
        proof {
            lemma_dec_rep_len_u128((n / 10) as nat);
        }
        rest + 1
    }
}

/// Renders a signed number in decimal, with a '-' sign when negative.
pub fn i64_to_dec(v: i64) -> (s: String)
    ensures
        s@ == dec_rep_signed(v as int),
{
    if v >= 0 {
        u64_to_dec(v as u64)
    } else {
        let magnitude: u64 = if v == i64::MIN {
            9223372036854775808u64
        } else {
            (-v) as u64
        };
        let mut s = String::from_str("-");
        s.append(u64_to_dec(magnitude).as_str());
        proof {
            reveal_strlit("-");
            assert(s@ =~= dec_rep_signed(v as int));
        }
        s
    }
}

/// The number of characters in the decimal rendering of `n`.
pub fn dec_len(n: u64) -> (len: usize)
    ensures
        len == dec_rep(n as nat).len(),
    decreases n,
{
    if n < 10 {
        1
    } else {
        let rest = dec_len(n / 10);
        proof {
            lemma_dec_rep_len_u64((n / 10) as nat);
        }
        rest + 1
    }
}

/// The number of characters in the signed decimal rendering of `v`.
pub fn dec_len_signed(v: i64) -> (len: usize)
    ensures
        len == dec_rep_signed(v as int).len(),
{
    if v >= 0 {
        dec_len(v as u64)
    } else {
        let magnitude: u64 = if v == i64::MIN {
            9223372036854775808u64
        } else {
            (-v) as u64
        };
        let rest = dec_len(magnitude);
        proof {
            lemma_dec_rep_len_u64(magnitude as nat);
        }
        rest + 1
    }
}

} // verus!
