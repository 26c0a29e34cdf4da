use vstd::arithmetic::div_mod::{lemma_div_multiples_vanish, lemma_mod_multiples_basic};
use vstd::prelude::*;

verus! {

/// Number of bytes in a kilobyte, and of kilobytes in a megabyte.
pub const UNIT: u64 = 1024;

/// `numer / denom` rounded to the nearest integer, a tie going to the even one.
pub open spec fn round_half_even(numer: nat, denom: nat) -> nat
    recommends
        denom > 0,
{
    let q = numer / denom;
    let r = numer % denom;
    if 2 * r > denom || (2 * r == denom && q % 2 == 1) {
        q + 1
    } else {
        q
    }
}

/// The character of a decimal digit.
pub open spec fn digit_char(d: nat) -> char
    recommends
        d < 10,
{
    seq!['0', '1', '2', '3', '4', '5', '6', '7', '8', '9'][d as int]
}

/// `n` in decimal notation, without leading zeros.
pub open spec fn decimal(n: nat) -> Seq<char>
    decreases n,
{
    if n < 10 {
        seq![digit_char(n)]
    } else {
        decimal(n / 10).push(digit_char(n % 10))
    }
}

/// A number of hundredths written with two decimals: 1234 reads `12.34`.
pub open spec fn two_decimals(hundredths: nat) -> Seq<char> {
    decimal(hundredths / 100) + seq!['.', digit_char((hundredths / 10) % 10), digit_char(
        hundredths % 10,
    )]
}

/// A byte count as a human reads it: kilobytes below 1024 of them, megabytes
/// from there on, each to two decimals.
pub open spec fn pretty_size_spec(bytes: nat) -> Seq<char> {
    if bytes / 1024 < 1024 {
        two_decimals(round_half_even(100 * bytes, 1024)) + seq!['k', 'b']
    } else {
        two_decimals(round_half_even(100 * bytes, 1024 * 1024)) + seq!['m', 'b']
    }
}

/// `hundredths` that are a whole number `k` read as `k` and `.00`.
proof fn lemma_whole_two_decimals(k: nat)
    ensures
        two_decimals(100 * k) == decimal(k) + seq!['.', '0', '0'],
{
    lemma_div_multiples_vanish(k as int, 100);
    lemma_mod_multiples_basic((10 * k) as int, 10);
    lemma_mod_multiples_basic(k as int, 100);
    assert((100 * k) / 10 == 10 * k) by {
        lemma_div_multiples_vanish((10 * k) as int, 10);
    }
    assert((100 * k) % 10 == 0) by {
        lemma_mod_multiples_basic((10 * k) as int, 10);
    }
    assert(two_decimals(100 * k) =~= decimal(k) + seq!['.', '0', '0']);
}

/// A whole number `k` of kilobytes below 1024 reads `k.00kb`, and a whole,
/// non-zero number `k` of megabytes reads `k.00mb`.
pub proof fn lemma_whole_units(k: nat)
    ensures
        k < 1024 ==> pretty_size_spec(k * 1024) == decimal(k) + seq!['.', '0', '0', 'k', 'b'],
        k >= 1 ==> pretty_size_spec(k * (1024 * 1024)) == decimal(k) + seq![
            '.',
            '0',
            '0',
            'm',
            'b',
        ],
{
    lemma_whole_two_decimals(k);
    if k < 1024 {
        lemma_div_multiples_vanish(k as int, 1024);
        lemma_div_multiples_vanish((100 * k) as int, 1024);
        lemma_mod_multiples_basic((100 * k) as int, 1024);
        assert(k * 1024 == 1024 * k);
        assert(100 * (k * 1024) == 1024 * (100 * k));
        assert(round_half_even(100 * (k * 1024), 1024) == 100 * k);
        assert(pretty_size_spec(k * 1024) =~= decimal(k) + seq!['.', '0', '0', 'k', 'b']);
    }
    if k >= 1 {
        let m: int = 1048576;
        lemma_div_multiples_vanish((1024 * k) as int, 1024);
        lemma_div_multiples_vanish((100 * k) as int, m);
        lemma_mod_multiples_basic((100 * k) as int, m);
        assert(k * m == 1024 * (1024 * k));
        assert(100 * (k * m) == m * (100 * k));
        assert((k * m) / 1024 >= 1024);
        assert(round_half_even(100 * (k * m) as nat, m as nat) == 100 * k);
        assert(pretty_size_spec(k * (1024 * 1024)) =~= decimal(k) + seq![
            '.',
            '0',
            '0',
            'm',
            'b',
        ]);
    }
}

fn digit_str(d: u64) -> (r: &'static str)
    requires
        d < 10,
    ensures
        r@ == seq![digit_char(d as nat)],
{
    proof {
        reveal_strlit("0");
        reveal_strlit("1");
        reveal_strlit("2");
        reveal_strlit("3");
        reveal_strlit("4");
        reveal_strlit("5");
        reveal_strlit("6");
        reveal_strlit("7");
        reveal_strlit("8");
        reveal_strlit("9");
    }
    if d == 0 {
        "0"
    } else if d == 1 {
        "1"
    } else if d == 2 {
        "2"
    } else if d == 3 {
        "3"
    } else if d == 4 {
        "4"
    } else if d == 5 {
        "5"
    } else if d == 6 {
        "6"
    } else if d == 7 {
        "7"
    } else if d == 8 {
        "8"
    } else {
        "9"
    }
}

fn push_decimal(s: &mut String, n: u64)
    ensures
        final(s)@ == old(s)@ + decimal(n as nat),
    decreases n,
{
    if n >= 10 {
        push_decimal(s, n / 10);
    }
    s.append(digit_str(n % 10));
    assert(final(s)@ =~= old(s)@ + decimal(n as nat));
}

fn push_two_decimals(s: &mut String, hundredths: u64)
    ensures
        final(s)@ == old(s)@ + two_decimals(hundredths as nat),
{
    push_decimal(s, hundredths / 100);
    proof {
        reveal_strlit(".");
    }
    s.append(".");
    s.append(digit_str((hundredths / 10) % 10));
    s.append(digit_str(hundredths % 10));
    assert(final(s)@ =~= old(s)@ + two_decimals(hundredths as nat));
}

/// `numer / denom` rounded to the nearest integer, a tie going to the even one.
fn divide_rounded(numer: u128, denom: u128) -> (r: u128)
    requires
        denom > 0,
        numer < u128::MAX,
    ensures
        r == round_half_even(numer as nat, denom as nat),
{
    let q = numer / denom;
    let r = numer % denom;
    if r > denom - r || (r == denom - r && q % 2 == 1) {
        q + 1
    } else {
        q
    }
}

/// Renders a byte count in kilobytes, or in megabytes from 1024 kilobytes on,
/// rounded to two decimals: 1536 bytes read `1.50kb`, 3 MiB read `3.00mb`.
pub fn pretty_size(size_in_bytes: usize) -> (r: String)
    ensures
        r@ == pretty_size_spec(size_in_bytes as nat),
{
    let bytes = size_in_bytes as u128;
    let kb = UNIT as u128;
    let mut s = String::new();
    if bytes / kb < kb {
        let h = divide_rounded(100 * bytes, kb);
        assert(h <= 100 * 1024 * 1024) by (nonlinear_arith)
            requires
                h == round_half_even(100 * bytes as nat, 1024),
                bytes < 1024 * 1024,
        ;
        push_two_decimals(&mut s, h as u64);
        proof {
            reveal_strlit("kb");
        }
        s.append("kb");
    } else {
        let h = divide_rounded(100 * bytes, kb * kb);
        assert(h <= 100 * 0x1000_0000_0000 + 1) by (nonlinear_arith)
            requires
                h == round_half_even(100 * bytes as nat, 1024 * 1024),
                bytes < 0x1_0000_0000_0000_0000,
        ;
        push_two_decimals(&mut s, h as u64);
        proof {
            reveal_strlit("mb");
        }
        s.append("mb");
    }
    assert(s@ =~= pretty_size_spec(size_in_bytes as nat));
    s
}

} // verus!
