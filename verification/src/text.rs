//! Rendering numbers and flags as text, for the wire lines the measurement
//! and qualification envelopes are made of.

use vstd::prelude::*;

verus! {

#[verifier::external_type_specification]
#[verifier::external_body]
pub struct ExFmtError(core::fmt::Error);

/// The decimal digit character for `d` (below 10).
pub open spec fn decimal_digit(d: nat) -> char {
    if d == 0 {
        '0'
    } else if d == 1 {
        '1'
    } else if d == 2 {
        '2'
    } else if d == 3 {
        '3'
    } else if d == 4 {
        '4'
    } else if d == 5 {
        '5'
    } else if d == 6 {
        '6'
    } else if d == 7 {
        '7'
    } else if d == 8 {
        '8'
    } else {
        '9'
    }
}

/// The lowercase hexadecimal digit character for `d` (below 16).
pub open spec fn hex_digit(d: nat) -> char {
    if d < 10 {
        decimal_digit(d)
    } else if d == 10 {
        'a'
    } else if d == 11 {
        'b'
    } else if d == 12 {
        'c'
    } else if d == 13 {
        'd'
    } else if d == 14 {
        'e'
    } else {
        'f'
    }
}

/// `n` in decimal, without leading zeros.
pub open spec fn decimal(n: nat) -> Seq<char>
    decreases n,
{
    if n < 10 {
        seq![decimal_digit(n)]
    } else {
        decimal(n / 10).push(decimal_digit(n % 10))
    }
}

/// `n` in lowercase hexadecimal, without leading zeros.
pub open spec fn hexadecimal(n: nat) -> Seq<char>
    decreases n,
{
    if n < 16 {
        seq![hex_digit(n)]
    } else {
        hexadecimal(n / 16).push(hex_digit(n % 16))
    }
}

/// `k` zero characters.
pub open spec fn zeros(k: nat) -> Seq<char> {
    Seq::new(k, |i: int| '0')
}

/// `n` as `0x` followed by at least `width` hexadecimal digits, padded on
/// the left with zeros.
pub open spec fn hex_padded(n: nat, width: nat) -> Seq<char> {
    let digits = hexadecimal(n);
    seq!['0', 'x'] + zeros(if digits.len() < width {
        (width - digits.len()) as nat
    } else {
        0
    }) + digits
}

/// `b` as `true` or `false`.
pub open spec fn flag(b: bool) -> Seq<char> {
    if b {
        seq!['t', 'r', 'u', 'e']
    } else {
        seq!['f', 'a', 'l', 's', 'e']
    }
}

fn digit_text(d: u64) -> (s: &'static str)
    requires
        d < 16,
    ensures
        s@ == seq![hex_digit(d as nat)],
{
    if d == 0 {
        proof { reveal_strlit("0"); }
        "0"
    } else if d == 1 {
        proof { reveal_strlit("1"); }
        "1"
    } else if d == 2 {
        proof { reveal_strlit("2"); }
        "2"
    } else if d == 3 {
        proof { reveal_strlit("3"); }
        "3"
    } else if d == 4 {
        proof { reveal_strlit("4"); }
        "4"
    } else if d == 5 {
        proof { reveal_strlit("5"); }
        "5"
    } else if d == 6 {
        proof { reveal_strlit("6"); }
        "6"
    } else if d == 7 {
        proof { reveal_strlit("7"); }
        "7"
    } else if d == 8 {
        proof { reveal_strlit("8"); }
        "8"
    } else if d == 9 {
        proof { reveal_strlit("9"); }
        "9"
    } else if d == 10 {
        proof { reveal_strlit("a"); }
        "a"
    } else if d == 11 {
        proof { reveal_strlit("b"); }
        "b"
    } else if d == 12 {
        proof { reveal_strlit("c"); }
        "c"
    } else if d == 13 {
        proof { reveal_strlit("d"); }
        "d"
    } else if d == 14 {
        proof { reveal_strlit("e"); }
        "e"
    } else {
        proof { reveal_strlit("f"); }
        "f"
    }
}

/// `10^k`.
pub open spec fn ten_to(k: nat) -> nat
    decreases k,
{
    if k == 0 {
        1
    } else {
        10 * ten_to((k - 1) as nat)
    }
}

/// A number below `10^k` takes at most `k` decimal digits.
pub proof fn lemma_decimal_len(n: nat, k: nat)
    requires
        1 <= k,
        n < ten_to(k),
    ensures
        decimal(n).len() <= k,
    decreases k,
{
    if n >= 10 {
        if k == 1 {
            assert(ten_to(1) == 10) by {
                reveal_with_fuel(ten_to, 2);
            }
        } else {
            assert(n / 10 < ten_to((k - 1) as nat));
            lemma_decimal_len(n / 10, (k - 1) as nat);
        }
    }
}

/// Any `u64` takes at most 20 decimal digits, and any `u32` at most 10.
pub proof fn lemma_decimal_len_of_words(wide: u64, narrow: u32)
    ensures
        decimal(wide as nat).len() <= 20,
        decimal(narrow as nat).len() <= 10,
{
    assert(ten_to(20) == 100_000_000_000_000_000_000) by {
        reveal_with_fuel(ten_to, 21);
    }
    assert(ten_to(10) == 10_000_000_000) by {
        reveal_with_fuel(ten_to, 11);
    }
    lemma_decimal_len(wide as nat, 20);
    lemma_decimal_len(narrow as nat, 10);
}

/// Appends `n` in decimal.
pub fn push_decimal(sink: &mut String, n: u64)
    ensures
        final(sink)@ == old(sink)@ + decimal(n as nat),
    decreases n,
{
    if n >= 10 {
        push_decimal(sink, n / 10);
    }
    sink.append(digit_text(n % 10));
    proof {
        if n >= 10 {
            assert(old(sink)@ + decimal(n as nat) =~= old(sink)@ + decimal((n / 10) as nat) + seq![
                decimal_digit((n % 10) as nat),
            ]);
        } else {
            assert(decimal(n as nat) == seq![decimal_digit(n as nat)]);
        }
    }
}

/// `key` followed by `value` in decimal.
pub open spec fn field(key: Seq<char>, value: nat) -> Seq<char> {
    key + decimal(value)
}

/// Appends `key` and then `value` in decimal.
pub fn push_field(sink: &mut String, key: &str, value: u64)
    ensures
        final(sink)@ == old(sink)@ + field(key@, value as nat),
{
    sink.append(key);
    push_decimal(sink, value);
    assert(sink@ =~= old(sink)@ + field(key@, value as nat));
}

/// Appends `n` in hexadecimal.
fn push_hexadecimal(sink: &mut String, n: u64)
    ensures
        final(sink)@ == old(sink)@ + hexadecimal(n as nat),
    decreases n,
{
    if n >= 16 {
        push_hexadecimal(sink, n / 16);
    }
    sink.append(digit_text(n % 16));
    proof {
        if n >= 16 {
            assert(old(sink)@ + hexadecimal(n as nat) =~= old(sink)@ + hexadecimal((n / 16) as nat)
                + seq![hex_digit((n % 16) as nat)]);
        }
    }
}

/// Appends `0x` and the hexadecimal digits of `n`, zero-padded to at least
/// `width` digits.
pub fn push_hex_padded(sink: &mut String, n: u64, width: usize)
    ensures
        final(sink)@ == old(sink)@ + hex_padded(n as nat, width as nat),
{
    proof { reveal_strlit("0x"); reveal_strlit("0"); }
    sink.append("0x");
    assert(zeros(0) =~= Seq::<char>::empty());
    assert(sink@ =~= old(sink)@ + seq!['0', 'x'] + zeros(0));
    let mut digits_text = String::new();
    push_hexadecimal(&mut digits_text, n);
    assert(digits_text@ =~= hexadecimal(n as nat));
    let digits: usize = digits_text.as_str().unicode_len();
    let mut k: usize = 0;
    let pad: usize = if digits < width {
        width - digits
    } else {
        0
    };
    while k < pad
        invariant
            k <= pad,
            sink@ == old(sink)@ + seq!['0', 'x'] + zeros(k as nat),
        decreases pad - k,
    {
        proof { reveal_strlit("0"); }
        sink.append("0");
        proof {
            assert(zeros((k + 1) as nat) =~= zeros(k as nat).push('0'));
        }
        k = k + 1;
    }
    sink.append(digits_text.as_str());
    proof {
        assert(sink@ =~= old(sink)@ + hex_padded(n as nat, width as nat));
    }
}

/// Appends `true` or `false`.
pub fn push_flag(sink: &mut String, b: bool)
    ensures
        final(sink)@ == old(sink)@ + flag(b),
{
    if b {
        proof { reveal_strlit("true"); }
        sink.append("true");
    } else {
        proof { reveal_strlit("false"); }
        sink.append("false");
    }
}

} // verus!
