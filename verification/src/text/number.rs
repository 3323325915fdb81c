use vstd::prelude::*;

verus! {

/// The ASCII digits of `n` in decimal, without leading zeros.
pub open spec fn decimal(n: nat) -> Seq<u8>
    decreases n,
{
    if n < 10 {
        seq![(0x30 + n) as u8]
    } else {
        decimal(n / 10).push((0x30 + n % 10) as u8)
    }
}

/// The ASCII digits of `n` in lower-case hexadecimal, without leading zeros.
pub open spec fn hex(n: nat) -> Seq<u8>
    decreases n,
{
    if n < 16 {
        seq![hex_digit(n)]
    } else {
        hex(n / 16).push(hex_digit(n % 16))
    }
}

/// The lower-case hexadecimal digit of a value below 16.
pub open spec fn hex_digit(d: nat) -> u8 {
    if d < 10 {
        (0x30 + d) as u8
    } else {
        (0x61 + d - 10) as u8
    }
}

/// The value of a sequence of decimal digits.
pub open spec fn decimal_value(s: Seq<u8>) -> int
    decreases s.len(),
{
    if s.len() == 0 {
        0
    } else {
        decimal_value(s.drop_last()) * 10 + (s.last() - 0x30)
    }
}

/// Reading the decimal digits of a number gives the number back.
pub proof fn lemma_decimal_roundtrip(n: nat)
    ensures
        decimal_value(decimal(n)) == n,
        decimal(n).len() >= 1,
        forall|i: int| 0 <= i < decimal(n).len() ==> 0x30 <= #[trigger] decimal(n)[i] <= 0x39,
    decreases n,
{
    if n >= 10 {
        lemma_decimal_roundtrip(n / 10);
        assert(decimal(n).drop_last() =~= decimal(n / 10));
        assert(decimal(n).last() == (0x30 + n % 10) as u8);
        assert(decimal(n).last() - 0x30 == n % 10);
        assert((n / 10) * 10 + n % 10 == n);
        assert(decimal_value(decimal(n)) == decimal_value(decimal(n / 10)) * 10 + (decimal(n).last()
            - 0x30));
    } else {
        assert(decimal(n).drop_last() =~= Seq::<u8>::empty());
        assert(decimal(n).last() - 0x30 == n);
        assert(decimal_value(decimal(n)) == decimal_value(Seq::<u8>::empty()) * 10 + (decimal(
            n,
        ).last() - 0x30));
    }
}

/// Whether `b` is an ASCII decimal digit or a lower-case letter `a` to `f`.
pub open spec fn is_lower_hex_digit(b: u8) -> bool {
    (0x30 <= b <= 0x39) || (0x61 <= b <= 0x66)
}

/// The value of a hexadecimal digit: `0`..`9` are 0 to 9, `a`..`f` are 10 to 15.
pub open spec fn hex_digit_value(b: u8) -> int {
    if 0x30 <= b <= 0x39 {
        b - 0x30
    } else {
        b - 0x61 + 10
    }
}

/// The value of a sequence of hexadecimal digits, most significant first.
pub open spec fn hex_value(s: Seq<u8>) -> int
    decreases s.len(),
{
    if s.len() == 0 {
        0
    } else {
        hex_value(s.drop_last()) * 16 + hex_digit_value(s.last())
    }
}

/// The hexadecimal digits of a number are all `0`-`9` or `a`-`f`, there is at
/// least one, and read in base 16 they give the number back.
pub proof fn lemma_hex_roundtrip(n: nat)
    ensures
        hex_value(hex(n)) == n,
        hex(n).len() >= 1,
        forall|i: int| 0 <= i < hex(n).len() ==> is_lower_hex_digit(#[trigger] hex(n)[i]),
    decreases n,
{
    let d = n % 16;
    assert(is_lower_hex_digit(hex_digit(d)) && hex_digit_value(hex_digit(d)) == d);
    if n >= 16 {
        lemma_hex_roundtrip(n / 16);
        assert(hex(n).drop_last() =~= hex(n / 16));
        assert(hex(n).last() == hex_digit(d));
        assert((n / 16) * 16 + d == n);
        assert(hex_value(hex(n)) == hex_value(hex(n / 16)) * 16 + hex_digit_value(hex_digit(d)));
        assert forall|i: int| 0 <= i < hex(n).len() implies is_lower_hex_digit(#[trigger] hex(n)[i]) by {
            if i < hex(n).len() - 1 {
                assert(hex(n)[i] == hex(n / 16)[i]);
            }
        }
    } else {
        assert(hex(n).drop_last() =~= Seq::<u8>::empty());
        assert(hex(n).last() == hex_digit(n));
        assert(hex_value(hex(n)) == hex_value(Seq::<u8>::empty()) * 16 + hex_digit_value(
            hex_digit(n),
        ));
    }
}

/// The decimal digits of `n`.
pub fn format_decimal(n: u64) -> (r: Vec<u8>)
    ensures
        r@ == decimal(n as nat),
    decreases n,
{
    if n < 10 {
        let mut v: Vec<u8> = Vec::new();
        v.push(0x30 + n as u8);
        assert(v@ =~= decimal(n as nat));
        v
    } else {
        let mut v = format_decimal(n / 10);
        v.push(0x30 + (n % 10) as u8);
        v
    }
}

/// The lower-case hexadecimal digits of `n`.
pub fn format_hex(n: u64) -> (r: Vec<u8>)
    ensures
        r@ == hex(n as nat),
    decreases n,
{
    let d = (n % 16) as u8;
    let digit = if d < 10 {
        0x30 + d
    } else {
        0x61 + d - 10
    };
    if n < 16 {
        let mut v: Vec<u8> = Vec::new();
        v.push(digit);
        assert(v@ =~= hex(n as nat));
        v
    } else {
        let mut v = format_hex(n / 16);
        v.push(digit);
        v
    }
}

} // verus!
