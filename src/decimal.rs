//! Text of 128-bit fixed-point decimals.
use vstd::prelude::*;
use vstd::string::StringExecFns;

verus! {

/// The decimal digit characters, by value.
pub open spec fn decimal_digits() -> Seq<char> {
    seq!['0', '1', '2', '3', '4', '5', '6', '7', '8', '9']
}

/// The decimal digits of `n`, most significant first, without leading zeros.
pub open spec fn digits_of(n: nat) -> Seq<char>
    decreases n,
{
    if n < 10 {
        seq![decimal_digits()[n as int]]
    } else {
        digits_of(n / 10) + seq![decimal_digits()[(n % 10) as int]]
    }
}

/// Ten to the power `n`.
pub open spec fn pow10(n: nat) -> nat
    decreases n,
{
    if n == 0 {
        1
    } else {
        10 * pow10((n - 1) as nat)
    }
}

/// The digits of `n`, padded on the left with zeros to at least `width`
/// characters.
pub open spec fn zero_padded(n: nat, width: nat) -> Seq<char> {
    let d = digits_of(n);
    if d.len() < width {
        Seq::new((width - d.len()) as nat, |i: int| '0') + d
    } else {
        d
    }
}

/// The text of the fixed-point value `num / 10^scale`: a minus sign for a
/// negative value, the integer part, and, when `scale` is positive, a point
/// followed by exactly `scale` fractional digits.
pub open spec fn decimal_text(num: int, scale: nat) -> Seq<char> {
    let sign = if num < 0 {
        seq!['-']
    } else {
        Seq::<char>::empty()
    };
    let a = (if num < 0 {
        -num
    } else {
        num
    }) as nat;
    if scale == 0 {
        sign + digits_of(a)
    } else {
        sign + digits_of(a / pow10(scale)) + seq!['.'] + zero_padded(a % pow10(scale), scale)
    }
}

proof fn lemma_pow10_monotone(a: nat, b: nat)
    requires
        a <= b,
    ensures
        1 <= pow10(a) <= pow10(b),
    decreases b,
{
    if a < b {
        lemma_pow10_monotone(a, (b - 1) as nat);
    } else if b > 0 {
        lemma_pow10_monotone((b - 1) as nat, (b - 1) as nat);
    }
}

proof fn lemma_pow10_add(a: nat, b: nat)
    ensures
        pow10(a + b) == pow10(a) * pow10(b),
    decreases b,
{
    if b > 0 {
        lemma_pow10_add(a, (b - 1) as nat);
        let p = pow10(a);
        let q = pow10((b - 1) as nat);
        assert(pow10(a + b) == 10 * pow10((a + b - 1) as nat));
        assert(pow10(b) == 10 * q);
        assert(10 * (p * q) == p * (10 * q)) by (nonlinear_arith);
    } else {
        assert(pow10(0) == 1);
        assert(a + b == a);
    }
}

proof fn lemma_pow10_fits(n: nat)
    requires
        n <= 38,
    ensures
        1 <= pow10(n) <= pow10(38) < 0x1_0000_0000_0000_0000_0000_0000_0000_0000,
{
    lemma_pow10_monotone(n, 38);
    reveal_with_fuel(pow10, 11);
    assert(pow10(10) == 10_000_000_000);
    assert(pow10(8) == 100_000_000);
    lemma_pow10_add(10, 8);
    lemma_pow10_add(10, 18);
    lemma_pow10_add(10, 28);
}

/// Ten to the power `n`, for the `n` whose power fits in 128 bits.
fn pow10_u128(n: u8) -> (r: u128)
    requires
        n <= 38,
    ensures
        r == pow10(n as nat),
{
    let mut pow: u128 = 1;
    let mut i: u8 = 0;
    while i < n
        invariant
            0 <= i <= n <= 38,
            pow == pow10(i as nat),
        decreases n - i,
    {
        proof {
            lemma_pow10_fits((i + 1) as nat);
        }
        pow = pow * 10;
        i += 1;
    }
    pow
}

/// The text of one decimal digit.
fn digit_str(d: u128) -> (r: &'static str)
    requires
        d < 10,
    ensures
        r@ == seq![decimal_digits()[d as int]],
{
    proof {
        reveal_strlit("0");
        reveal_strlit("1");
        reveal_strlit("2");
        reveal_strlit("3");
        reveal_strlit("4");
        reveal_strlit("5");
        reveal_strlit("6");
        reveal_strlit("7");
        reveal_strlit("8");
        reveal_strlit("9");
    }
    if d == 0 {
        "0"
    } else if d == 1 {
        "1"
    } else if d == 2 {
        "2"
    } else if d == 3 {
        "3"
    } else if d == 4 {
        "4"
    } else if d == 5 {
        "5"
    } else if d == 6 {
        "6"
    } else if d == 7 {
        "7"
    } else if d == 8 {
        "8"
    } else {
        "9"
    }
}

/// Appends the digits of `n` to `buf`.
fn push_digits(buf: &mut String, n: u128)
    ensures
        final(buf)@ == old(buf)@ + digits_of(n as nat),
    decreases n,
{
    if n < 10 {
        buf.append(digit_str(n));
    } else {
        push_digits(buf, n / 10);
        buf.append(digit_str(n % 10));
        assert(final(buf)@ =~= old(buf)@ + digits_of(n as nat));
    }
}

/// Appends the digits of `n`, padded on the left with zeros to at least
/// `width` characters.
fn push_zero_padded(buf: &mut String, n: u128, width: usize)
    ensures
        final(buf)@ == old(buf)@ + zero_padded(n as nat, width as nat),
{
    let mut digits = String::new();
    push_digits(&mut digits, n);
    let len = digits.as_str().unicode_len();
    let mut k: usize = len;
    let ghost before = buf@;
    while k < width
        invariant
            len <= k,
            k == len || k <= width,
            len == digits_of(n as nat).len(),
            digits@ == digits_of(n as nat),
            buf@ == before + Seq::new((k - len) as nat, |j: int| '0'),
        decreases width - k,
    {
        buf.append("0");
        proof {
            reveal_strlit("0");
        }
        assert(buf@ =~= before + Seq::new((k + 1 - len) as nat, |j: int| '0'));
        k += 1;
    }
    buf.append(digits.as_str());
    assert(final(buf)@ =~= old(buf)@ + zero_padded(n as nat, width as nat));
}

/// The text of the fixed-point decimal `num / 10^scale`, as a column of
/// decimals with that scale shows it.
pub fn display_decimal_128(num: i128, scale: u8) -> (r: String)
    requires
        scale <= 38,
    ensures
        r@ == decimal_text(num as int, scale as nat),
{
    let magnitude: u128 = if num >= 0 {
        num as u128
    } else {
        (-(num + 1)) as u128 + 1
    };
    let mut buf = if num < 0 {
        String::from_str("-")
    } else {
        String::new()
    };
    proof {
        reveal_strlit("-");
    }
    let ghost sign = buf@;
    if scale == 0 {
        push_digits(&mut buf, magnitude);
        return buf;
    }
    let pow = pow10_u128(scale);
    proof {
        lemma_pow10_fits(scale as nat);
    }
    push_digits(&mut buf, magnitude / pow);
    buf.append(".");
    proof {
        reveal_strlit(".");
    }
    push_zero_padded(&mut buf, magnitude % pow, scale as usize);
    assert(buf@ =~= decimal_text(num as int, scale as nat));
    buf
}

} // verus!
