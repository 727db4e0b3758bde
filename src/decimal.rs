use vstd::prelude::*;

verus! {

/// The character of a decimal digit.
pub open spec fn digit_char(d: int) -> char {
    if d == 0 {
        '0'
    } else if d == 1 {
        '1'
    } else if d == 2 {
        '2'
    } else if d == 3 {
        '3'
    } else if d == 4 {
        '4'
    } else if d == 5 {
        '5'
    } else if d == 6 {
        '6'
    } else if d == 7 {
        '7'
    } else if d == 8 {
        '8'
    } else {
        '9'
    }
}

/// Decimal digits of `n`, without leading zeros (`"0"` for zero).
pub open spec fn digits_text(n: nat) -> Seq<char>
    decreases n,
{
    if n < 10 {
        seq![digit_char(n as int)]
    } else {
        digits_text(n / 10) + seq![digit_char((n % 10) as int)]
    }
}

/// The last `width` decimal digits of `n`, with leading zeros.
pub open spec fn padded_text(n: nat, width: nat) -> Seq<char>
    decreases width,
{
    if width == 0 {
        Seq::empty()
    } else {
        padded_text(n / 10, (width - 1) as nat) + seq![digit_char((n % 10) as int)]
    }
}

/// Ten to the power `e`.
pub open spec fn pow10(e: nat) -> nat
    decreases e,
{
    if e == 0 {
        1
    } else {
        10 * pow10((e - 1) as nat)
    }
}

/// The text of the number `v / 10^d` with exactly `d` digits after the point
/// (and no point when `d` is zero).
pub open spec fn number_text(v: nat, d: nat) -> Seq<char> {
    if d == 0 {
        digits_text(v)
    } else {
        digits_text(v / pow10(d)) + seq!['.'] + padded_text(v % pow10(d), d)
    }
}

/// The same number `v / 10^d` with trailing zeros after the point removed.
pub open spec fn trimmed(v: nat, d: nat) -> (nat, nat)
    decreases d,
{
    if d > 0 && v % 10 == 0 {
        trimmed(v / 10, (d - 1) as nat)
    } else {
        (v, d)
    }
}

/// The shortest text of the number `v / 10^d`.
pub open spec fn shortest_text(v: nat, d: nat) -> Seq<char> {
    number_text(trimmed(v, d).0, trimmed(v, d).1)
}

/// `v / 10^d` rounded half up to `places` digits after the point, as a
/// count of `10^-places`.
pub open spec fn rounded_to(v: nat, d: nat, places: nat) -> nat {
    if d <= places {
        v * pow10((places - d) as nat)
    } else {
        let step = pow10((d - places) as nat);
        (v + step / 2) / step
    }
}

proof fn lemma_pow10_mono(i: nat, j: nat)
    requires
        i <= j,
    ensures
        1 <= pow10(i) <= pow10(j),
    decreases j,
{
    if i < j {
        lemma_pow10_mono(i, (j - 1) as nat);
    } else if i > 0 {
        lemma_pow10_mono((i - 1) as nat, (i - 1) as nat);
    }
}

proof fn lemma_pow10_bound(e: nat)
    requires
        e <= 12,
    ensures
        1 <= pow10(e) <= 1_000_000_000_000,
{
    lemma_pow10_mono(e, 12);
    assert(pow10(12) == 1_000_000_000_000) by {
        reveal_with_fuel(pow10, 13);
    }
}

/// `10^e`.
pub fn pow10_u128(e: u32) -> (r: u128)
    requires
        e <= 12,
    ensures
        r == pow10(e as nat),
{
    let mut r: u128 = 1;
    let mut i: u32 = 0;
    while i < e
        invariant
            i <= e <= 12,
            r == pow10(i as nat),
        decreases e - i,
    {
        proof {
            lemma_pow10_bound((i + 1) as nat);
        }
        r = r * 10;
        i = i + 1;
    }
    r
}

fn digit_str(d: u128) -> (r: &'static str)
    requires
        d < 10,
    ensures
        r@ == seq![digit_char(d as int)],
{
    proof {
        reveal_strlit("0");
        reveal_strlit("1");
        reveal_strlit("2");
        reveal_strlit("3");
        reveal_strlit("4");
        reveal_strlit("5");
        reveal_strlit("6");
        reveal_strlit("7");
        reveal_strlit("8");
        reveal_strlit("9");
    }
    if d == 0 {
        "0"
    } else if d == 1 {
        "1"
    } else if d == 2 {
        "2"
    } else if d == 3 {
        "3"
    } else if d == 4 {
        "4"
    } else if d == 5 {
        "5"
    } else if d == 6 {
        "6"
    } else if d == 7 {
        "7"
    } else if d == 8 {
        "8"
    } else {
        "9"
    }
}

/// Appends the decimal digits of `n`.
pub fn push_digits(n: u128, out: &mut String)
    ensures
        final(out)@ == old(out)@ + digits_text(n as nat),
    decreases n,
{
    if n >= 10 {
        push_digits(n / 10, out);
    }
    out.append(digit_str(n % 10));
    assert(final(out)@ =~= old(out)@ + digits_text(n as nat));
}

/// Appends the last `width` decimal digits of `n`, with leading zeros.
pub fn push_padded(n: u128, width: u32, out: &mut String)
    ensures
        final(out)@ == old(out)@ + padded_text(n as nat, width as nat),
    decreases width,
{
    if width > 0 {
        push_padded(n / 10, width - 1, out);
        out.append(digit_str(n % 10));
        assert(final(out)@ =~= old(out)@ + padded_text(n as nat, width as nat));
    } else {
        assert(final(out)@ =~= old(out)@ + padded_text(n as nat, width as nat));
    }
}

/// Appends the number `v / 10^d` with exactly `d` digits after the point.
pub fn push_number(v: u128, d: u32, out: &mut String)
    requires
        d <= 12,
    ensures
        final(out)@ == old(out)@ + number_text(v as nat, d as nat),
{
    if d == 0 {
        push_digits(v, out);
    } else {
        let p = pow10_u128(d);
        proof {
            lemma_pow10_bound(d as nat);
        }
        push_digits(v / p, out);
        out.append(".");
        proof {
            reveal_strlit(".");
        }
        push_padded(v % p, d, out);
        assert(final(out)@ =~= old(out)@ + number_text(v as nat, d as nat));
    }
}

/// Removes trailing zeros after the point from the number `v / 10^d`.
pub fn trim_zeros(v: u128, d: u32) -> (r: (u128, u32))
    ensures
        (r.0 as nat, r.1 as nat) == trimmed(v as nat, d as nat),
        r.1 <= d,
{
    let mut a = v;
    let mut b = d;
    while b > 0 && a % 10 == 0
        invariant
            b <= d,
            trimmed(a as nat, b as nat) == trimmed(v as nat, d as nat),
        decreases b,
    {
        a = a / 10;
        b = b - 1;
    }
    (a, b)
}

/// Appends the shortest text of the number `v / 10^d`.
pub fn push_shortest(v: u128, d: u32, out: &mut String)
    requires
        d <= 12,
    ensures
        final(out)@ == old(out)@ + shortest_text(v as nat, d as nat),
{
    let (a, b) = trim_zeros(v, d);
    push_number(a, b, out);
}

/// `v / 10^d` rounded half up to `places` digits after the point.
pub fn round_to(v: u128, d: u32, places: u32) -> (r: u128)
    requires
        d <= 12,
        places <= 12,
        d <= places ==> v * pow10((places - d) as nat) <= u128::MAX,
    ensures
        r == rounded_to(v as nat, d as nat, places as nat),
{
    if d <= places {
        v * pow10_u128(places - d)
    } else {
        let step = pow10_u128(d - places);
        proof {
            lemma_pow10_mono(1, (d - places) as nat);
            lemma_pow10_bound((d - places) as nat);
            reveal_with_fuel(pow10, 2);
        }
        let half = step / 2;
        // Adding first could overflow; split `v` by `step` instead.
        let q = v / step;
        let rem = v % step;
        proof {
            let (vi, si, hi) = (v as int, step as int, half as int);
            assert(vi == (vi / si) * si + vi % si) by (nonlinear_arith)
                requires
                    si > 0,
            ;
            assert((vi + hi) / si == vi / si + (vi % si + hi) / si) by (nonlinear_arith)
                requires
                    si > 0,
                    hi >= 0,
                    vi >= 0,
                    vi == (vi / si) * si + vi % si,
            ;
            let (qi, ri) = (q as int, rem as int);
            assert(qi + (ri + hi) / si <= u128::MAX) by (nonlinear_arith)
                requires
                    si >= 10,
                    qi == vi / si,
                    0 <= ri < si,
                    0 <= hi <= si / 2,
                    0 <= vi <= u128::MAX,
            ;
        }
        let r = q + (rem + half) / step;
        r
    }
}

} // verus!
