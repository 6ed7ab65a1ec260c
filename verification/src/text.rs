//! Text rendering helpers with exact specifications.

use vstd::prelude::*;

verus! {

/// The character of a decimal digit.
pub open spec fn digit_char(d: nat) -> char {
    ((d + 48) as char)
}

/// Decimal rendering of a natural number, without leading zeros.
pub open spec fn dec(n: nat) -> Seq<char>
    decreases n,
{
    if n < 10 {
        seq![digit_char(n)]
    } else {
        dec(n / 10).push(digit_char(n % 10))
    }
}

/// Appends one character to a string (`String::push`).
#[verifier::external_body]
pub(crate) fn push_char(s: &mut String, c: char)
    ensures
        final(s)@ == old(s)@.push(c),
{
    s.push(c);
}

fn digit(d: u128) -> (c: char)
    requires
        d < 10,
    ensures
        c == digit_char(d as nat),
{
    let b: u8 = 48u8 + (d as u8);
    b as char
}

/// Appends the decimal rendering of `n`.
pub fn push_dec(s: &mut String, n: u128)
    ensures
        final(s)@ == old(s)@ + dec(n as nat),
    decreases n,
{
    if n < 10 {
        push_char(s, digit(n));
    } else {
        push_dec(s, n / 10);
        push_char(s, digit(n % 10));
    }
}


/// `num / den` rounded to the nearest integer, ties to the even neighbour.
pub open spec fn round_div(num: nat, den: nat) -> nat
    recommends
        den > 0,
{
    let q = num / den;
    let r = num % den;
    if 2 * r > den {
        q + 1
    } else if 2 * r < den {
        q
    } else if q % 2 == 0 {
        q
    } else {
        q + 1
    }
}

/// A count of tenths rendered with one decimal place, as in `{:.1}`.
pub open spec fn fixed1(t: nat) -> Seq<char> {
    dec(t / 10).push('.').push(digit_char(t % 10))
}

/// A count of hundredths rendered with two decimal places, as in `{:.2}`.
pub open spec fn fixed2(h: nat) -> Seq<char> {
    dec(h / 100).push('.').push(digit_char((h % 100) / 10)).push(digit_char(h % 10))
}

/// A number zero-padded to at least two digits, as in `{:02}`.
pub open spec fn pad2(n: nat) -> Seq<char> {
    if n < 10 {
        seq!['0', digit_char(n)]
    } else {
        dec(n)
    }
}

/// Plain rendering of the value `c / 100` for a count `c` of hundredths,
/// with no trailing zeros after the point and no point for whole values
/// (the `Display` form of a decimal number).
pub open spec fn centi_display(c: int) -> Seq<char> {
    let a: nat = if c < 0 { (-c) as nat } else { c as nat };
    let sign: Seq<char> = if c < 0 { seq!['-'] } else { seq![] };
    let whole = sign + dec(a / 100);
    let f = a % 100;
    if f == 0 {
        whole
    } else if f % 10 == 0 {
        whole.push('.').push(digit_char(f / 10))
    } else {
        whole.push('.').push(digit_char(f / 10)).push(digit_char(f % 10))
    }
}

/// `s` right-aligned in a field of `w` characters, as in `{:>w}`.
pub open spec fn pad_left(s: Seq<char>, w: nat) -> Seq<char> {
    if s.len() < w {
        Seq::new((w - s.len()) as nat, |i: int| ' ') + s
    } else {
        s
    }
}

/// `num / den` rounded to the nearest integer, ties to even.
pub fn round_div_u128(num: u128, den: u128) -> (r: u128)
    requires
        den > 0,
        num <= u128::MAX / 4,
        den <= u128::MAX / 4,
    ensures
        r as nat == round_div(num as nat, den as nat),
{
    let q = num / den;
    let rem = num % den;
    if 2 * rem > den {
        assert(q < u128::MAX) by (nonlinear_arith)
            requires
                q == num / den,
                den > 0,
                num <= u128::MAX / 4,
        ;
        q + 1
    } else if 2 * rem < den {
        q
    } else if q % 2 == 0 {
        q
    } else {
        assert(q < u128::MAX) by (nonlinear_arith)
            requires
                q == num / den,
                den > 0,
                num <= u128::MAX / 4,
        ;
        q + 1
    }
}

/// Appends a count of tenths with one decimal place.
pub fn push_fixed1(s: &mut String, t: u128)
    ensures
        final(s)@ == old(s)@ + fixed1(t as nat),
{
    push_dec(s, t / 10);
    push_char(s, '.');
    push_char(s, digit(t % 10));
}

/// Appends a count of hundredths with two decimal places.
pub fn push_fixed2(s: &mut String, h: u128)
    ensures
        final(s)@ == old(s)@ + fixed2(h as nat),
{
    push_dec(s, h / 100);
    push_char(s, '.');
    push_char(s, digit((h % 100) / 10));
    push_char(s, digit(h % 10));
}

/// Appends a number zero-padded to two digits.
pub fn push_pad2(s: &mut String, n: u128)
    ensures
        final(s)@ == old(s)@ + pad2(n as nat),
{
    if n < 10 {
        push_char(s, '0');
        push_char(s, digit(n));
        assert(final(s)@ =~= old(s)@ + pad2(n as nat));
    } else {
        push_dec(s, n);
    }
}

/// Appends the plain rendering of `c / 100`.
pub fn push_centi_display(s: &mut String, c: i64)
    ensures
        final(s)@ == old(s)@ + centi_display(c as int),
{
    let ghost start = s@;
    let a: u64 = if c < 0 {
        if c == i64::MIN {
            9223372036854775808u64
        } else {
            (-c) as u64
        }
    } else {
        c as u64
    };
    if c < 0 {
        push_char(s, '-');
    }
    push_dec(s, (a / 100) as u128);
    let f = (a % 100) as u128;
    if f != 0 {
        push_char(s, '.');
        push_char(s, digit(f / 10));
        if f % 10 != 0 {
            push_char(s, digit(f % 10));
        }
    }
    assert(s@ =~= start + centi_display(c as int));
}

/// An owned copy of a string slice.
pub fn string_of(t: &str) -> (r: String)
    ensures
        r@ == t@,
{
    let mut r = String::new();
    r.append(t);
    r
}

/// Appends a string literal or slice.
pub fn push_str(s: &mut String, t: &str)
    ensures
        final(s)@ == old(s)@ + t@,
{
    s.append(t);
}

/// Right-aligns `t` in a field of `w` characters.
pub fn pad_left_str(t: &str, w: usize) -> (r: String)
    ensures
        r@ == pad_left(t@, w as nat),
{
    let n = t.unicode_len();
    let mut r = String::new();
    if n < w {
        let mut i: usize = 0;
        while i < w - n
            invariant
                i <= w - n,
                n == t@.len(),
                n < w,
                r@ == Seq::new(i as nat, |k: int| ' '),
            decreases w - n - i,
        {
            push_char(&mut r, ' ');
            i = i + 1;
            assert(r@ =~= Seq::new(i as nat, |k: int| ' '));
        }
    }
    push_str(&mut r, t);
    assert(r@ =~= pad_left(t@, w as nat));
    r
}


/// The magnitude of an integer.
pub open spec fn abs(v: int) -> nat {
    if v < 0 {
        (-v) as nat
    } else {
        v as nat
    }
}

/// A minus sign for negative values.
pub open spec fn minus(v: int) -> Seq<char> {
    if v < 0 {
        seq!['-']
    } else {
        seq![]
    }
}

/// The value `v / 100` (for a count `v` of hundredths) rounded to
/// `places` decimal places (0, 1 or 2), as in `{:.0}`, `{:.1}`, `{:.2}`.
pub open spec fn centi_fixed(v: int, places: nat) -> Seq<char> {
    if places == 0 {
        minus(v) + dec(round_div(abs(v), 100))
    } else if places == 1 {
        minus(v) + fixed1(round_div(abs(v), 10))
    } else {
        minus(v) + fixed2(abs(v))
    }
}

/// The ratio `num / den` rounded to one decimal place.
pub open spec fn ratio_fixed1(num: nat, den: nat) -> Seq<char> {
    fixed1(round_div(num * 10, den))
}

/// Largest magnitude accepted by the number renderers.
pub const RENDER_MAX: u128 = 0x10000000000000000000000000;

/// Appends `v / 100` rounded to `places` decimal places.
pub fn push_centi_fixed(s: &mut String, v: i128, places: u8)
    requires
        -(RENDER_MAX as int) <= v <= RENDER_MAX,
        places <= 2,
    ensures
        final(s)@ == old(s)@ + centi_fixed(v as int, places as nat),
{
    let ghost start = s@;
    let a: u128 = if v < 0 {
        (-v) as u128
    } else {
        v as u128
    };
    if v < 0 {
        push_char(s, '-');
    }
    assert(s@ == start + minus(v as int));
    if places == 0 {
        let r = round_div_u128(a, 100);
        push_dec(s, r);
    } else if places == 1 {
        let r = round_div_u128(a, 10);
        push_fixed1(s, r);
    } else {
        push_fixed2(s, a);
    }
    assert(s@ =~= start + centi_fixed(v as int, places as nat));
}

/// Appends the ratio `num / den` rounded to one decimal place.
pub fn push_ratio_fixed1(s: &mut String, num: u128, den: u128)
    requires
        den > 0,
        num <= RENDER_MAX,
        den <= RENDER_MAX,
    ensures
        final(s)@ == old(s)@ + ratio_fixed1(num as nat, den as nat),
{
    let r = round_div_u128(num * 10, den);
    push_fixed1(s, r);
}


/// The parts joined with `sep` between each two (`[..].join(sep)`).
pub open spec fn join(ps: Seq<Seq<char>>, sep: Seq<char>) -> Seq<char>
    decreases ps.len(),
{
    if ps.len() == 0 {
        seq![]
    } else if ps.len() == 1 {
        ps[0]
    } else {
        join(ps.drop_last(), sep) + sep + ps.last()
    }
}

/// Appending the next part to a join of a prefix.
pub proof fn lemma_join_step(ps: Seq<Seq<char>>, sep: Seq<char>, i: int)
    requires
        0 <= i < ps.len(),
    ensures
        join(ps.take(i + 1), sep) == if i == 0 {
            ps[0]
        } else {
            join(ps.take(i), sep) + sep + ps[i]
        },
{
    assert(ps.take(i + 1).drop_last() =~= ps.take(i));
    if i == 0 {
        assert(ps.take(1).len() == 1);
    }
}


/// `s` padded with leading zeros to at least `w` characters.
pub open spec fn zero_pad(s: Seq<char>, w: nat) -> Seq<char> {
    if s.len() < w {
        Seq::new((w - s.len()) as nat, |i: int| '0') + s
    } else {
        s
    }
}

/// Appends the decimal rendering of `n`, zero-padded to `w` digits.
pub fn push_dec_zero_padded(s: &mut String, n: u128, w: usize)
    ensures
        final(s)@ == old(s)@ + zero_pad(dec(n as nat), w as nat),
{
    let mut d = String::new();
    push_dec(&mut d, n);
    let len = d.as_str().unicode_len();
    let ghost start = s@;
    if len < w {
        let mut i: usize = 0;
        while i < w - len
            invariant
                i <= w - len,
                len < w,
                s@ == start + Seq::new(i as nat, |k: int| '0'),
            decreases w - len - i,
        {
            push_char(s, '0');
            i = i + 1;
            assert(s@ =~= start + Seq::new(i as nat, |k: int| '0'));
        }
    }
    push_str(s, d.as_str());
    assert(s@ =~= start + zero_pad(dec(n as nat), w as nat));
}

} // verus!
