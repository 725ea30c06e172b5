use vstd::prelude::*;

verus! {

/// Price units in one dollar: prices carry eight decimals.
pub const UNITS_PER_DOLLAR: u64 = 100_000_000;

/// Most digits accepted after the decimal point.
pub const MAX_FRACTION_DIGITS: usize = 8;

/// Most digits accepted before the decimal point.
pub const MAX_WHOLE_DIGITS: usize = 11;

pub open spec fn pow10(n: nat) -> nat
    decreases n,
{
    if n == 0 {
        1
    } else {
        10 * pow10((n - 1) as nat)
    }
}

pub open spec fn is_digit(c: char) -> bool {
    '0' <= c && c <= '9'
}

pub open spec fn digit_value(c: char) -> nat {
    (c as u32 - '0' as u32) as nat
}

pub open spec fn all_digits(s: Seq<char>) -> bool {
    forall|i: int| 0 <= i < s.len() ==> is_digit(#[trigger] s[i])
}

/// The number that the decimal digits `s` denote (most significant first).
pub open spec fn digits_value(s: Seq<char>) -> nat
    decreases s.len(),
{
    if s.len() == 0 {
        0
    } else {
        digits_value(s.drop_last()) * 10 + digit_value(s.last())
    }
}

/// Index of the first '.' of `s` at or after `i`, or the length of `s` if none.
pub open spec fn first_dot(s: Seq<char>, i: int) -> int
    decreases s.len() - i,
{
    if i < 0 || i >= s.len() {
        s.len() as int
    } else if s[i] == '.' {
        i
    } else {
        first_dot(s, i + 1)
    }
}

/// The digits before the decimal point.
pub open spec fn whole_part(s: Seq<char>) -> Seq<char> {
    s.take(first_dot(s, 0))
}

/// The digits after the decimal point (none if there is no point).
pub open spec fn fraction_part(s: Seq<char>) -> Seq<char> {
    let k = first_dot(s, 0);
    if k < s.len() {
        s.skip(k + 1)
    } else {
        Seq::empty()
    }
}

/// The price, in units, that the text `s` denotes: one to eleven digits,
/// then optionally a point and at most eight digits. Anything else
/// (a sign, an exponent, a second point, other characters) denotes none.
pub open spec fn price_units(s: Seq<char>) -> Option<nat> {
    let w = whole_part(s);
    let f = fraction_part(s);
    if 1 <= w.len() <= MAX_WHOLE_DIGITS && all_digits(w) && all_digits(f) && f.len()
        <= MAX_FRACTION_DIGITS {
        Some(digits_value(w) * pow10(8) + digits_value(f) * pow10((8 - f.len()) as nat))
    } else {
        None
    }
}

pub proof fn lemma_pow10_add(a: nat, b: nat)
    ensures
        pow10(a) * pow10(b) == pow10(a + b),
    decreases a,
{
    if a > 0 {
        lemma_pow10_add((a - 1) as nat, b);
        assert(pow10(a + b) == 10 * pow10((a + b - 1) as nat));
        assert(((a - 1) as nat + b) as nat == (a + b - 1) as nat);
        assert(pow10(a) * pow10(b) == 10 * (pow10((a - 1) as nat) * pow10(b))) by (nonlinear_arith)
            requires
                pow10(a) == 10 * pow10((a - 1) as nat),
        ;
    } else {
        assert(pow10(a) == 1);
        assert(a + b == b);
    }
}

pub proof fn lemma_pow10_mono(a: nat, b: nat)
    requires
        a <= b,
    ensures
        1 <= pow10(a) <= pow10(b),
    decreases b,
{
    if b == 0 {
    } else if a == b {
        lemma_pow10_mono((b - 1) as nat, (b - 1) as nat);
    } else {
        lemma_pow10_mono(a, (b - 1) as nat);
    }
}

pub proof fn lemma_digits_step(s: Seq<char>, from: int, i: int)
    requires
        0 <= from <= i < s.len(),
    ensures
        digits_value(s.subrange(from, i + 1)) == digits_value(s.subrange(from, i)) * 10
            + digit_value(s[i]),
{
    assert(s.subrange(from, i + 1).drop_last() =~= s.subrange(from, i));
}

proof fn lemma_units_fit(w: nat, wl: nat, f: nat, fl: nat)
    requires
        wl <= 11,
        fl <= 8,
        w < pow10(wl),
        f < pow10(fl),
    ensures
        pow10(8) == 100_000_000,
        w * pow10(8) + f * pow10((8 - fl) as nat) < 10_000_000_000_000_000_000,
{
    reveal_with_fuel(pow10, 12);
    lemma_pow10_mono(wl, 11);
    lemma_pow10_add(fl, (8 - fl) as nat);
    lemma_pow10_mono((8 - fl) as nat, 8);
    let sc = pow10((8 - fl) as nat);
    assert(w * 100_000_000 <= (100_000_000_000 - 1) * 100_000_000) by (nonlinear_arith)
        requires
            w < 100_000_000_000,
    ;
    assert(f * sc < pow10(fl) * sc) by (nonlinear_arith)
        requires
            f < pow10(fl),
            sc >= 1,
    ;
}

/// Index of the first '.' of `s`, or its length.
fn find_dot(s: &str) -> (k: usize)
    ensures
        k == first_dot(s@, 0),
        k <= s@.len(),
{
    let n = s.unicode_len();
    let mut i: usize = 0;
    while i < n && s.get_char(i) != '.'
        invariant
            i <= n,
            n == s@.len(),
            first_dot(s@, 0) == first_dot(s@, i as int),
        decreases n - i,
    {
        i = i + 1;
    }
    i
}

/// The value of the characters of `s` in `from..to`, if they are all digits.
fn digits_between(s: &str, from: usize, to: usize) -> (r: Option<u64>)
    requires
        from <= to <= s@.len(),
        to - from <= MAX_WHOLE_DIGITS,
    ensures
        match r {
            Some(v) => all_digits(s@.subrange(from as int, to as int)) && v == digits_value(
                s@.subrange(from as int, to as int),
            ) && v < pow10((to - from) as nat),
            None => !all_digits(s@.subrange(from as int, to as int)),
        },
{
    let mut v: u64 = 0;
    let mut i: usize = from;
    proof {
        reveal_with_fuel(pow10, 12);
        lemma_pow10_mono((to - from) as nat, 11);
    }
    while i < to
        invariant
            from <= i <= to <= s@.len(),
            to - from <= MAX_WHOLE_DIGITS,
            pow10((to - from) as nat) <= 100_000_000_000,
            all_digits(s@.subrange(from as int, i as int)),
            v == digits_value(s@.subrange(from as int, i as int)),
            v < pow10((i - from) as nat),
        decreases to - i,
    {
        let c = s.get_char(i);
        if c < '0' || c > '9' {
            assert(s@.subrange(from as int, to as int)[i - from] == c);
            return None;
        }
        proof {
            lemma_digits_step(s@, from as int, i as int);
            lemma_pow10_mono((i + 1 - from) as nat, (to - from) as nat);
            assert(pow10((i + 1 - from) as nat) == 10 * pow10((i - from) as nat));
            assert(s@.subrange(from as int, i + 1) =~= s@.subrange(from as int, i as int).push(c));
        }
        v = v * 10 + (c as u32 - '0' as u32) as u64;
        i = i + 1;
    }
    Some(v)
}

/// `10` to the power `e`.
fn pow10_u64(e: usize) -> (r: u64)
    requires
        e <= MAX_FRACTION_DIGITS,
    ensures
        r == pow10(e as nat),
{
    let mut r: u64 = 1;
    let mut i: usize = 0;
    proof {
        reveal_with_fuel(pow10, 9);
    }
    while i < e
        invariant
            i <= e <= 8,
            r == pow10(i as nat),
            pow10(i as nat) <= pow10(8),
            pow10(8) == 100_000_000,
        decreases e - i,
    {
        proof {
            lemma_pow10_mono((i + 1) as nat, 8);
        }
        r = r * 10;
        i = i + 1;
    }
    r
}

/// Reads a price written in decimal (`"50000.12"`) as units.
pub fn parse_price(s: &str) -> (r: Option<u64>)
    ensures
        match r {
            Some(v) => price_units(s@) == Some(v as nat),
            None => price_units(s@) is None,
        },
{
    let n = s.unicode_len();
    let k = find_dot(s);
    if k == 0 || k > MAX_WHOLE_DIGITS {
        return None;
    }
    let flen: usize = if k < n { n - k - 1 } else { 0 };
    if flen > MAX_FRACTION_DIGITS {
        return None;
    }
    let whole = match digits_between(s, 0, k) {
        Some(w) => w,
        None => {
            assert(s@.subrange(0, k as int) =~= whole_part(s@));
            return None;
        },
    };
    assert(s@.subrange(0, k as int) =~= whole_part(s@));
    let from: usize = if k < n { k + 1 } else { n };
    assert(s@.subrange(from as int, n as int) =~= fraction_part(s@));
    let frac = match digits_between(s, from, n) {
        Some(f) => f,
        None => {
            return None;
        },
    };
    let scale = pow10_u64(MAX_FRACTION_DIGITS - flen);
    proof {
        lemma_units_fit(whole as nat, k as nat, frac as nat, flen as nat);
    }
    Some(whole * UNITS_PER_DOLLAR + frac * scale)
}

} // verus!
