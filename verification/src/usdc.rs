//! USDC amounts as people write them: micro-USDC integers, or whole USDC
//! with up to six decimal places.
use vstd::prelude::*;
use crate::text::{chars_of, decimal, decimal_padded, digit_char, push_decimal, push_decimal_padded};

verus! {

/// Why a USDC amount was refused.
#[derive(Clone, Copy, Debug, PartialEq, Eq, Structural)]
pub enum UsdcError {
    /// The part before the point is not a number.
    InvalidAmount,
    /// The part after the point has more than six places.
    TooManyDecimals,
    /// The part after the point is not a number.
    InvalidFraction,
    /// Neither a number nor a number with a point.
    NotAnAmount,
}

/// Whether `c` is an ASCII decimal digit.
pub open spec fn is_digit(c: char) -> bool {
    48 <= (c as u32) <= 57
}

/// The value of a run of decimal digits.
pub open spec fn digits_value(d: Seq<char>) -> nat
    decreases d.len(),
{
    if d.len() == 0 {
        0
    } else {
        digits_value(d.drop_last()) * 10 + ((d.last() as u32) - 48) as nat
    }
}

/// The digits of an unsigned number's text: without a leading `+`.
pub open spec fn unsigned_digits(t: Seq<char>) -> Seq<char> {
    if t.len() > 0 && t[0] == '+' {
        t.skip(1)
    } else {
        t
    }
}

/// Whether `t` is the text of a `u64` as `str::parse::<u64>` reads it: an
/// optional `+`, then one or more decimal digits, of a value that fits.
pub open spec fn parses_u64(t: Seq<char>) -> bool {
    let d = unsigned_digits(t);
    &&& d.len() > 0
    &&& forall|i: int| 0 <= i < d.len() ==> is_digit(#[trigger] d[i])
    &&& digits_value(d) <= u64::MAX
}

/// The value of the text of a `u64`.
pub open spec fn u64_value(t: Seq<char>) -> nat {
    digits_value(unsigned_digits(t))
}

/// The index of the first `.` in `t`, or -1 where there is none.
pub open spec fn first_dot(t: Seq<char>) -> int
    decreases t.len(),
{
    if t.len() == 0 {
        -1
    } else if t[0] == '.' {
        0
    } else {
        let r = first_dot(t.skip(1));
        if r < 0 {
            -1
        } else {
            r + 1
        }
    }
}

/// Whether every character of `t` is ASCII.
pub open spec fn all_ascii(t: Seq<char>) -> bool {
    forall|i: int| 0 <= i < t.len() ==> (#[trigger] t[i] as u32) < 128
}

/// `f` padded on the right with zeros to six characters.
pub open spec fn pad6(f: Seq<char>) -> Seq<char> {
    f + Seq::new((6 - f.len()) as nat, |i: int| '0')
}

/// What an amount's text stands for, in micro-USDC: a number as it is;
/// otherwise whole USDC, a point, and up to six places of fraction, each
/// part a number (the fraction padded on the right with zeros).
pub open spec fn usdc_amount(t: Seq<char>) -> Result<nat, UsdcError> {
    if parses_u64(t) {
        Ok(u64_value(t))
    } else if first_dot(t) < 0 {
        Err(UsdcError::NotAnAmount)
    } else {
        let whole = t.take(first_dot(t));
        let frac = t.skip(first_dot(t) + 1);
        if !parses_u64(whole) {
            Err(UsdcError::InvalidAmount)
        } else if !(all_ascii(frac) && frac.len() <= 6) {
            Err(UsdcError::TooManyDecimals)
        } else if !parses_u64(pad6(frac)) {
            Err(UsdcError::InvalidFraction)
        } else {
            Ok(u64_value(whole) * 1_000_000 + u64_value(pad6(frac)))
        }
    }
}

/// Whether the amount that `t` stands for, if any, fits in a `u64`.
pub open spec fn usdc_in_range(t: Seq<char>) -> bool {
    match usdc_amount(t) {
        Ok(v) => v <= u64::MAX,
        Err(_) => true,
    }
}

/// The text of `micro` micro-USDC: whole USDC, a point, six places, ` USDC`.
pub open spec fn usdc_text(micro: u64) -> Seq<char> {
    usdc_number(micro) + " USDC"@
}

/// The number part of `usdc_text`.
pub open spec fn usdc_number(micro: u64) -> Seq<char> {
    decimal((micro / 1_000_000) as nat) + "."@ + decimal_padded((micro % 1_000_000) as nat, 6)
}

proof fn lemma_digits_value_prefix(d: Seq<char>, i: int)
    requires
        0 <= i <= d.len(),
    ensures
        digits_value(d.take(i)) <= digits_value(d),
    decreases d.len() - i,
{
    if i < d.len() {
        lemma_digits_value_prefix(d, i + 1);
        assert(d.take(i + 1).drop_last() =~= d.take(i));
    } else {
        assert(d.take(i) =~= d);
    }
}

/// The value of the digits `cs[lo..hi]`, where they are one or more digits of a value that fits.
fn parse_digits(cs: &Vec<char>, lo: usize, hi: usize) -> (r: Option<u64>)
    requires
        lo <= hi <= cs@.len(),
    ensures
        ({
            let d = cs@.subrange(lo as int, hi as int);
            let ok = d.len() > 0 && (forall|i: int| 0 <= i < d.len() ==> is_digit(#[trigger] d[i]))
                && digits_value(d) <= u64::MAX;
            match r {
                Some(v) => ok && v == digits_value(d),
                None => !ok,
            }
        }),
{
    let ghost d = cs@.subrange(lo as int, hi as int);
    if lo == hi {
        return None;
    }
    let mut acc: u64 = 0;
    let mut i: usize = lo;
    while i < hi
        invariant
            lo <= i <= hi <= cs@.len(),
            d == cs@.subrange(lo as int, hi as int),
            forall|k: int| 0 <= k < i - lo ==> is_digit(#[trigger] d[k]),
            acc == digits_value(d.take(i - lo)),
        decreases hi - i,
    {
        let c = cs[i];
        proof {
            assert(d.take(i - lo + 1).drop_last() =~= d.take(i - lo));
            assert(d[i - lo] == c);
        }
        if !((c as u32) >= 48 && (c as u32) <= 57) {
            return None;
        }
        let digit = (c as u32 - 48) as u64;
        let next = match acc.checked_mul(10) {
            Some(m) => m.checked_add(digit),
            None => None,
        };
        match next {
            Some(v) => {
                acc = v;
            },
            None => {
                proof {
                    if forall|k: int| 0 <= k < d.len() ==> is_digit(#[trigger] d[k]) {
                        lemma_digits_value_prefix(d, i - lo + 1);
                    }
                }
                return None;
            },
        }
        i += 1;
    }
    assert(d.take(i - lo) =~= d);
    Some(acc)
}

/// `str::parse::<u64>` on `cs[lo..hi]`.
fn parse_u64_at(cs: &Vec<char>, lo: usize, hi: usize) -> (r: Option<u64>)
    requires
        lo <= hi <= cs@.len(),
    ensures
        match r {
            Some(v) => parses_u64(cs@.subrange(lo as int, hi as int)) && v == u64_value(
                cs@.subrange(lo as int, hi as int),
            ),
            None => !parses_u64(cs@.subrange(lo as int, hi as int)),
        },
{
    let ghost t = cs@.subrange(lo as int, hi as int);
    if lo < hi && cs[lo] == '+' {
        assert(t.skip(1) =~= cs@.subrange(lo + 1, hi as int));
        parse_digits(cs, lo + 1, hi)
    } else {
        parse_digits(cs, lo, hi)
    }
}

proof fn lemma_first_dot_at(t: Seq<char>, k: int)
    requires
        0 <= k < t.len(),
        t[k] == '.',
        forall|j: int| 0 <= j < k ==> t[j] != '.',
    ensures
        first_dot(t) == k,
    decreases k,
{
    if k > 0 {
        lemma_first_dot_at(t.skip(1), k - 1);
    }
}

proof fn lemma_no_dot(t: Seq<char>)
    requires
        forall|j: int| 0 <= j < t.len() ==> t[j] != '.',
    ensures
        first_dot(t) == -1,
    decreases t.len(),
{
    if t.len() > 0 {
        lemma_no_dot(t.skip(1));
    }
}

/// The amount `s` stands for, as whole USDC and micro-USDC to add.
fn read_amount(s: &str) -> (r: Result<(u64, u64), UsdcError>)
    ensures
        match r {
            Ok((w, f)) => usdc_amount(s@) == Ok::<nat, UsdcError>((w * 1_000_000 + f) as nat),
            Err(e) => usdc_amount(s@) == Err::<nat, UsdcError>(e),
        },
{
    let cs = chars_of(s);
    let n = cs.len();
    assert(cs@.subrange(0, n as int) =~= s@);
    if let Some(v) = parse_u64_at(&cs, 0, n) {
        return Ok((0, v));
    }
    let mut k: usize = 0;
    while k < n && cs[k] != '.'
        invariant
            k <= n == cs@.len(),
            forall|j: int| 0 <= j < k ==> cs@[j] != '.',
        decreases n - k,
    {
        k += 1;
    }
    if k == n {
        proof {
            lemma_no_dot(s@);
        }
        return Err(UsdcError::NotAnAmount);
    }
    proof {
        lemma_first_dot_at(s@, k as int);
        assert(s@.take(k as int) =~= cs@.subrange(0, k as int));
        assert(s@.skip(k + 1) =~= cs@.subrange(k + 1, n as int));
    }
    let whole = match parse_u64_at(&cs, 0, k) {
        Some(w) => w,
        None => {
            return Err(UsdcError::InvalidAmount);
        },
    };
    let ghost frac = cs@.subrange(k + 1, n as int);
    if n - (k + 1) > 6 {
        return Err(UsdcError::TooManyDecimals);
    }
    let mut padded: Vec<char> = Vec::new();
    let mut j: usize = k + 1;
    while j < n
        invariant
            k + 1 <= j <= n == cs@.len(),
            n - (k + 1) <= 6,
            frac == cs@.subrange(k + 1, n as int),
            padded@ == frac.take(j - (k + 1)),
            all_ascii(padded@),
            !all_ascii(frac) ==> usdc_amount(s@) == Err::<nat, UsdcError>(UsdcError::TooManyDecimals),
        decreases n - j,
    {
        let c = cs[j];
        if (c as u32) >= 128 {
            proof {
                assert(frac[j - (k + 1)] == c);
                assert(!all_ascii(frac));
            }
            return Err(UsdcError::TooManyDecimals);
        }
        padded.push(c);
        assert(padded@ =~= frac.take(j + 1 - (k + 1)));
        j += 1;
    }
    assert(padded@ =~= frac);
    while padded.len() < 6
        invariant
            padded@.len() <= 6,
            frac.len() <= 6,
            padded@ == frac + Seq::new((padded@.len() - frac.len()) as nat, |i: int| '0'),
            padded@.len() >= frac.len(),
        decreases 6 - padded@.len(),
    {
        padded.push('0');
        assert(padded@ =~= frac + Seq::new((padded@.len() - frac.len()) as nat, |i: int| '0'));
    }
    assert(padded@ =~= pad6(frac));
    assert(padded@.subrange(0, 6) =~= padded@);
    let fraction = match parse_u64_at(&padded, 0, 6) {
        Some(f) => f,
        None => {
            return Err(UsdcError::InvalidFraction);
        },
    };
    Ok((whole, fraction))
}

/// The amount `s` stands for, in micro-USDC; the amount must fit in a `u64`.
pub fn parse_usdc_amount(s: &str) -> (r: Result<u64, UsdcError>)
    requires
        usdc_in_range(s@),
    ensures
        match r {
            Ok(v) => usdc_amount(s@) == Ok::<nat, UsdcError>(v as nat),
            Err(e) => usdc_amount(s@) == Err::<nat, UsdcError>(e),
        },
{
    match read_amount(s) {
        Ok((whole, fraction)) => Ok(whole * 1_000_000 + fraction),
        Err(e) => Err(e),
    }
}

/// The amount `s` stands for, where it fits in a `u64`; `None` where it does not.
pub fn checked_parse_usdc_amount(s: &str) -> (r: Option<Result<u64, UsdcError>>)
    ensures
        match r {
            Some(Ok(v)) => usdc_amount(s@) == Ok::<nat, UsdcError>(v as nat),
            Some(Err(e)) => usdc_amount(s@) == Err::<nat, UsdcError>(e),
            None => !usdc_in_range(s@),
        },
{
    match read_amount(s) {
        Ok((whole, fraction)) => match whole.checked_mul(1_000_000) {
            Some(m) => match m.checked_add(fraction) {
                Some(v) => Some(Ok(v)),
                None => None,
            },
            None => None,
        },
        Err(e) => Some(Err(e)),
    }
}

/// The text of `micro` micro-USDC, such as `100.500000 USDC`.
pub fn format_usdc(micro: u64) -> (r: String)
    ensures
        r@ == usdc_text(micro),
{
    let mut out = String::new();
    push_decimal(&mut out, micro / 1_000_000);
    out.append(".");
    push_decimal_padded(&mut out, micro % 1_000_000, 6);
    out.append(" USDC");
    assert(out@ =~= usdc_text(micro));
    out
}

/// The character of a digit below ten is that decimal digit.
proof fn lemma_digit_char(d: nat)
    requires
        d < 10,
    ensures
        is_digit(digit_char(d)),
        (digit_char(d) as u32) == 48 + d,
{
    let b = (48 + d) as u8;
    assert(b as int == 48 + d);
    assert((b as char) as u32 == b as u32);
}

/// The decimal text of a number is a run of digits of that value, without
/// a point and without a sign.
pub(crate) proof fn lemma_decimal_digits(n: nat)
    ensures
        decimal(n).len() > 0,
        forall|i: int| 0 <= i < decimal(n).len() ==> is_digit(#[trigger] decimal(n)[i]),
        digits_value(decimal(n)) == n,
    decreases n,
{
    lemma_digit_char(n % 10);
    if n < 10 {
        assert(decimal(n).drop_last() =~= Seq::<char>::empty());
        assert(decimal(n).last() == digit_char(n));
        assert(digits_value(decimal(n)) == digits_value(Seq::<char>::empty()) * 10 + ((digit_char(n) as u32) - 48) as nat);
    }
    if n >= 10 {
        lemma_decimal_digits(n / 10);
        let t = decimal(n);
        assert(t.drop_last() =~= decimal(n / 10));
        assert(t.last() == digit_char(n % 10));
        assert(digits_value(t) == (n / 10) * 10 + n % 10);
        assert forall|i: int| 0 <= i < t.len() implies is_digit(#[trigger] t[i]) by {
            if i < t.len() - 1 {
                assert(t[i] == decimal(n / 10)[i]);
            }
        }
    }
}

/// Padded decimal digits of a number below `10^width` are a run of
/// `width` digits of that value.
proof fn lemma_decimal_padded_digits(n: nat, width: nat, bound: nat)
    requires
        n < bound,
        width == 0 ==> bound == 1,
        width > 0 ==> bound % 10 == 0 && bound > 0,
        width == 6 ==> bound == 1_000_000,
        width == 5 ==> bound == 100_000,
        width == 4 ==> bound == 10_000,
        width == 3 ==> bound == 1_000,
        width == 2 ==> bound == 100,
        width == 1 ==> bound == 10,
        width <= 6,
    ensures
        decimal_padded(n, width).len() == width,
        forall|i: int| 0 <= i < width ==> is_digit(#[trigger] decimal_padded(n, width)[i]),
        digits_value(decimal_padded(n, width)) == n,
    decreases width,
{
    if width > 0 {
        lemma_digit_char(n % 10);
        let next_bound = bound / 10;
        assert(n / 10 < next_bound);
        lemma_decimal_padded_digits(n / 10, (width - 1) as nat, next_bound);
        let t = decimal_padded(n, width);
        assert(t.drop_last() =~= decimal_padded(n / 10, (width - 1) as nat));
        assert forall|i: int| 0 <= i < width implies is_digit(#[trigger] t[i]) by {
            if i < width - 1 {
                assert(t[i] == decimal_padded(n / 10, (width - 1) as nat)[i]);
            }
        }
    }
}

/// Formatting then reading back gives the amount: the number part of the
/// text of `micro` micro-USDC stands for `micro`.
pub proof fn law_format_then_parse(micro: u64)
    ensures
        usdc_amount(usdc_number(micro)) == Ok::<nat, UsdcError>(micro as nat),
{
    let whole = decimal((micro / 1_000_000) as nat);
    let frac = decimal_padded((micro % 1_000_000) as nat, 6);
    let t = usdc_number(micro);
    lemma_decimal_digits((micro / 1_000_000) as nat);
    lemma_decimal_padded_digits((micro % 1_000_000) as nat, 6, 1_000_000);
    reveal_strlit(".");
    assert(t =~= whole + seq!['.'] + frac);
    assert(t[whole.len() as int] == '.');
    assert forall|j: int| 0 <= j < whole.len() implies t[j] != '.' by {
        assert(t[j] == whole[j]);
        assert(is_digit(whole[j]));
    }
    lemma_first_dot_at(t, whole.len() as int);
    assert(whole[0] != '+') by {
        assert(is_digit(whole[0]));
    }
    assert(t[0] == whole[0]);
    assert(!is_digit(t[whole.len() as int]));
    assert(!parses_u64(t)) by {
        assert(unsigned_digits(t) == t);
    }
    assert(t.take(whole.len() as int) =~= whole);
    assert(t.skip(whole.len() as int + 1) =~= frac);
    assert(unsigned_digits(whole) == whole);
    assert(frac[0] != '+') by {
        assert(is_digit(frac[0]));
    }
    assert(pad6(frac) =~= frac);
    assert(unsigned_digits(frac) == frac);
    assert(all_ascii(frac)) by {
        assert forall|i: int| 0 <= i < frac.len() implies (#[trigger] frac[i] as u32) < 128 by {
            assert(is_digit(frac[i]));
        }
    }
}

/// The estimated fee, in micro-USDC, of deploying a contract of `wasm_size`
/// bytes: 1000, and 1 more for each whole 100 bytes.
pub fn deploy_fee(wasm_size: u64) -> (r: u64)
    ensures
        r == 1000 + wasm_size / 100,
{
    1000 + wasm_size / 100
}

} // verus!
