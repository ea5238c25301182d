//! Catalog prices: from dollars per token to dollars per million tokens, digit by digit.

use vstd::prelude::*;

use crate::text::{chars_of, same_text, split, split_on, string_of};

verus! {

/// Whether a character is an ASCII digit.
pub open spec fn is_digit(c: char) -> bool {
    '0' <= c && c <= '9'
}

/// Whether a string is made of at least one digit and nothing else.
pub open spec fn is_digits(s: Seq<char>) -> bool {
    s.len() > 0 && forall|i: int| 0 <= i < s.len() ==> is_digit(#[trigger] s[i])
}

fn digits_only(chars: &Vec<char>) -> (r: bool)
    ensures
        r == is_digits(chars@),
{
    let mut i: usize = 0;
    while i < chars.len()
        invariant
            i <= chars@.len(),
            forall|k: int| 0 <= k < i ==> is_digit(#[trigger] chars@[k]),
        decreases chars@.len() - i,
    {
        let c = chars[i];
        if !('0' <= c && c <= '9') {
            assert(!is_digit(chars@[i as int]));
            return false;
        }
        i += 1;
    }
    chars.len() > 0
}

/// `s` without its leading zeros.
pub open spec fn strip_leading_zeros(s: Seq<char>) -> Seq<char>
    decreases s.len(),
{
    if s.len() > 0 && s[0] == '0' {
        strip_leading_zeros(s.drop_first())
    } else {
        s
    }
}

/// `s` without its trailing zeros.
pub open spec fn strip_trailing_zeros(s: Seq<char>) -> Seq<char>
    decreases s.len(),
{
    if s.len() > 0 && s.last() == '0' {
        strip_trailing_zeros(s.drop_last())
    } else {
        s
    }
}

/// A run of zeros.
pub open spec fn zeros(n: nat) -> Seq<char> {
    Seq::new(n, |i: int| '0')
}

/// An integer part without leading zeros, `0` where nothing else is left.
pub open spec fn plain_integer(s: Seq<char>) -> Seq<char> {
    if strip_leading_zeros(s).len() == 0 {
        seq!['0']
    } else {
        strip_leading_zeros(s)
    }
}

/// The decimal with these integer and fractional digits, in its shortest form.
pub open spec fn shortest_decimal(integer: Seq<char>, fraction: Seq<char>) -> Seq<char> {
    if strip_trailing_zeros(fraction).len() == 0 {
        plain_integer(integer)
    } else {
        plain_integer(integer).push('.') + strip_trailing_zeros(fraction)
    }
}

/// The decimal with these digits and its point after the first `position` of them; zeros fill the
/// places that the digits do not reach.
pub open spec fn scaled_digits(digits: Seq<char>, position: nat) -> Seq<char> {
    if position >= digits.len() {
        shortest_decimal(digits + zeros((position - digits.len()) as nat), Seq::empty())
    } else {
        shortest_decimal(digits.take(position as int), digits.skip(position as int))
    }
}

/// Whether a price is written as digits, or as digits, a point and digits.
pub open spec fn is_plain_price(price: Seq<char>) -> bool {
    let parts = split_on(price, '.');
    &&& 1 <= parts.len() <= 2
    &&& is_digits(parts[0])
    &&& parts.len() == 2 ==> is_digits(parts[1])
}

/// The digits before the point of a price.
pub open spec fn integer_digits(price: Seq<char>) -> Seq<char> {
    split_on(price, '.')[0]
}

/// The digits after the point of a price.
pub open spec fn fraction_digits(price: Seq<char>) -> Seq<char> {
    if split_on(price, '.').len() == 2 {
        split_on(price, '.')[1]
    } else {
        Seq::empty()
    }
}

/// A price per token as a price per million tokens: the point moves six places. Router models use
/// `-1` when their price depends on the model selected at request time.
pub open spec fn price_per_million(price: Seq<char>) -> Result<Option<Seq<char>>, Seq<char>> {
    if price == "-1"@ {
        Ok(None)
    } else if !is_plain_price(price) {
        Err("the OpenRouter model catalog contains malformed pricing"@)
    } else {
        Ok(
            Some(
                scaled_digits(
                    integer_digits(price) + fraction_digits(price),
                    integer_digits(price).len() + 6,
                ),
            ),
        )
    }
}

/// The decimal with these integer and fractional digits, in its shortest form.
fn write_shortest(integer: &Vec<char>, fraction: &Vec<char>) -> (r: String)
    ensures
        r@ == shortest_decimal(integer@, fraction@),
{
    let mut from: usize = 0;
    assert(integer@.skip(0) =~= integer@);
    while from < integer.len() && integer[from] == '0'
        invariant
            from <= integer@.len(),
            strip_leading_zeros(integer@) == strip_leading_zeros(integer@.skip(from as int)),
        decreases integer@.len() - from,
    {
        assert(integer@.skip(from as int).drop_first() =~= integer@.skip(from + 1));
        from += 1;
    }
    assert(strip_leading_zeros(integer@) == integer@.skip(from as int));
    let mut out: Vec<char> = Vec::new();
    if from == integer.len() {
        out.push('0');
    }
    let mut i: usize = from;
    let ghost start = out@;
    while i < integer.len()
        invariant
            from <= i <= integer@.len(),
            out@ == start + integer@.subrange(from as int, i as int),
        decreases integer@.len() - i,
    {
        out.push(integer[i]);
        i += 1;
    }
    assert(out@ =~= plain_integer(integer@)) by {
        assert(integer@.subrange(from as int, i as int) =~= integer@.skip(from as int));
    }
    let mut to: usize = fraction.len();
    assert(fraction@.take(to as int) =~= fraction@);
    while to > 0 && fraction[to - 1] == '0'
        invariant
            to <= fraction@.len(),
            strip_trailing_zeros(fraction@) == strip_trailing_zeros(fraction@.take(to as int)),
        decreases to,
    {
        assert(fraction@.take(to as int).drop_last() =~= fraction@.take(to - 1));
        to -= 1;
    }
    assert(strip_trailing_zeros(fraction@) == fraction@.take(to as int));
    if to > 0 {
        out.push('.');
        let ghost head = out@;
        let mut k: usize = 0;
        while k < to
            invariant
                k <= to <= fraction@.len(),
                out@ == head + fraction@.take(k as int),
            decreases to - k,
        {
            out.push(fraction[k]);
            k += 1;
            assert(out@ =~= head + fraction@.take(k as int));
        }
    }
    string_of(out.as_slice())
}

/// Scale a per-token price to a million tokens without rounding.
pub fn normalize_price(per_token_price: &str) -> (r: Result<Option<String>, String>)
    ensures
        match price_per_million(per_token_price@) {
            Ok(Some(price)) => r is Ok && r->Ok_0 is Some && (r->Ok_0->0)@ == price,
            Ok(None) => r is Ok && r->Ok_0 is None,
            Err(detail) => r is Err && r->Err_0@ == detail,
        },
{
    if same_text(per_token_price, "-1") {
        return Ok(None);
    }
    let parts = split(per_token_price, '.');
    let malformed = "the OpenRouter model catalog contains malformed pricing".to_owned();
    let ghost views = split_on(per_token_price@, '.');
    if parts.len() > 2 {
        return Err(malformed);
    }
    assert(parts@[0]@ == views[0]);
    let integer = chars_of(parts[0].as_str());
    if !digits_only(&integer) {
        return Err(malformed);
    }
    let mut fraction: Vec<char> = Vec::new();
    if parts.len() == 2 {
        assert(parts@[1]@ == views[1]);
        fraction = chars_of(parts[1].as_str());
        if !digits_only(&fraction) {
            return Err(malformed);
        }
    }
    assert(integer@ == integer_digits(per_token_price@));
    assert(fraction@ =~= fraction_digits(per_token_price@));
    let ghost digits = integer@ + fraction@;
    let ghost position = (integer@.len() + 6) as int;
    let mut whole: Vec<char> = integer;
    let mut rest: Vec<char> = Vec::new();
    let mut k: usize = 0;
    while k < 6
        invariant
            k <= 6,
            whole@ == integer@ + (fraction@ + zeros(6)).take(k as int),
        decreases 6 - k,
    {
        let ghost filled = fraction@ + zeros(6);
        let next = if k < fraction.len() {
            fraction[k]
        } else {
            '0'
        };
        assert(next == filled[k as int]);
        whole.push(next);
        k += 1;
        assert(whole@ =~= integer@ + filled.take(k as int));
    }
    let mut i: usize = 6;
    while i < fraction.len()
        invariant
            6 <= i,
            i <= fraction@.len() || i == 6,
            rest@ == if fraction@.len() > 6 {
                fraction@.subrange(6, i as int)
            } else {
                Seq::empty()
            },
        decreases fraction@.len() - i,
    {
        rest.push(fraction[i]);
        i += 1;
        assert(rest@ =~= fraction@.subrange(6, i as int));
    }
    proof {
        if position >= digits.len() {
            assert(whole@ =~= digits + zeros((position - digits.len()) as nat));
            assert(rest@ =~= Seq::empty());
        } else {
            assert(whole@ =~= digits.take(position));
            assert(rest@ =~= digits.skip(position));
        }
    }
    Ok(Some(write_shortest(&whole, &rest)))
}

// ---------------------------------------------------------------------------
// What the scaling means
// ---------------------------------------------------------------------------

/// The number that a run of digits denotes.
pub open spec fn digits_value(s: Seq<char>) -> nat
    decreases s.len(),
{
    if s.len() == 0 {
        0
    } else {
        (digits_value(s.drop_last()) * 10 + (s.last() as int - '0' as int)) as nat
    }
}

/// Ten to the power `n`.
pub open spec fn power_of_ten(n: nat) -> nat
    decreases n,
{
    if n == 0 {
        1
    } else {
        10 * power_of_ten((n - 1) as nat)
    }
}

/// The digits of a price without its point, as a number: the price times ten to the number of its
/// fractional digits.
pub open spec fn price_numerator(price: Seq<char>) -> nat {
    digits_value(integer_digits(price) + fraction_digits(price))
}

proof fn lemma_digit_value(c: char)
    requires
        is_digit(c),
    ensures
        0 <= c as int - '0' as int <= 9,
{
}

proof fn lemma_value_of_concat(a: Seq<char>, b: Seq<char>)
    requires
        forall|i: int| 0 <= i < b.len() ==> is_digit(#[trigger] b[i]),
    ensures
        digits_value(a + b) == digits_value(a) * power_of_ten(b.len()) + digits_value(b),
    decreases b.len(),
{
    if b.len() == 0 {
        assert(a + b =~= a);
        assert(digits_value(a) * 1 == digits_value(a));
    } else {
        let shorter = b.drop_last();
        assert((a + b).drop_last() =~= a + shorter);
        assert((a + b).last() == b.last());
        assert forall|i: int| 0 <= i < shorter.len() implies is_digit(#[trigger] shorter[i]) by {
            assert(shorter[i] == b[i]);
        }
        lemma_value_of_concat(a, shorter);
        assert(is_digit(b[b.len() - 1]));
        lemma_digit_value(b.last());
        let d = b.last() as int - '0' as int;
        let x = digits_value(a);
        let p = power_of_ten(shorter.len());
        let y = digits_value(shorter);
        assert(power_of_ten(b.len()) == 10 * p);
        assert((x * p + y) * 10 + d == x * (10 * p) + (y * 10 + d)) by (nonlinear_arith);
    }
}

proof fn lemma_value_of_zeros(n: nat)
    ensures
        digits_value(zeros(n)) == 0,
    decreases n,
{
    if n > 0 {
        assert(zeros(n).drop_last() =~= zeros((n - 1) as nat));
        lemma_value_of_zeros((n - 1) as nat);
    }
}

proof fn lemma_leading_zeros(s: Seq<char>)
    requires
        forall|i: int| 0 <= i < s.len() ==> is_digit(#[trigger] s[i]),
    ensures
        digits_value(strip_leading_zeros(s)) == digits_value(s),
        forall|i: int|
            0 <= i < strip_leading_zeros(s).len() ==> is_digit(#[trigger] strip_leading_zeros(s)[i]),
        strip_leading_zeros(s).len() > 0 ==> strip_leading_zeros(s)[0] != '0',
    decreases s.len(),
{
    if s.len() > 0 && s[0] == '0' {
        let rest = s.drop_first();
        assert forall|i: int| 0 <= i < rest.len() implies is_digit(#[trigger] rest[i]) by {
            assert(rest[i] == s[i + 1]);
        }
        lemma_leading_zeros(rest);
        assert(s =~= zeros(1) + rest);
        lemma_value_of_concat(zeros(1), rest);
        lemma_value_of_zeros(1);
        assert(0 * power_of_ten(rest.len()) == 0);
    }
}

proof fn lemma_trailing_zeros(s: Seq<char>)
    requires
        forall|i: int| 0 <= i < s.len() ==> is_digit(#[trigger] s[i]),
    ensures
        strip_trailing_zeros(s).len() <= s.len(),
        s == strip_trailing_zeros(s) + zeros((s.len() - strip_trailing_zeros(s).len()) as nat),
        forall|i: int|
            0 <= i < strip_trailing_zeros(s).len() ==> is_digit(
                #[trigger] strip_trailing_zeros(s)[i],
            ),
        strip_trailing_zeros(s).len() > 0 ==> strip_trailing_zeros(s).last() != '0',
    decreases s.len(),
{
    if s.len() > 0 && s.last() == '0' {
        let rest = s.drop_last();
        assert forall|i: int| 0 <= i < rest.len() implies is_digit(#[trigger] rest[i]) by {
            assert(rest[i] == s[i]);
        }
        lemma_trailing_zeros(rest);
        let kept = strip_trailing_zeros(rest);
        assert(s =~= kept + zeros((s.len() - kept.len()) as nat)) by {
            assert(rest =~= kept + zeros((rest.len() - kept.len()) as nat));
            assert forall|i: int| 0 <= i < s.len() implies s[i] == (kept + zeros(
                (s.len() - kept.len()) as nat,
            ))[i] by {
                if i < rest.len() {
                    assert(s[i] == rest[i]);
                    assert(rest[i] == (kept + zeros((rest.len() - kept.len()) as nat))[i]);
                }
            }
        }
    } else {
        assert(s =~= s + zeros(0));
    }
}

proof fn lemma_split_without_separator(s: Seq<char>, separator: char)
    requires
        forall|i: int| 0 <= i < s.len() ==> #[trigger] s[i] != separator,
    ensures
        split_on(s, separator) == seq![s],
    decreases s.len(),
{
    if s.len() > 0 {
        let shorter = s.drop_last();
        assert forall|i: int| 0 <= i < shorter.len() implies #[trigger] shorter[i]
            != separator by {
            assert(shorter[i] == s[i]);
        }
        lemma_split_without_separator(shorter, separator);
        assert(s.last() == s[s.len() - 1]);
        assert(shorter.push(s.last()) =~= s);
        assert(split_on(s, separator) =~= seq![s]);
    } else {
        assert(s =~= Seq::empty());
    }
}

proof fn lemma_split_at_separator(a: Seq<char>, b: Seq<char>, separator: char)
    requires
        forall|i: int| 0 <= i < a.len() ==> #[trigger] a[i] != separator,
        forall|i: int| 0 <= i < b.len() ==> #[trigger] b[i] != separator,
    ensures
        split_on(a.push(separator) + b, separator) == seq![a, b],
    decreases b.len(),
{
    let whole = a.push(separator) + b;
    if b.len() == 0 {
        assert(whole.drop_last() =~= a);
        lemma_split_without_separator(a, separator);
        assert(b =~= Seq::empty());
        assert(split_on(whole, separator) =~= seq![a, b]);
    } else {
        let shorter = b.drop_last();
        assert forall|i: int| 0 <= i < shorter.len() implies #[trigger] shorter[i]
            != separator by {
            assert(shorter[i] == b[i]);
        }
        lemma_split_at_separator(a, shorter, separator);
        assert(whole.drop_last() =~= a.push(separator) + shorter);
        assert(whole.last() == b[b.len() - 1]);
        assert(shorter.push(b.last()) =~= b);
        assert(split_on(whole, separator) =~= seq![a, b]);
    }
}

/// The shortest decimal reads back as its digits, denotes the same number, and has no needless
/// zeros.
proof fn lemma_shortest_decimal(integer: Seq<char>, fraction: Seq<char>)
    requires
        forall|i: int| 0 <= i < integer.len() ==> is_digit(#[trigger] integer[i]),
        forall|i: int| 0 <= i < fraction.len() ==> is_digit(#[trigger] fraction[i]),
    ensures
        ({
            let r = shortest_decimal(integer, fraction);
            &&& is_plain_price(r)
            &&& integer_digits(r) == plain_integer(integer)
            &&& fraction_digits(r) == strip_trailing_zeros(fraction)
            &&& digits_value(integer + fraction) * power_of_ten(fraction_digits(r).len())
                == price_numerator(r) * power_of_ten(fraction.len())
        }),
{
    let r = shortest_decimal(integer, fraction);
    let i2 = plain_integer(integer);
    let f2 = strip_trailing_zeros(fraction);
    let cut = (fraction.len() - f2.len()) as nat;
    lemma_leading_zeros(integer);
    lemma_trailing_zeros(fraction);
    assert(digits_value(i2) == digits_value(integer)) by {
        if strip_leading_zeros(integer).len() == 0 {
            assert(strip_leading_zeros(integer) =~= Seq::empty());
            assert(i2 =~= zeros(1));
            lemma_value_of_zeros(1);
        }
    }
    assert forall|i: int| 0 <= i < i2.len() implies is_digit(#[trigger] i2[i]) by {}
    assert(is_digits(i2));
    if f2.len() == 0 {
        assert forall|i: int| 0 <= i < i2.len() implies #[trigger] i2[i] != '.' by {
            assert(is_digit(i2[i]));
        }
        lemma_split_without_separator(i2, '.');
        assert(f2 =~= Seq::empty());
    } else {
        assert forall|i: int| 0 <= i < i2.len() implies #[trigger] i2[i] != '.' by {
            assert(is_digit(i2[i]));
        }
        assert forall|i: int| 0 <= i < f2.len() implies #[trigger] f2[i] != '.' by {
            assert(is_digit(f2[i]));
        }
        lemma_split_at_separator(i2, f2, '.');
    }
    assert(integer_digits(r) == i2);
    assert(fraction_digits(r) =~= f2);
    let p = power_of_ten(f2.len());
    let q = power_of_ten(cut);
    let x = digits_value(integer);
    let y = digits_value(f2);
    lemma_value_of_concat(i2, f2);
    lemma_value_of_concat(integer, fraction);
    lemma_value_of_concat(f2, zeros(cut));
    lemma_value_of_zeros(cut);
    assert(digits_value(fraction) == y * q);
    lemma_power_of_sum(f2.len(), cut);
    assert(power_of_ten(fraction.len()) == p * q);
    assert((x * (p * q) + y * q) * p == (x * p + y) * (p * q)) by (nonlinear_arith);
}

proof fn lemma_power_of_sum(a: nat, b: nat)
    ensures
        power_of_ten(a + b) == power_of_ten(a) * power_of_ten(b),
    decreases b,
{
    if b == 0 {
        assert(power_of_ten(a) * 1 == power_of_ten(a));
    } else {
        lemma_power_of_sum(a, (b - 1) as nat);
        let x = power_of_ten(a);
        let y = power_of_ten((b - 1) as nat);
        assert(10 * (x * y) == x * (10 * y)) by (nonlinear_arith);
    }
}

/// Scaling is exact: the scaled price is one million times the price, with nothing rounded. Both
/// sides are multiplied by the powers of ten of both fractions.
pub proof fn lemma_price_is_scaled_exactly(price: Seq<char>)
    requires
        price_per_million(price) matches Ok(Some(_)),
    ensures
        ({
            let scaled = price_per_million(price)->Ok_0->0;
            &&& is_plain_price(scaled)
            &&& price_numerator(scaled) * power_of_ten(fraction_digits(price).len())
                == 1_000_000 * price_numerator(price) * power_of_ten(fraction_digits(scaled).len())
        }),
{
    let scaled = price_per_million(price)->Ok_0->0;
    let integer = integer_digits(price);
    let fraction = fraction_digits(price);
    let digits = integer + fraction;
    let position = (integer.len() + 6) as int;
    let value = digits_value(digits);
    assert forall|i: int| 0 <= i < digits.len() implies is_digit(#[trigger] digits[i]) by {
        if i < integer.len() {
            assert(is_digit(integer[i]));
        } else {
            assert(is_digit(fraction[i - integer.len()]));
        }
    }
    assert(power_of_ten(6) == 1_000_000) by {
        reveal_with_fuel(power_of_ten, 7);
    }
    let f = fraction.len();
    let s = price_numerator(scaled);
    if position >= digits.len() {
        let pad = (position - digits.len()) as nat;
        let whole = digits + zeros(pad);
        lemma_shortest_decimal(whole, Seq::empty());
        assert(whole + Seq::<char>::empty() =~= whole);
        lemma_value_of_concat(digits, zeros(pad));
        lemma_value_of_zeros(pad);
        lemma_power_of_sum(f, pad);
        assert(f + pad == 6);
        let a = power_of_ten(f);
        let b = power_of_ten(pad);
        let t = power_of_ten(fraction_digits(scaled).len());
        assert(power_of_ten(0) == 1);
        assert(value * b * t == s * 1);
        assert(s * a == 1_000_000 * value * t) by (nonlinear_arith)
            requires
                value * b * t == s * 1,
                a * b == 1_000_000,
        ;
    } else {
        let left = digits.take(position);
        let right = digits.skip(position);
        lemma_shortest_decimal(left, right);
        assert(left + right =~= digits);
        lemma_power_of_sum(right.len(), 6);
        assert(right.len() + 6 == f);
        let a = power_of_ten(right.len());
        let t = power_of_ten(fraction_digits(scaled).len());
        assert(value * t == s * a);
        assert(s * (a * 1_000_000) == 1_000_000 * value * t) by (nonlinear_arith)
            requires
                value * t == s * a,
        ;
    }
}

/// A scaled price is written in its shortest form: no leading zero before another digit, and no
/// trailing zero after the point.
pub proof fn lemma_price_is_in_shortest_form(price: Seq<char>)
    requires
        price_per_million(price) matches Ok(Some(_)),
    ensures
        ({
            let scaled = price_per_million(price)->Ok_0->0;
            &&& integer_digits(scaled)[0] == '0' ==> integer_digits(scaled).len() == 1
            &&& fraction_digits(scaled).len() > 0 ==> fraction_digits(scaled).last() != '0'
        }),
{
    let integer = integer_digits(price);
    let fraction = fraction_digits(price);
    let digits = integer + fraction;
    let position = (integer.len() + 6) as int;
    assert forall|i: int| 0 <= i < digits.len() implies is_digit(#[trigger] digits[i]) by {
        if i < integer.len() {
            assert(is_digit(integer[i]));
        } else {
            assert(is_digit(fraction[i - integer.len()]));
        }
    }
    let (left, right) = if position >= digits.len() {
        (digits + zeros((position - digits.len()) as nat), Seq::empty())
    } else {
        (digits.take(position), digits.skip(position))
    };
    lemma_shortest_decimal(left, right);
    lemma_leading_zeros(left);
    lemma_trailing_zeros(right);
}

} // verus!
