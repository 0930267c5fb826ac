//! Decimal renderings of numbers.

use vstd::prelude::*;

verus! {

/// Ten to the power of `k`.
pub open spec fn pow10(k: nat) -> nat
    decreases k,
{
    if k == 0 {
        1
    } else {
        10 * pow10((k - 1) as nat)
    }
}

/// The decimal digit of `n` that counts `10^k`.
pub open spec fn digit_at(n: nat, k: nat) -> nat {
    (n / pow10(k)) % 10
}

/// The character for a decimal digit.
pub open spec fn digit_char(d: nat) -> char {
    (48 + d) as u8 as char
}

/// How many decimal digits `n` has; zero has one.
pub open spec fn decimal_len(n: nat) -> nat
    decreases n,
{
    if n < 10 {
        1
    } else {
        decimal_len(n / 10) + 1
    }
}

/// The last `width` decimal digits of `n`, zero-padded on the left.
pub open spec fn decimal_padded(n: nat, width: nat) -> Seq<char> {
    Seq::new(width, |i: int| digit_char(digit_at(n, (width - 1 - i) as nat)))
}

/// `n` in decimal.
pub open spec fn decimal(n: nat) -> Seq<char> {
    decimal_padded(n, decimal_len(n))
}

/// The last `width` decimal digits of `n`, zero-padded on the left and
/// separated by underscores into groups of three, counted from the right.
pub open spec fn decimal_grouped(n: nat, width: nat) -> Seq<char>
    recommends
        width > 0,
{
    let len = (width + (width - 1) / 3) as nat;
    Seq::new(
        len,
        |i: int|
            {
                let from_right = len - 1 - i;
                if from_right % 4 == 3 {
                    '_'
                } else {
                    digit_char(digit_at(n, (from_right - from_right / 4) as nat))
                }
            },
    )
}

/// How a `u64` is rendered in chunk ids and chunk file names: all twenty
/// digits, grouped.
pub open spec fn padded_u64(n: u64) -> Seq<char> {
    decimal_grouped(n as nat, 20)
}

/// How a `u64` is rendered in statistics: at least nine digits, grouped.
pub open spec fn padded9_u64(n: u64) -> Seq<char> {
    let len = decimal_len(n as nat);
    decimal_grouped(n as nat, if len < 9 { 9 } else { len })
}

/// A power of ten is positive.
pub proof fn lemma_pow10_positive(k: nat)
    ensures
        pow10(k) > 0,
    decreases k,
{
    if k > 0 {
        lemma_pow10_positive((k - 1) as nat);
    }
}

/// Dropping one more digit is one more division by ten.
pub proof fn lemma_div_pow10(n: nat, k: nat)
    ensures
        n / pow10(k + 1) == n / pow10(k) / 10,
{
    lemma_pow10_positive(k);
    vstd::arithmetic::div_mod::lemma_div_denominator(n as int, pow10(k) as int, 10);
    assert(pow10(k + 1) == pow10(k) * 10) by (nonlinear_arith)
        requires
            pow10(k + 1) == 10 * pow10(k),
    ;
}

/// A `u64` has at most twenty digits.
proof fn lemma_decimal_len_u64(n: nat)
    requires
        n <= u64::MAX,
    ensures
        1 <= decimal_len(n) <= 20,
{
    reveal_with_fuel(decimal_len, 21);
}

/// Computes the last `width` digits, least significant first.
fn digits_from_right(n: u64, width: usize) -> (r: Vec<u8>)
    ensures
        r@.len() == width,
        forall|k: int| 0 <= k < width ==> r@[k] < 10 && r@[k] == digit_at(n as nat, k as nat),
{
    let mut r: Vec<u8> = Vec::new();
    let mut rest: u64 = n;
    let mut k: usize = 0;
    assert(n as nat / pow10(0) == n) by (nonlinear_arith)
        requires
            pow10(0) == 1,
    ;
    while k < width
        invariant
            k <= width,
            r@.len() == k,
            rest == n as nat / pow10(k as nat),
            forall|j: int| 0 <= j < k ==> r@[j] < 10 && r@[j] == digit_at(n as nat, j as nat),
        decreases width - k,
    {
        proof {
            lemma_div_pow10(n as nat, k as nat);
        }
        r.push((rest % 10) as u8);
        rest = rest / 10;
        k = k + 1;
    }
    r
}

/// Counts the decimal digits of `n`.
fn count_digits(n: u64) -> (r: usize)
    ensures
        r == decimal_len(n as nat),
        1 <= r <= 20,
{
    proof {
        lemma_decimal_len_u64(n as nat);
    }
    let mut rest: u64 = n;
    let mut r: usize = 1;
    while rest >= 10
        invariant
            1 <= r,
            r + decimal_len(rest as nat) == decimal_len(n as nat) + 1,
            decimal_len(n as nat) <= 20,
            1 <= decimal_len(rest as nat),
        decreases rest,
    {
        proof {
            lemma_decimal_len_u64((rest / 10) as nat);
        }
        rest = rest / 10;
        r = r + 1;
    }
    r
}

/// Renders the last `width` digits of `n`, grouped.
fn format_grouped(n: u64, width: usize) -> (r: String)
    requires
        1 <= width <= 20,
    ensures
        r@ == decimal_grouped(n as nat, width as nat),
{
    let digits = digits_from_right(n, width);
    let len: usize = width + (width - 1) / 3;
    let mut r = String::new();
    let mut i: usize = 0;
    while i < len
        invariant
            1 <= width <= 20,
            i <= len,
            len == width + (width - 1) / 3,
            digits@.len() == width,
            forall|k: int|
                0 <= k < width ==> digits@[k] < 10 && digits@[k] == digit_at(n as nat, k as nat),
            r@ == decimal_grouped(n as nat, width as nat).take(i as int),
        decreases len - i,
    {
        let from_right: usize = len - 1 - i;
        if from_right % 4 == 3 {
            r.push('_');
        } else {
            let d = digits[from_right - from_right / 4];
            r.push((48 + d) as char);
        }
        proof {
            let all = decimal_grouped(n as nat, width as nat);
            assert(all.take(i + 1) =~= all.take(i as int).push(all[i as int]));
        }
        i = i + 1;
    }
    proof {
        let all = decimal_grouped(n as nat, width as nat);
        assert(all.take(len as int) =~= all);
    }
    r
}

/// Renders `n` with all twenty digits, in groups of three.
///
/// Every rendering has the same length, so that renderings sort as the
/// numbers do.
pub fn format_pad_u64(n: u64) -> (r: String)
    ensures
        r@ == padded_u64(n),
{
    format_grouped(n, 20)
}

/// Renders `n` with at least nine digits, in groups of three.
pub fn format_pad9_u64(n: u64) -> (r: String)
    ensures
        r@ == padded9_u64(n),
{
    let len = count_digits(n);
    if len < 9 {
        format_grouped(n, 9)
    } else {
        format_grouped(n, len)
    }
}

/// Renders `n` in plain decimal.
pub fn format_u64(n: u64) -> (r: String)
    ensures
        r@ == decimal(n as nat),
{
    let width = count_digits(n);
    let digits = digits_from_right(n, width);
    let mut r = String::new();
    let mut i: usize = 0;
    while i < width
        invariant
            i <= width,
            width == decimal_len(n as nat),
            digits@.len() == width,
            forall|k: int|
                0 <= k < width ==> digits@[k] < 10 && digits@[k] == digit_at(n as nat, k as nat),
            r@ == decimal(n as nat).take(i as int),
        decreases width - i,
    {
        let d = digits[width - 1 - i];
        r.push((48 + d) as char);
        proof {
            let all = decimal(n as nat);
            assert(all.take(i + 1) =~= all.take(i as int).push(all[i as int]));
        }
        i = i + 1;
    }
    proof {
        let all = decimal(n as nat);
        assert(all.take(width as int) =~= all);
    }
    r
}

/// The number that a text of digits and underscores denotes.
pub open spec fn text_value(text: Seq<char>) -> nat
    decreases text.len(),
{
    if text.len() == 0 {
        0
    } else if text.last() == '_' {
        text_value(text.drop_last())
    } else {
        10 * text_value(text.drop_last()) + (text.last() as nat - '0' as nat) as nat
    }
}

/// The character is a decimal digit.
pub open spec fn is_digit_char(c: char) -> bool {
    '0' <= c <= '9'
}

/// The text is made of digits, with an underscore before every third digit
/// counted from the right, but not in front.
pub open spec fn is_grouped(text: Seq<char>) -> bool {
    &&& forall|i: int|
        0 <= i < text.len() ==> if (text.len() - 1 - i) % 4 == 3 {
            #[trigger] text[i] == '_'
        } else {
            is_digit_char(text[i])
        }
    &&& text.len() > 0 ==> is_digit_char(text[0])
}

/// A number has as many digits as it needs.
proof fn lemma_decimal_len(n: nat)
    ensures
        n < pow10(decimal_len(n)),
        n > 0 ==> pow10((decimal_len(n) - 1) as nat) <= n,
    decreases n,
{
    reveal_with_fuel(pow10, 2);
    if n >= 10 {
        lemma_decimal_len(n / 10);
        let k = (decimal_len(n) - 1) as nat;
        assert(decimal_len(n / 10) == k);
        assert(pow10(k) == 10 * pow10((k - 1) as nat));
    }
}

/// How many of the last `r` characters of a grouped number are digits.
spec fn digits_among_last(r: int) -> nat {
    (r - r / 4) as nat
}

proof fn lemma_grouped_value(n: nat, width: nat, k: int)
    requires
        width > 0,
        n < pow10(width),
        0 <= k <= decimal_grouped(n, width).len(),
    ensures
        text_value(decimal_grouped(n, width).take(k)) == n / pow10(
            digits_among_last(decimal_grouped(n, width).len() - k),
        ),
    decreases k,
{
    let all = decimal_grouped(n, width);
    let len = all.len() as int;
    if k == 0 {
        assert(digits_among_last(len) == width);
        assert(n / pow10(width) == 0) by (nonlinear_arith)
            requires
                n < pow10(width),
        ;
    } else {
        lemma_grouped_value(n, width, k - 1);
        assert(all.take(k).drop_last() =~= all.take(k - 1));
        assert(all.take(k).last() == all[k - 1]);
        let from_right = len - k;
        if from_right % 4 == 3 {
            assert(digits_among_last(from_right + 1) == digits_among_last(from_right));
        } else {
            let e = digits_among_last(from_right);
            assert(all[k - 1] == digit_char(digit_at(n, e)));
            assert(digits_among_last(from_right + 1) == e + 1);
            lemma_div_pow10(n, e);
        }
    }
}

proof fn lemma_padded_value(n: nat, width: nat, k: int)
    requires
        n < pow10(width),
        0 <= k <= width,
    ensures
        text_value(decimal_padded(n, width).take(k)) == n / pow10((width - k) as nat),
    decreases k,
{
    let all = decimal_padded(n, width);
    if k == 0 {
        assert(n / pow10(width) == 0) by (nonlinear_arith)
            requires
                n < pow10(width),
        ;
    } else {
        lemma_padded_value(n, width, k - 1);
        assert(all.take(k).drop_last() =~= all.take(k - 1));
        assert(all.take(k).last() == all[k - 1]);
        let e = (width - k) as nat;
        assert(all[k - 1] == digit_char(digit_at(n, e)));
        lemma_div_pow10(n, e);
    }
}

/// The first digit of a number that is written with no more digits than it
/// needs is not zero.
proof fn lemma_first_digit(n: nat)
    requires
        n > 0,
    ensures
        digit_at(n, (decimal_len(n) - 1) as nat) > 0,
{
    lemma_decimal_len(n);
    let low = pow10((decimal_len(n) - 1) as nat);
    reveal_with_fuel(pow10, 2);
    lemma_pow10_positive((decimal_len(n) - 1) as nat);
    assert(1 <= n / low < 10) by (nonlinear_arith)
        requires
            0 < low <= n,
            n < 10 * low,
    ;
}

proof fn lemma_divided_by_one(n: nat)
    ensures
        n / pow10(0) == n,
{
    assert(n / pow10(0) == n) by (nonlinear_arith)
        requires
            pow10(0) == 1,
    ;
}

/// The padded rendering of a number denotes the number, in twenty digits that
/// are grouped by three.
pub proof fn law_padded_text_denotes_the_number(n: u64)
    ensures
        text_value(padded_u64(n)) == n,
        padded_u64(n).len() == 26,
        is_grouped(padded_u64(n)),
{
    let all = padded_u64(n);
    assert(n < pow10(20)) by {
        reveal_with_fuel(pow10, 21);
    }
    lemma_grouped_value(n as nat, 20, 26);
    assert(all.take(26) =~= all);
    lemma_divided_by_one(n as nat);
}

/// The rendering of a number in statistics denotes the number, in digits that
/// are grouped by three: nine, or as many more as it needs.
pub proof fn law_padded9_text_denotes_the_number(n: u64)
    ensures
        text_value(padded9_u64(n)) == n,
        padded9_u64(n).len() >= 11,
        is_grouped(padded9_u64(n)),
        padded9_u64(n).len() > 11 ==> padded9_u64(n)[0] != '0',
{
    let all = padded9_u64(n);
    let len = decimal_len(n as nat);
    let width = if len < 9 {
        9
    } else {
        len
    };
    lemma_decimal_len_u64(n as nat);
    lemma_decimal_len(n as nat);
    assert(n < pow10(width)) by {
        if len < 9 {
            lemma_pow10_grows(len, 9);
        }
    }
    lemma_grouped_value(n as nat, width, all.len() as int);
    assert(all.take(all.len() as int) =~= all);
    lemma_divided_by_one(n as nat);
    if all.len() > 11 {
        lemma_first_digit(n as nat);
        let from_right = all.len() - 1;
        assert(from_right - from_right / 4 == width - 1);
    }
}

proof fn lemma_pow10_grows(a: nat, b: nat)
    requires
        a <= b,
    ensures
        pow10(a) <= pow10(b),
    decreases b,
{
    if a < b {
        lemma_pow10_grows(a, (b - 1) as nat);
    }
}

/// A number in plain decimal denotes the number, in digits alone, and does not
/// begin with a zero unless it is zero.
pub proof fn law_decimal_text_denotes_the_number(n: nat)
    ensures
        text_value(decimal(n)) == n,
        decimal(n).len() > 0,
        forall|i: int| 0 <= i < decimal(n).len() ==> is_digit_char(#[trigger] decimal(n)[i]),
        decimal(n)[0] == '0' ==> n == 0 && decimal(n).len() == 1,
{
    let all = decimal(n);
    lemma_decimal_len(n);
    lemma_padded_value(n, decimal_len(n), all.len() as int);
    assert(all.take(all.len() as int) =~= all);
    lemma_divided_by_one(n);
    if n > 0 {
        lemma_first_digit(n);
    }
}

/// The text is `n` in plain decimal: digits alone that denote it, with no
/// needless zero in front.
pub open spec fn shows(text: Seq<char>, n: nat) -> bool {
    &&& text.len() > 0
    &&& text_value(text) == n
    &&& forall|i: int| 0 <= i < text.len() ==> is_digit_char(#[trigger] text[i])
    &&& text[0] == '0' ==> text.len() == 1
}

/// The text is `n` in digits that are grouped by three: nine, or as many more
/// as it needs.
pub open spec fn shows_grouped(text: Seq<char>, n: nat) -> bool {
    &&& text_value(text) == n
    &&& text.len() >= 11
    &&& is_grouped(text)
    &&& text.len() > 11 ==> text[0] != '0'
}

} // verus!
