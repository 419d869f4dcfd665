//! Similarity: how sure the service is that a result matches the query image.
//!
//! The service reports a similarity as a percentage in decimal notation, such
//! as `92.31`. Here a similarity is an exact number of hundredths of a
//! percent, so `92.31` is held as 9231. A threshold is a similarity too, and a
//! result passes a threshold when its similarity is at least the threshold.
//!
//! A similarity is read from any text that denotes a finite decimal number:
//! an optional sign, digits with at most one decimal point among them, and an
//! optional exponent of ten, as in `9.231e1`. What lies below a hundredth of
//! a percent is rounded down, and what lies beyond a million percent is held
//! as a million percent.

use vstd::prelude::*;
use crate::text::{
    all_digits, at_most, chars_of, digit_of, digits_value, first_index, is_digit,
    lemma_first_index, lemma_first_index_at_least, lemma_first_index_holds, scan_digits,
};

verus! {

/// The hundredths of the lowest valid threshold, 0 percent.
pub const MIN_PERCENT_HUNDREDTHS: i64 = 0;

/// The hundredths of the highest valid threshold, 100 percent.
pub const MAX_PERCENT_HUNDREDTHS: i64 = 10_000;

/// The greatest number of hundredths that a similarity read from text holds:
/// a million percent.
pub const HUNDREDTHS_CAP: i64 = 100_000_000;

/// A percentage with a resolution of one hundredth of a percent.
#[derive(Clone, Copy, Debug, PartialEq, Eq, Structural)]
pub struct Similarity {
    hundredths: i64,
}

impl View for Similarity {
    type V = int;

    /// The number of hundredths of a percent.
    closed spec fn view(&self) -> int {
        self.hundredths as int
    }
}

/// Whether a number in decimal notation begins with a sign.
pub open spec fn has_sign(s: Seq<char>) -> bool {
    s.len() > 0 && (s[0] == '+' || s[0] == '-')
}

/// Whether a number in decimal notation begins with a minus sign.
pub open spec fn is_negative(s: Seq<char>) -> bool {
    s.len() > 0 && s[0] == '-'
}

/// A number in decimal notation without its sign.
pub open spec fn unsigned_part(s: Seq<char>) -> Seq<char> {
    if has_sign(s) {
        s.skip(1)
    } else {
        s
    }
}

/// The position of the first `e` or `E` of `body`, which begins the
/// exponent, or the length of `body` if it has none.
pub open spec fn exponent_index(body: Seq<char>) -> int {
    if first_index(body, 'e') <= first_index(body, 'E') {
        first_index(body, 'e')
    } else {
        first_index(body, 'E')
    }
}

/// The unsigned number `body` without its exponent.
pub open spec fn mantissa_part(body: Seq<char>) -> Seq<char> {
    body.take(exponent_index(body))
}

/// The exponent of the unsigned number `body`, if it has one: what follows
/// the first `e` or `E`.
pub open spec fn exponent_part(body: Seq<char>) -> Option<Seq<char>> {
    if exponent_index(body) < body.len() {
        Some(body.skip(exponent_index(body) + 1))
    } else {
        None
    }
}

/// The digits before the decimal point of the mantissa `m`.
pub open spec fn whole_part(m: Seq<char>) -> Seq<char> {
    m.take(first_index(m, '.'))
}

/// The digits after the decimal point of the mantissa `m`.
pub open spec fn fraction_part(m: Seq<char>) -> Seq<char> {
    if first_index(m, '.') < m.len() {
        m.skip(first_index(m, '.') + 1)
    } else {
        Seq::empty()
    }
}

/// Whether `m` is a mantissa: digits with at most one decimal point among
/// them, and at least one digit.
pub open spec fn is_mantissa(m: Seq<char>) -> bool {
    &&& all_digits(whole_part(m))
    &&& all_digits(fraction_part(m))
    &&& whole_part(m).len() + fraction_part(m).len() > 0
}

/// Whether `t` is an exponent: an optional sign and at least one digit.
pub open spec fn is_exponent(t: Seq<char>) -> bool {
    unsigned_part(t).len() > 0 && all_digits(unsigned_part(t))
}

/// The number that the exponent `t` denotes.
pub open spec fn exponent_value(t: Seq<char>) -> int {
    if is_negative(t) {
        -(digits_value(unsigned_part(t)) as int)
    } else {
        digits_value(unsigned_part(t)) as int
    }
}

/// The exponent of ten of the unsigned number `body`; 0 if it has none.
pub open spec fn exponent_of(body: Seq<char>) -> int {
    match exponent_part(body) {
        Some(t) => exponent_value(t),
        None => 0,
    }
}

/// Whether `s` denotes a finite decimal number: an optional sign, a
/// mantissa, and an optional exponent. This is what `str::parse::<f64>`
/// accepts, without the names of the infinities and of what is no number.
pub open spec fn is_decimal(s: Seq<char>) -> bool {
    let body = unsigned_part(s);
    &&& is_mantissa(mantissa_part(body))
    &&& (exponent_part(body) matches Some(t) ==> is_exponent(t))
}

/// Ten to the power of `n`.
pub open spec fn pow10(n: nat) -> nat
    decreases n,
{
    if n == 0 {
        1
    } else {
        10 * pow10((n - 1) as nat)
    }
}

/// The whole number that the first `place` digits of `digits` denote, where
/// digits that are missing at the end count as zeros; 0 if `place` is not
/// positive.
pub open spec fn leading_value(digits: Seq<char>, place: int) -> nat {
    if place <= 0 {
        0
    } else if place <= digits.len() {
        digits_value(digits.take(place))
    } else {
        digits_value(digits) * pow10((place - digits.len()) as nat)
    }
}

/// Whether `digits` has a digit other than 0 at a position from `low` on and
/// before `high`.
pub open spec fn has_digits_between(digits: Seq<char>, low: int, high: int) -> bool {
    exists|i: int| low <= i < high && 0 <= i < digits.len() && digits[i] != '0'
}

/// The number of hundredths in the decimal number `s`, rounded down to a
/// whole number of hundredths. With the digits of the mantissa written in a
/// row, the hundredths end two places after the decimal point, which the
/// exponent moves to the right.
pub open spec fn hundredths_of(s: Seq<char>) -> int
    recommends
        is_decimal(s),
{
    let body = unsigned_part(s);
    let mantissa = mantissa_part(body);
    let digits = whole_part(mantissa) + fraction_part(mantissa);
    let place = whole_part(mantissa).len() + exponent_of(body) + 2;
    let magnitude = leading_value(digits, place);
    if !is_negative(s) {
        magnitude as int
    } else if has_digits_between(digits, place, digits.len() as int) {
        -magnitude - 1
    } else {
        -magnitude
    }
}

/// `value`, held within the bounds of what a similarity read from text holds.
pub open spec fn capped(value: int) -> int {
    if value > HUNDREDTHS_CAP {
        HUNDREDTHS_CAP as int
    } else if value < -HUNDREDTHS_CAP {
        -HUNDREDTHS_CAP
    } else {
        value
    }
}

/// The similarity that the text `s` denotes, in hundredths of a percent, if
/// it denotes one.
pub open spec fn parse_spec(s: Seq<char>) -> Option<int> {
    if is_decimal(s) {
        Some(capped(hundredths_of(s)))
    } else {
        None
    }
}

/// A similarity that is read from text lies within the bounds of what such a
/// similarity holds.
pub proof fn lemma_parsed_is_capped(s: Seq<char>)
    requires
        parse_spec(s) is Some,
    ensures
        -HUNDREDTHS_CAP <= parse_spec(s)->Some_0 <= HUNDREDTHS_CAP,
{
}

/// The exponent beyond which every number is held at a bound, whatever its
/// digits: two to the power of 100.
const EXPONENT_CAP: u128 = 0x10_0000_0000_0000_0000_0000_0000;

/// Where the parts of a decimal number stand in its text.
struct Shape {
    /// Whether the number begins with a minus sign.
    negative: bool,
    /// Where the mantissa begins.
    start: usize,
    /// Where the digits before the decimal point end.
    point: usize,
    /// Whether a decimal point stands there.
    has_point: bool,
    /// Where the mantissa ends.
    end: usize,
    /// Whether the exponent begins with a minus sign.
    exponent_negative: bool,
    /// The exponent without its sign, held at `EXPONENT_CAP`.
    exponent: u128,
}

/// The exponent without its sign.
spec fn exponent_size(body: Seq<char>) -> int {
    if exponent_of(body) < 0 {
        -exponent_of(body)
    } else {
        exponent_of(body)
    }
}

/// Whether `shape` says where the parts of the decimal number `s` stand.
spec fn describes(shape: Shape, s: Seq<char>) -> bool {
    let body = unsigned_part(s);
    let mantissa = mantissa_part(body);
    &&& shape.start <= shape.point <= shape.end <= s.len()
    &&& shape.has_point ==> shape.point < shape.end
    &&& !shape.has_point ==> shape.point == shape.end
    &&& forall|j: int| shape.start <= j < shape.point ==> is_digit(#[trigger] s[j])
    &&& forall|j: int| shape.point < j < shape.end ==> is_digit(#[trigger] s[j])
    &&& shape.negative == is_negative(s)
    &&& whole_part(mantissa) == s.subrange(shape.start as int, shape.point as int)
    &&& fraction_part(mantissa) == (if shape.has_point {
        s.subrange(shape.point + 1, shape.end as int)
    } else {
        Seq::empty()
    })
    &&& shape.exponent == at_most(exponent_size(body), EXPONENT_CAP as int)
    &&& shape.exponent_negative ==> exponent_of(body) <= 0
    &&& !shape.exponent_negative ==> exponent_of(body) >= 0
}

/// Where the exponent of a number begins, given that neither `e` nor `E`
/// stands before position `e`.
proof fn lemma_exponent_index(body: Seq<char>, e: int)
    requires
        0 <= e <= body.len(),
        forall|j: int| 0 <= j < e ==> body[j] != 'e' && body[j] != 'E',
    ensures
        e <= exponent_index(body) <= body.len(),
        e < body.len() && (body[e] == 'e' || body[e] == 'E') ==> exponent_index(body) == e,
        e < body.len() && body[e] != 'e' && body[e] != 'E' ==> exponent_index(body) > e,
{
    lemma_first_index_at_least(body, 'e', e);
    lemma_first_index_at_least(body, 'E', e);
    lemma_first_index_holds(body, 'e');
    lemma_first_index_holds(body, 'E');
    if e < body.len() {
        if body[e] == 'e' {
            lemma_first_index(body, 'e', e);
        } else if body[e] == 'E' {
            lemma_first_index(body, 'E', e);
        }
    }
}

/// The parts of a mantissa whose first `p` characters are digits and in
/// which a decimal point follows them.
proof fn lemma_mantissa_with_point(m: Seq<char>, p: int)
    requires
        0 <= p < m.len(),
        forall|j: int| 0 <= j < p ==> is_digit(#[trigger] m[j]),
        m[p] == '.',
    ensures
        whole_part(m) == m.take(p),
        fraction_part(m) == m.skip(p + 1),
{
    assert forall|j: int| 0 <= j < p implies m[j] != '.' by {
        assert(is_digit(m[j]));
    }
    lemma_first_index(m, '.', p);
}

/// The parts of a mantissa that is made of digits alone.
proof fn lemma_mantissa_without_point(m: Seq<char>)
    requires
        forall|j: int| 0 <= j < m.len() ==> is_digit(#[trigger] m[j]),
    ensures
        whole_part(m) == m,
        fraction_part(m) == Seq::<char>::empty(),
{
    assert forall|j: int| 0 <= j < m.len() implies m[j] != '.' by {
        assert(is_digit(m[j]));
    }
    lemma_first_index(m, '.', m.len() as int);
    assert(m.take(m.len() as int) =~= m);
}

/// A text in which a character that is neither a digit nor a decimal point
/// follows `p` digits is no mantissa.
proof fn lemma_mantissa_ends_early(m: Seq<char>, p: int)
    requires
        0 <= p < m.len(),
        forall|j: int| 0 <= j < p ==> is_digit(#[trigger] m[j]),
        !is_digit(m[p]),
        m[p] != '.',
    ensures
        !is_mantissa(m),
{
    assert forall|j: int| 0 <= j < p + 1 implies m[j] != '.' by {
        if j < p {
            assert(is_digit(m[j]));
        }
    }
    lemma_first_index_at_least(m, '.', p + 1);
    assert(whole_part(m)[p] == m[p]);
}

/// A text in which something other than digits follows the decimal point is
/// no mantissa.
proof fn lemma_fraction_ends_early(m: Seq<char>, p: int, e: int)
    requires
        0 <= p < e < m.len(),
        forall|j: int| 0 <= j < p ==> is_digit(#[trigger] m[j]),
        m[p] == '.',
        !is_digit(m[e]),
    ensures
        !is_mantissa(m),
{
    lemma_mantissa_with_point(m, p);
    assert(fraction_part(m)[e - p - 1] == m[e]);
}

/// Whether the mantissa of `s` stands from `start` to `end`, with its
/// digits before the decimal point up to `point`: digits stand from `start`
/// to `point`, a decimal point stands at `point` if `has_point` says so, and
/// then digits stand up to `end`, where no digit stands.
spec fn stands(s: Seq<char>, start: int, point: int, has_point: bool, end: int) -> bool {
    &&& start == (if has_sign(s) {
        1int
    } else {
        0int
    })
    &&& start <= point <= end <= s.len()
    &&& forall|j: int| start <= j < point ==> is_digit(#[trigger] s[j])
    &&& has_point == (point < s.len() && s[point] == '.')
    &&& has_point ==> point < end
    &&& !has_point ==> point == end
    &&& forall|j: int| point < j < end ==> is_digit(#[trigger] s[j])
    &&& end < s.len() ==> !is_digit(s[end])
}

/// A text whose mantissa is followed by something other than an exponent is
/// no decimal number.
proof fn lemma_mantissa_broken(s: Seq<char>, start: int, point: int, has_point: bool, end: int)
    requires
        stands(s, start, point, has_point, end),
        end < s.len(),
        s[end] != 'e',
        s[end] != 'E',
    ensures
        !is_decimal(s),
{
    let body = unsigned_part(s);
    let mantissa = mantissa_part(body);
    let p = point - start;
    let e = end - start;
    assert(body =~= s.subrange(start, s.len() as int));
    assert forall|j: int| 0 <= j < e implies body[j] != 'e' && body[j] != 'E' by {
        if j != p {
            assert(is_digit(s[j + start]));
        }
    }
    lemma_exponent_index(body, e);
    assert forall|j: int| 0 <= j < p implies is_digit(#[trigger] mantissa[j]) by {
        assert(is_digit(s[j + start]));
    }
    if has_point {
        lemma_fraction_ends_early(mantissa, p, e);
    } else {
        lemma_mantissa_ends_early(mantissa, p);
    }
}

/// The parts of a text whose mantissa is followed by an exponent or by
/// nothing.
proof fn lemma_mantissa_found(s: Seq<char>, start: int, point: int, has_point: bool, end: int)
    requires
        stands(s, start, point, has_point, end),
        end < s.len() ==> s[end] == 'e' || s[end] == 'E',
    ensures
        whole_part(mantissa_part(unsigned_part(s))) == s.subrange(start, point),
        fraction_part(mantissa_part(unsigned_part(s))) == (if has_point {
            s.subrange(point + 1, end)
        } else {
            Seq::empty()
        }),
        all_digits(s.subrange(start, point)),
        has_point ==> all_digits(s.subrange(point + 1, end)),
        exponent_part(unsigned_part(s)) == (if end < s.len() {
            Some(s.subrange(end + 1, s.len() as int))
        } else {
            None
        }),
{
    let body = unsigned_part(s);
    let mantissa = mantissa_part(body);
    let p = point - start;
    let e = end - start;
    assert(body =~= s.subrange(start, s.len() as int));
    assert forall|j: int| 0 <= j < e implies body[j] != 'e' && body[j] != 'E' by {
        if j != p {
            assert(is_digit(s[j + start]));
        }
    }
    lemma_exponent_index(body, e);
    assert(mantissa =~= s.subrange(start, end));
    assert forall|j: int| 0 <= j < p implies is_digit(#[trigger] mantissa[j]) by {
        assert(is_digit(s[j + start]));
    }
    if has_point {
        lemma_mantissa_with_point(mantissa, p);
        assert(mantissa.take(p) =~= s.subrange(start, point));
        assert(mantissa.skip(p + 1) =~= s.subrange(point + 1, end));
        assert forall|i: int| 0 <= i < end - point - 1 implies is_digit(
            #[trigger] s.subrange(point + 1, end)[i],
        ) by {
            assert(is_digit(s[point + 1 + i]));
        }
    } else {
        lemma_mantissa_without_point(mantissa);
    }
    assert forall|i: int| 0 <= i < p implies is_digit(#[trigger] s.subrange(start, point)[i]) by {
        assert(is_digit(s[start + i]));
    }
    if end < s.len() {
        assert(body.skip(e + 1) =~= s.subrange(end + 1, s.len() as int));
    }
}

/// Finds where the mantissa of a number ends: reads digits, then a decimal
/// point if there is one, and then digits again.
fn read_mantissa(chars: &Vec<char>) -> (r: (usize, usize, bool, usize))
    ensures
        stands(chars@, r.0 as int, r.1 as int, r.2, r.3 as int),
{
    let len = chars.len();
    let start: usize = if len > 0 && (chars[0] == '+' || chars[0] == '-') {
        1
    } else {
        0
    };
    let (point, _) = scan_digits(chars, start, len, 0);
    let has_point: bool = point < len && chars[point] == '.';
    let end: usize = if has_point {
        scan_digits(chars, point + 1, len, 0).0
    } else {
        point
    };
    (start, point, has_point, end)
}

/// Finds the parts of a decimal number in its text. Returns `None` if the
/// text is no decimal number.
fn read_shape(chars: &Vec<char>) -> (r: Option<Shape>)
    ensures
        match r {
            Some(shape) => is_decimal(chars@) && describes(shape, chars@),
            None => !is_decimal(chars@),
        },
{
    let len = chars.len();
    let negative: bool = len > 0 && chars[0] == '-';
    let (start, point, has_point, end) = read_mantissa(chars);
    if end < len && chars[end] != 'e' && chars[end] != 'E' {
        proof {
            lemma_mantissa_broken(chars@, start as int, point as int, has_point, end as int);
        }
        return None;
    }
    proof {
        lemma_mantissa_found(chars@, start as int, point as int, has_point, end as int);
    }
    if point == start && (!has_point || end == point + 1) {
        return None;
    }
    if end == len {
        return Some(
            Shape {
                negative,
                start,
                point,
                has_point,
                end,
                exponent_negative: false,
                exponent: 0,
            },
        );
    }
    match read_exponent(chars, end + 1) {
        Some((exponent_negative, exponent)) => Some(
            Shape { negative, start, point, has_point, end, exponent_negative, exponent },
        ),
        None => None,
    }
}

/// Reads the exponent that stands in `chars` from position `from` on.
/// Returns whether it begins with a minus sign, and its size, held at
/// `EXPONENT_CAP`. Returns `None` if what stands there is no exponent.
fn read_exponent(chars: &Vec<char>, from: usize) -> (r: Option<(bool, u128)>)
    requires
        from <= chars.len(),
    ensures
        match r {
            Some((negative, size)) => {
                let text = chars@.subrange(from as int, chars@.len() as int);
                &&& is_exponent(text)
                &&& negative == is_negative(text)
                &&& size == at_most(
                    digits_value(unsigned_part(text)) as int,
                    EXPONENT_CAP as int,
                )
            },
            None => !is_exponent(chars@.subrange(from as int, chars@.len() as int)),
        },
{
    let len = chars.len();
    let negative: bool = from < len && chars[from] == '-';
    let start: usize = if from < len && (chars[from] == '+' || chars[from] == '-') {
        from + 1
    } else {
        from
    };
    let (stop, size) = scan_digits(chars, start, len, EXPONENT_CAP);
    proof {
        let text = chars@.subrange(from as int, len as int);
        let digits = unsigned_part(text);
        assert(digits =~= chars@.subrange(start as int, len as int));
        if stop < len {
            assert(!is_digit(digits[stop - start]));
        } else {
            assert forall|i: int| 0 <= i < digits.len() implies is_digit(#[trigger] digits[i]) by {
                assert(digits[i] == chars@[i + start]);
            }
        }
    }
    if stop < len || stop == start {
        None
    } else {
        Some((negative, size))
    }
}

/// Ten to any power is at least 1.
proof fn lemma_pow10_positive(n: nat)
    ensures
        pow10(n) >= 1,
    decreases n,
{
    if n > 0 {
        lemma_pow10_positive((n - 1) as nat);
    }
}

/// A greater power of ten is a greater number.
proof fn lemma_pow10_grows(a: nat, b: nat)
    requires
        a <= b,
    ensures
        pow10(a) <= pow10(b),
    decreases b,
{
    if a < b {
        lemma_pow10_grows(a, (b - 1) as nat);
    }
}

/// A number other than 0 that is moved eight places or more to the left
/// reaches the bound; 0 stays 0.
proof fn lemma_moved_far(value: nat, shift: nat)
    requires
        shift >= 8,
    ensures
        at_most((value * pow10(shift)) as int, HUNDREDTHS_CAP as int) == (if value == 0 {
            0
        } else {
            HUNDREDTHS_CAP as int
        }),
{
    lemma_pow10_grows(8, shift);
    assert(pow10(8) == 100_000_000) by {
        reveal_with_fuel(pow10, 9);
    }
    let power = pow10(shift);
    if value > 0 {
        assert(value * power >= 100_000_000) by (nonlinear_arith)
            requires
                value >= 1,
                power >= 100_000_000,
        ;
    } else {
        assert(value * power == 0) by (nonlinear_arith)
            requires
                value == 0,
        ;
    }
}

/// Takes in the digits of `chars` from position `from` up to position `to`,
/// which are the digits of `digits` from position `offset` on. Of the first
/// `take` digits of `digits` it keeps the value, held at the bound; of the
/// others it keeps whether one of them is not 0.
fn fold_digits(
    chars: &Vec<char>,
    from: usize,
    to: usize,
    Ghost(digits): Ghost<Seq<char>>,
    offset: usize,
    take: usize,
    value: u64,
    finer: bool,
) -> (r: (u64, bool))
    requires
        from <= to <= chars.len(),
        offset + (to - from) <= digits.len() <= usize::MAX,
        forall|k: int| from <= k < to ==> digits[offset + (k - from)] == #[trigger] chars@[k],
        forall|k: int| from <= k < to ==> is_digit(#[trigger] chars@[k]),
        value == at_most(
            digits_value(digits.take(at_most(offset as int, take as int))) as int,
            HUNDREDTHS_CAP as int,
        ),
        finer == has_digits_between(digits, take as int, offset as int),
    ensures
        r.0 == at_most(
            digits_value(digits.take(at_most(offset + (to - from), take as int))) as int,
            HUNDREDTHS_CAP as int,
        ),
        r.1 == has_digits_between(digits, take as int, offset + (to - from)),
{
    let mut i: usize = from;
    let mut value: u64 = value;
    let mut finer: bool = finer;
    while i < to
        invariant
            from <= i <= to <= chars.len(),
            offset + (to - from) <= digits.len() <= usize::MAX,
            forall|k: int| from <= k < to ==> digits[offset + (k - from)] == #[trigger] chars@[k],
            forall|k: int| from <= k < to ==> is_digit(#[trigger] chars@[k]),
            value == at_most(
                digits_value(digits.take(at_most(offset + (i - from), take as int))) as int,
                HUNDREDTHS_CAP as int,
            ),
            finer == has_digits_between(digits, take as int, offset + (i - from)),
        decreases to - i,
    {
        let ghost j = offset + (i - from);
        assert(digits[j] == chars@[i as int]);
        assert(is_digit(chars@[i as int]));
        let d: u64 = match digit_of(chars[i]) {
            Some(d) => d,
            None => 0,
        };
        proof {
            if has_digits_between(digits, take as int, j) {
                let w = choose|w: int| take <= w < j && 0 <= w < digits.len() && digits[w] != '0';
                assert(take <= w < j + 1 && 0 <= w < digits.len() && digits[w] != '0');
            }
            if j >= take && digits[j] != '0' {
                assert(take <= j < j + 1 && 0 <= j < digits.len() && digits[j] != '0');
            }
        }
        if offset + (i - from) < take {
            proof {
                assert(digits.take(j + 1).drop_last() =~= digits.take(j));
            }
            value = if value * 10 + d > 100_000_000 {
                100_000_000
            } else {
                value * 10 + d
            };
        } else if d != 0 {
            finer = true;
        }
        i = i + 1;
    }
    (value, finer)
}

/// Moves `value` by `shift` places to the left, and holds it at the bound.
fn scale(value: u64, shift: u128) -> (r: u64)
    requires
        value <= HUNDREDTHS_CAP,
    ensures
        r == at_most((value * pow10(shift as nat)) as int, HUNDREDTHS_CAP as int),
{
    let mut scaled: u64 = value;
    let mut left: u128 = shift;
    assert(value * pow10(0) == value) by (nonlinear_arith)
        requires
            pow10(0) == 1,
    ;
    while left > 0 && scaled > 0 && scaled < 100_000_000
        invariant
            left <= shift,
            scaled <= HUNDREDTHS_CAP,
            scaled == at_most((value * pow10((shift - left) as nat)) as int, HUNDREDTHS_CAP as int),
        decreases left,
    {
        proof {
            let done = (shift - left) as nat;
            let power = pow10(done);
            assert(pow10(done + 1) == 10 * power);
            assert(value * (10 * power) == 10 * (value * power)) by (nonlinear_arith);
        }
        scaled = if scaled * 10 > 100_000_000 {
            100_000_000
        } else {
            scaled * 10
        };
        left = left - 1;
    }
    proof {
        let done = (shift - left) as nat;
        let power = pow10(done);
        let whole = pow10(shift as nat);
        lemma_pow10_positive(done);
        lemma_pow10_grows(done, shift as nat);
        if left > 0 {
            if scaled == 0 {
                assert(value == 0) by (nonlinear_arith)
                    requires
                        value * power == 0,
                        power >= 1,
                ;
                assert(value * whole == 0) by (nonlinear_arith)
                    requires
                        value == 0,
                ;
            } else {
                assert(value * whole >= value * power) by (nonlinear_arith)
                    requires
                        whole >= power,
                ;
            }
        }
    }
    scaled
}

impl Similarity {
    /// The similarity of `hundredths` hundredths of a percent.
    pub fn from_hundredths(hundredths: i64) -> (r: Similarity)
        ensures
            r@ == hundredths,
    {
        Similarity { hundredths }
    }

    /// The similarity of a whole number of percent.
    pub fn from_percent(percent: i32) -> (r: Similarity)
        ensures
            r@ == percent * 100,
    {
        Similarity { hundredths: (percent as i64) * 100 }
    }

    /// The number of hundredths of a percent.
    pub fn hundredths(&self) -> (r: i64)
        ensures
            r == self@,
    {
        self.hundredths
    }

    /// Whether this similarity lies between 0 and 100 percent, both included,
    /// which is what a threshold must do.
    pub open spec fn in_range(&self) -> bool {
        MIN_PERCENT_HUNDREDTHS <= self@ <= MAX_PERCENT_HUNDREDTHS
    }

    /// Whether this similarity lies between 0 and 100 percent, both included.
    pub fn is_in_range(&self) -> (r: bool)
        ensures
            r == self.in_range(),
    {
        MIN_PERCENT_HUNDREDTHS <= self.hundredths && self.hundredths <= MAX_PERCENT_HUNDREDTHS
    }

    /// Whether this similarity passes the threshold `threshold`.
    pub fn at_least(&self, threshold: &Similarity) -> (r: bool)
        ensures
            r == (self@ >= threshold@),
    {
        self.hundredths >= threshold.hundredths
    }

    /// Reads a similarity from a decimal number: an optional sign, digits
    /// with at most one decimal point among them, and an optional exponent.
    /// Digits below a hundredth of a percent round the value down. A value
    /// beyond a million percent is held as a million percent. Returns `None`
    /// for any other text.
    pub fn parse(s: &str) -> (r: Option<Similarity>)
        ensures
            match r {
                Some(similarity) => parse_spec(s@) == Some(similarity@),
                None => parse_spec(s@) is None,
            },
    {
        let chars = chars_of(s);
        let shape = match read_shape(&chars) {
            Some(shape) => shape,
            None => {
                return None;
            },
        };
        let ghost exponent = exponent_of(unsigned_part(s@));
        let (magnitude, finer) = magnitude_of(&chars, &shape, Ghost(exponent));
        let hundredths: i64 = if !shape.negative {
            magnitude as i64
        } else if finer && magnitude < 100_000_000 {
            -(magnitude as i64) - 1
        } else {
            -(magnitude as i64)
        };
        Some(Similarity { hundredths })
    }
}

/// The place up to which the digits of a number make up its hundredths: two
/// places after the decimal point, which the exponent moves.
spec fn hundredths_place(shape: Shape, exponent: int) -> int {
    shape.point - shape.start + exponent + 2
}

/// Makes the number of hundredths, without its sign and held at the bound,
/// of the digits that `shape` describes and of the exponent, and says
/// whether digits other than 0 remain below the hundredths.
fn magnitude_of(chars: &Vec<char>, shape: &Shape, Ghost(exponent): Ghost<int>) -> (r: (u64, bool))
    requires
        shape.start <= shape.point <= shape.end <= chars.len(),
        shape.has_point ==> shape.point < shape.end,
        !shape.has_point ==> shape.point == shape.end,
        forall|j: int| shape.start <= j < shape.point ==> is_digit(#[trigger] chars@[j]),
        forall|j: int| shape.point < j < shape.end ==> is_digit(#[trigger] chars@[j]),
        shape.exponent == at_most(
            if exponent < 0 {
                -exponent
            } else {
                exponent
            },
            EXPONENT_CAP as int,
        ),
        shape.exponent_negative ==> exponent <= 0,
        !shape.exponent_negative ==> exponent >= 0,
    ensures
        ({
            let digits = digits_in(chars@, *shape);
            let place = hundredths_place(*shape, exponent);
            &&& r.0 == at_most(leading_value(digits, place) as int, HUNDREDTHS_CAP as int)
            &&& r.1 == has_digits_between(digits, place, digits.len() as int)
        }),
{
    let whole_len: usize = shape.point - shape.start;
    let count: usize = if shape.has_point {
        shape.end - shape.start - 1
    } else {
        whole_len
    };
    let place: i128 = if shape.exponent_negative {
        whole_len as i128 + 2 - shape.exponent as i128
    } else {
        whole_len as i128 + 2 + shape.exponent as i128
    };
    let take: usize = if place <= 0 {
        0
    } else if place >= count as i128 {
        count
    } else {
        place as usize
    };
    let (value, finer) = leading_digits(chars, shape, take);
    let magnitude: u64 = if place > count as i128 {
        scale(value, (place - count as i128) as u128)
    } else {
        value
    };
    proof {
        lemma_hundredths(
            digits_in(chars@, *shape),
            whole_len as int,
            exponent,
            shape.exponent as int,
            shape.exponent_negative,
            place as int,
            take as int,
            value as int,
            finer,
            magnitude as int,
        );
    }
    (magnitude, finer)
}

/// Reads the digits of the mantissa that `shape` describes: of the first
/// `take` it returns the value, held at the bound; of the others it returns
/// whether one of them is not 0.
fn leading_digits(chars: &Vec<char>, shape: &Shape, take: usize) -> (r: (u64, bool))
    requires
        shape.start <= shape.point <= shape.end <= chars.len(),
        shape.has_point ==> shape.point < shape.end,
        !shape.has_point ==> shape.point == shape.end,
        forall|j: int| shape.start <= j < shape.point ==> is_digit(#[trigger] chars@[j]),
        forall|j: int| shape.point < j < shape.end ==> is_digit(#[trigger] chars@[j]),
    ensures
        ({
            let digits = digits_in(chars@, *shape);
            &&& r.0 == at_most(
                digits_value(digits.take(at_most(digits.len() as int, take as int))) as int,
                HUNDREDTHS_CAP as int,
            )
            &&& r.1 == has_digits_between(digits, take as int, digits.len() as int)
        }),
{
    let ghost digits = digits_in(chars@, *shape);
    assert(digits.take(0) =~= Seq::<char>::empty());
    let (value, finer) = fold_digits(
        chars,
        shape.start,
        shape.point,
        Ghost(digits),
        0,
        take,
        0,
        false,
    );
    if shape.has_point {
        fold_digits(
            chars,
            shape.point + 1,
            shape.end,
            Ghost(digits),
            shape.point - shape.start,
            take,
            value,
            finer,
        )
    } else {
        (value, finer)
    }
}

/// The digits of the mantissa that `shape` describes, in a row.
spec fn digits_in(s: Seq<char>, shape: Shape) -> Seq<char> {
    s.subrange(shape.start as int, shape.point as int) + (if shape.has_point {
        s.subrange(shape.point + 1, shape.end as int)
    } else {
        Seq::empty()
    })
}

/// What is made of the digits of a number and of its exponent is the
/// number of its hundredths, held at the bound: an exponent that was held at
/// its own bound moves the digits no less far than they have to be moved to
/// reach the bound or to vanish.
proof fn lemma_hundredths(
    digits: Seq<char>,
    whole_len: int,
    exponent: int,
    size: int,
    exponent_negative: bool,
    place: int,
    take: int,
    value: int,
    finer: bool,
    magnitude: int,
)
    requires
        0 <= whole_len <= digits.len() <= usize::MAX,
        size == at_most(
            if exponent < 0 {
                -exponent
            } else {
                exponent
            },
            EXPONENT_CAP as int,
        ),
        exponent_negative ==> exponent <= 0,
        !exponent_negative ==> exponent >= 0,
        place == (if exponent_negative {
            whole_len + 2 - size
        } else {
            whole_len + 2 + size
        }),
        take == (if place <= 0 {
            0
        } else if place >= digits.len() {
            digits.len() as int
        } else {
            place
        }),
        value == at_most(digits_value(digits.take(take)) as int, HUNDREDTHS_CAP as int),
        finer == has_digits_between(digits, take, digits.len() as int),
        magnitude == (if place > digits.len() {
            at_most(
                (value as nat * pow10((place - digits.len()) as nat)) as int,
                HUNDREDTHS_CAP as int,
            )
        } else {
            value
        }),
    ensures
        magnitude == at_most(
            leading_value(digits, whole_len + exponent + 2) as int,
            HUNDREDTHS_CAP as int,
        ),
        finer == has_digits_between(digits, whole_len + exponent + 2, digits.len() as int),
{
    let exact = whole_len + exponent + 2;
    let count = digits.len() as int;
    let all = digits_value(digits);
    assert(digits.take(count) =~= digits);
    assert(digits.take(0) =~= Seq::<char>::empty());
    if size == EXPONENT_CAP && !exponent_negative {
        lemma_moved_far(all, (exact - count) as nat);
        lemma_moved_far(value as nat, (place - count) as nat);
    } else if size == EXPONENT_CAP {
        assert(place <= 0 && exact <= 0);
    } else {
        assert(place == exact);
        if place > count {
            let power = pow10((place - count) as nat);
            lemma_pow10_positive((place - count) as nat);
            if all > HUNDREDTHS_CAP {
                assert(all * power >= all) by (nonlinear_arith)
                    requires
                        power >= 1,
                ;
                assert(value as nat * power >= value) by (nonlinear_arith)
                    requires
                        power >= 1,
                        value >= 0,
                ;
            }
        }
    }
    if has_digits_between(digits, exact, count) {
        let w = choose|w: int| exact <= w < count && 0 <= w < digits.len() && digits[w] != '0';
        assert(take <= w < count && 0 <= w < digits.len() && digits[w] != '0');
    }
    if has_digits_between(digits, take, count) {
        let w = choose|w: int| take <= w < count && 0 <= w < digits.len() && digits[w] != '0';
        assert(exact <= w < count && 0 <= w < digits.len() && digits[w] != '0');
    }
}

} // verus!
