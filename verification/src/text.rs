//! Helpers on text: characters of a string, prefixes, and decimal numbers.

use vstd::prelude::*;
use vstd::string::*;

verus! {

/// Returns the characters of `s` in order.
pub fn chars_of(s: &str) -> (v: Vec<char>)
    ensures
        v@ == s@,
{
    let mut v: Vec<char> = Vec::new();
    for c in it: s.chars()
        invariant
            it.seq() == s@,
            v@ == it.seq().take(it.index() as int),
    {
        v.push(c);
    }
    v
}

/// Whether `s` begins with `prefix`.
pub fn starts_with(s: &str, prefix: &str) -> (r: bool)
    ensures
        r == prefix@.is_prefix_of(s@),
{
    let text = chars_of(s);
    let start = chars_of(prefix);
    if start.len() > text.len() {
        return false;
    }
    let mut i: usize = 0;
    while i < start.len()
        invariant
            i <= start.len() <= text.len(),
            text@ == s@,
            start@ == prefix@,
            forall|j: int| 0 <= j < i ==> text@[j] == start@[j],
        decreases start.len() - i,
    {
        if text[i] != start[i] {
            return false;
        }
        i = i + 1;
    }
    true
}

/// Returns `text` with `prefix` before it.
pub fn prefixed(prefix: &str, text: &String) -> (r: String)
    ensures
        r@ == prefix@ + text@,
{
    let mut out = String::from_str(prefix);
    out.append(text.as_str());
    out
}

/// The character that stands for the digit `d`.
pub open spec fn digit_char(d: nat) -> char
    recommends
        d < 10,
{
    if d == 0 {
        '0'
    } else if d == 1 {
        '1'
    } else if d == 2 {
        '2'
    } else if d == 3 {
        '3'
    } else if d == 4 {
        '4'
    } else if d == 5 {
        '5'
    } else if d == 6 {
        '6'
    } else if d == 7 {
        '7'
    } else if d == 8 {
        '8'
    } else {
        '9'
    }
}

/// The decimal notation of `n`, without sign and without leading zeros.
pub open spec fn decimal_of(n: nat) -> Seq<char>
    decreases n,
{
    if n < 10 {
        seq![digit_char(n)]
    } else {
        decimal_of(n / 10).push(digit_char(n % 10))
    }
}

/// The decimal notation of `n`, with a leading minus sign if `n` is negative.
pub open spec fn signed_decimal_of(n: int) -> Seq<char> {
    if n < 0 {
        seq!['-'] + decimal_of((-n) as nat)
    } else {
        decimal_of(n as nat)
    }
}

fn digit_text(d: u64) -> (r: &'static str)
    requires
        d < 10,
    ensures
        r@ == seq![digit_char(d as nat)],
{
    proof {
        reveal_strlit("0");
        reveal_strlit("1");
        reveal_strlit("2");
        reveal_strlit("3");
        reveal_strlit("4");
        reveal_strlit("5");
        reveal_strlit("6");
        reveal_strlit("7");
        reveal_strlit("8");
        reveal_strlit("9");
    }
    let r = if d == 0 {
        "0"
    } else if d == 1 {
        "1"
    } else if d == 2 {
        "2"
    } else if d == 3 {
        "3"
    } else if d == 4 {
        "4"
    } else if d == 5 {
        "5"
    } else if d == 6 {
        "6"
    } else if d == 7 {
        "7"
    } else if d == 8 {
        "8"
    } else {
        "9"
    };
    r
}

/// Appends the decimal notation of `n` to `out`.
pub fn push_decimal(out: &mut String, n: u64)
    ensures
        final(out)@ == old(out)@ + decimal_of(n as nat),
    decreases n,
{
    if n >= 10 {
        push_decimal(out, n / 10);
    }
    let d = digit_text(n % 10);
    out.append(d);
}

/// Returns the decimal notation of `n`.
pub fn decimal(n: u64) -> (r: String)
    ensures
        r@ == decimal_of(n as nat),
{
    let mut out = String::new();
    push_decimal(&mut out, n);
    out
}

/// Returns the decimal notation of `n`, with a minus sign if it is negative.
pub fn signed_decimal(n: i64) -> (r: String)
    ensures
        r@ == signed_decimal_of(n as int),
{
    let mut out = String::new();
    if n < 0 {
        proof {
            reveal_strlit("-");
        }
        out.append("-");
        let magnitude: u64 = ((-(n + 1)) as u64) + 1;
        push_decimal(&mut out, magnitude);
    } else {
        push_decimal(&mut out, n as u64);
    }
    out
}

/// Whether `c` is one of the ten decimal digits.
pub open spec fn is_digit(c: char) -> bool {
    '0' <= c && c <= '9'
}

/// The number that the digit `c` stands for.
pub open spec fn digit_value(c: char) -> nat
    recommends
        is_digit(c),
{
    (c as u32 - '0' as u32) as nat
}

/// Whether every character of `s` is a decimal digit.
pub open spec fn all_digits(s: Seq<char>) -> bool {
    forall|i: int| 0 <= i < s.len() ==> is_digit(#[trigger] s[i])
}

/// The number that the digits `s` denote in decimal notation; 0 for the
/// empty sequence.
pub open spec fn digits_value(s: Seq<char>) -> nat
    decreases s.len(),
{
    if s.len() == 0 {
        0
    } else {
        digits_value(s.drop_last()) * 10 + digit_value(s.last())
    }
}

/// The lesser of `a` and `b`.
pub open spec fn at_most(a: int, b: int) -> int {
    if a <= b {
        a
    } else {
        b
    }
}

/// Returns the value of `c` if it is a decimal digit.
pub fn digit_of(c: char) -> (r: Option<u64>)
    ensures
        r == (if is_digit(c) {
            Some(digit_value(c) as u64)
        } else {
            None
        }),
        r matches Some(d) ==> d < 10,
{
    let code: u32 = c as u32;
    if 48 <= code && code <= 57 {
        Some((code - 48) as u64)
    } else {
        None
    }
}

/// Whether `i` is the position of the first `c` in `s`.
pub open spec fn is_first(s: Seq<char>, c: char, i: int) -> bool {
    &&& 0 <= i < s.len()
    &&& s[i] == c
    &&& forall|j: int| 0 <= j < i ==> s[j] != c
}

/// The position of the first `c` in `s`, or the length of `s` if `c` does not
/// occur in it.
#[verifier::opaque]
pub open spec fn first_index(s: Seq<char>, c: char) -> int {
    if exists|i: int| is_first(s, c, i) {
        choose|i: int| is_first(s, c, i)
    } else {
        s.len() as int
    }
}

/// The first position of a character is the one before which the character
/// does not occur and at which it does, or the length if it occurs nowhere.
pub proof fn lemma_first_index(s: Seq<char>, c: char, i: int)
    requires
        0 <= i <= s.len(),
        forall|j: int| 0 <= j < i ==> s[j] != c,
        i < s.len() ==> s[i] == c,
    ensures
        first_index(s, c) == i,
{
    reveal(first_index);
    if i < s.len() {
        assert(is_first(s, c, i));
        let q = first_index(s, c);
        assert(is_first(s, c, q));
        if q < i {
            assert(s[q] != c);
        }
    } else {
        assert forall|k: int| !is_first(s, c, k) by {
            if 0 <= k < s.len() {
                assert(s[k] != c);
            }
        }
    }
}

/// The first position of a character is not before a position up to which
/// the character does not occur.
pub proof fn lemma_first_index_at_least(s: Seq<char>, c: char, i: int)
    requires
        0 <= i <= s.len(),
        forall|j: int| 0 <= j < i ==> s[j] != c,
    ensures
        i <= first_index(s, c) <= s.len(),
{
    reveal(first_index);
    let q = first_index(s, c);
    if exists|k: int| is_first(s, c, k) {
        assert(is_first(s, c, q));
    }
}

/// At its first position, if it has one, a character occurs.
pub proof fn lemma_first_index_holds(s: Seq<char>, c: char)
    ensures
        0 <= first_index(s, c) <= s.len(),
        first_index(s, c) < s.len() ==> s[first_index(s, c)] == c,
{
    reveal(first_index);
    let q = first_index(s, c);
    if exists|k: int| is_first(s, c, k) {
        assert(is_first(s, c, q));
    }
}

/// Finds the first `c` among the characters of `chars` from position `from`
/// up to, and without, position `to`. Returns `to` if there is none.
pub fn find_char(chars: &Vec<char>, from: usize, to: usize, c: char) -> (r: usize)
    requires
        from <= to <= chars.len(),
    ensures
        from <= r <= to,
        r - from == first_index(chars@.subrange(from as int, to as int), c),
        forall|j: int| from <= j < r ==> chars@[j] != c,
        r < to ==> chars@[r as int] == c,
{
    let mut i: usize = from;
    while i < to
        invariant
            from <= i <= to <= chars.len(),
            forall|j: int| from <= j < i ==> chars@[j] != c,
        decreases to - i,
    {
        if chars[i] == c {
            proof {
                lemma_first_index(chars@.subrange(from as int, to as int), c, i - from);
            }
            return i;
        }
        i = i + 1;
    }
    proof {
        lemma_first_index(chars@.subrange(from as int, to as int), c, i - from);
    }
    i
}

/// Reads the digits of `chars` from position `from` up to the first
/// character that is no digit, and no further than position `to`. Returns the
/// position where it stopped and the number that the digits denote, held at
/// `cap` if it is greater.
pub fn scan_digits(chars: &Vec<char>, from: usize, to: usize, cap: u128) -> (r: (usize, u128))
    requires
        from <= to <= chars.len(),
    ensures
        from <= r.0 <= to,
        forall|j: int| from <= j < r.0 ==> is_digit(chars@[j]),
        r.0 < to ==> !is_digit(chars@[r.0 as int]),
        r.1 == at_most(digits_value(chars@.subrange(from as int, r.0 as int)) as int, cap as int),
{
    let mut i: usize = from;
    let mut value: u128 = 0;
    while i < to
        invariant
            from <= i <= to <= chars.len(),
            forall|j: int| from <= j < i ==> is_digit(chars@[j]),
            value == at_most(
                digits_value(chars@.subrange(from as int, i as int)) as int,
                cap as int,
            ),
        decreases to - i,
    {
        match digit_of(chars[i]) {
            None => {
                return (i, value);
            },
            Some(d) => {
                proof {
                    let next = chars@.subrange(from as int, i + 1);
                    assert(next.drop_last() =~= chars@.subrange(from as int, i as int));
                }
                let digit: u128 = d as u128;
                value = if value > (u128::MAX - digit) / 10 || value * 10 + digit > cap {
                    cap
                } else {
                    value * 10 + digit
                };
                i = i + 1;
            },
        }
    }
    (i, value)
}

/// What `str::parse::<u32>` accepts: an optional plus sign, then one or more
/// decimal digits that denote a number of at most `u32::MAX`.
pub open spec fn parse_u32_spec(s: Seq<char>) -> Option<u32> {
    let digits = if s.len() > 0 && s[0] == '+' {
        s.skip(1)
    } else {
        s
    };
    if digits.len() > 0 && all_digits(digits) && digits_value(digits) <= u32::MAX {
        Some(digits_value(digits) as u32)
    } else {
        None
    }
}

/// The decimal notation of a number is made of digits, at least one, and
/// denotes that number.
pub proof fn lemma_decimal_denotes(n: nat)
    ensures
        decimal_of(n).len() > 0,
        all_digits(decimal_of(n)),
        digits_value(decimal_of(n)) == n,
    decreases n,
{
    let text = decimal_of(n);
    if n < 10 {
        assert(text.drop_last() =~= Seq::<char>::empty());
        assert(text.last() == digit_char(n));
        assert(digits_value(text) == digits_value(text.drop_last()) * 10 + digit_value(
            text.last(),
        ));
    } else {
        lemma_decimal_denotes(n / 10);
        assert(text.drop_last() =~= decimal_of(n / 10));
        assert(text.last() == digit_char(n % 10));
        assert forall|i: int| 0 <= i < text.len() implies is_digit(#[trigger] text[i]) by {
            if i < text.len() - 1 {
                assert(text[i] == decimal_of(n / 10)[i]);
            }
        }
    }
}

/// Reading gives back what writing was given: the decimal notation of a
/// number that fits in 32 bits is read as that number.
pub proof fn lemma_parse_reads_what_decimal_writes(n: u32)
    ensures
        parse_u32_spec(decimal_of(n as nat)) == Some(n),
{
    lemma_decimal_denotes(n as nat);
}

/// Reads the characters of `chars` from position `from` up to, and without,
/// position `to` as an unsigned decimal number, as `str::parse::<u32>` reads a
/// text.
pub fn parse_u32_in(chars: &Vec<char>, from: usize, to: usize) -> (r: Option<u32>)
    requires
        from <= to <= chars.len(),
    ensures
        r == parse_u32_spec(chars@.subrange(from as int, to as int)),
{
    let ghost text = chars@.subrange(from as int, to as int);
    let start: usize = if from < to && chars[from] == '+' {
        from + 1
    } else {
        from
    };
    let (end, value) = scan_digits(chars, start, to, 0x1_0000_0000);
    let ghost digits = if text.len() > 0 && text[0] == '+' {
        text.skip(1)
    } else {
        text
    };
    proof {
        assert(digits =~= chars@.subrange(start as int, to as int));
        if end < to {
            assert(!is_digit(digits[end - start]));
        } else {
            assert forall|i: int| 0 <= i < digits.len() implies is_digit(#[trigger] digits[i]) by {
                assert(digits[i] == chars@[i + start]);
            }
        }
    }
    if end < to || end == start || value > 0xffff_ffff {
        None
    } else {
        Some(value as u32)
    }
}

/// Reads an unsigned decimal number, as `str::parse::<u32>` does.
pub fn parse_u32(s: &str) -> (r: Option<u32>)
    ensures
        r == parse_u32_spec(s@),
{
    let chars = chars_of(s);
    assert(chars@.subrange(0, chars@.len() as int) =~= s@);
    parse_u32_in(&chars, 0, chars.len())
}

} // verus!
