//! Small tools on text: characters, trimming, decimal integers.

use vstd::prelude::*;

verus! {

/// The characters of a text.
pub fn chars_of(text: &str) -> (chars: Vec<char>)
    ensures
        chars@ == text@,
{
    let mut chars: Vec<char> = Vec::new();
    for c in it: text.chars()
        invariant
            it.seq() == text@,
            it.index() <= text@.len(),
            chars@ == text@.take(it.index() as int),
    {
        proof {
            assert(it.seq().take(it.index() + 1) =~= it.seq().take(it.index() as int).push(c));
        }
        chars.push(c);
    }
    proof {
        assert(text@.take(text@.len() as int) =~= text@);
    }
    chars
}

/// Whether two texts are the same.
pub fn same_text(a: &str, b: &str) -> (r: bool)
    ensures
        r == (a@ == b@),
{
    let left = chars_of(a);
    let right = chars_of(b);
    proof {
        assert(left@.subrange(0, left@.len() as int) =~= left@);
    }
    same_chars(&left, 0, left.len(), &right)
}

/// Whether the characters of `chars` from `from` up to `to` spell `word`.
pub fn same_chars(chars: &Vec<char>, from: usize, to: usize, word: &Vec<char>) -> (r: bool)
    requires
        from <= to <= chars.len(),
    ensures
        r == (chars@.subrange(from as int, to as int) == word@),
{
    if to - from != word.len() {
        return false;
    }
    let mut k: usize = 0;
    while k < word.len()
        invariant
            from <= to <= chars.len(),
            to - from == word.len(),
            k <= word.len(),
            forall|i: int| 0 <= i < k ==> chars@[from + i] == word@[i],
        decreases word.len() - k,
    {
        if chars[from + k] != word[k] {
            proof {
                assert(chars@.subrange(from as int, to as int)[k as int] != word@[k as int]);
            }
            return false;
        }
        k = k + 1;
    }
    proof {
        assert(chars@.subrange(from as int, to as int) =~= word@);
    }
    true
}

/// Unicode's `White_Space` property, which is what trimming removes.
pub open spec fn is_space(c: char) -> bool {
    let code = c as u32;
    ||| 0x09 <= code <= 0x0D
    ||| code == 0x20
    ||| code == 0x85
    ||| code == 0xA0
    ||| code == 0x1680
    ||| 0x2000 <= code <= 0x200A
    ||| code == 0x2028
    ||| code == 0x2029
    ||| code == 0x202F
    ||| code == 0x205F
    ||| code == 0x3000
}

/// Whether a character is whitespace.
pub fn is_space_char(c: char) -> (r: bool)
    ensures
        r == is_space(c),
{
    let code: u32 = c as u32;
    (0x09 <= code && code <= 0x0D) || code == 0x20 || code == 0x85 || code == 0xA0 || code
        == 0x1680 || (0x2000 <= code && code <= 0x200A) || code == 0x2028 || code == 0x2029
        || code == 0x202F || code == 0x205F || code == 0x3000
}

/// Number of whitespace characters at the front of a text.
pub open spec fn lead(s: Seq<char>) -> int
    decreases s.len(),
{
    if s.len() > 0 && is_space(s[0]) {
        1 + lead(s.drop_first())
    } else {
        0
    }
}

/// Number of whitespace characters at the back of a text.
pub open spec fn trail(s: Seq<char>) -> int
    decreases s.len(),
{
    if s.len() > 0 && is_space(s.last()) {
        1 + trail(s.drop_last())
    } else {
        0
    }
}

/// A text without the whitespace on either end.
pub open spec fn trimmed(s: Seq<char>) -> Seq<char> {
    if lead(s) >= s.len() {
        Seq::empty()
    } else {
        s.subrange(lead(s), s.len() - trail(s))
    }
}

proof fn lemma_lead_bounds(s: Seq<char>)
    ensures
        0 <= lead(s) <= s.len(),
        0 <= trail(s) <= s.len(),
    decreases s.len(),
{
    if s.len() > 0 {
        lemma_lead_bounds(s.drop_first());
        lemma_lead_bounds(s.drop_last());
    }
}

/// Where the trimmed part of `chars[from..to]` starts and ends.
pub fn trim_range(chars: &Vec<char>, from: usize, to: usize) -> (r: (usize, usize))
    requires
        from <= to <= chars.len(),
    ensures
        from <= r.0 <= r.1 <= to,
        chars@.subrange(r.0 as int, r.1 as int) == trimmed(chars@.subrange(from as int, to as int)),
{
    let ghost whole = chars@.subrange(from as int, to as int);
    let mut a: usize = from;
    while a < to && is_space_char(chars[a])
        invariant
            from <= a <= to <= chars.len(),
            lead(whole) == (a - from) + lead(chars@.subrange(a as int, to as int)),
            whole == chars@.subrange(from as int, to as int),
        decreases to - a,
    {
        proof {
            assert(chars@.subrange(a as int, to as int).drop_first() =~= chars@.subrange(
                a + 1,
                to as int,
            ));
        }
        a = a + 1;
    }
    proof {
        lemma_lead_bounds(whole);
    }
    if a == to {
        proof {
            assert(chars@.subrange(a as int, a as int) =~= Seq::<char>::empty());
        }
        return (a, a);
    }
    let mut b: usize = to;
    while b > a && is_space_char(chars[b - 1])
        invariant
            from <= a < b <= to <= chars.len(),
            !is_space(chars@[a as int]),
            trail(whole) == (to - b) + trail(chars@.subrange(from as int, b as int)),
            whole == chars@.subrange(from as int, to as int),
        decreases b,
    {
        proof {
            assert(chars@.subrange(from as int, b as int).drop_last() =~= chars@.subrange(
                from as int,
                b - 1,
            ));
        }
        b = b - 1;
    }
    proof {
        assert(whole.subrange(a - from, b - from) =~= chars@.subrange(a as int, b as int));
    }
    (a, b)
}

/// The text without the whitespace on either end.
pub fn trim(text: &str) -> (r: String)
    ensures
        r@ == trimmed(text@),
{
    let chars = chars_of(text);
    let (a, b) = trim_range(&chars, 0, chars.len());
    proof {
        assert(chars@.subrange(0, chars@.len() as int) =~= chars@);
    }
    text.substring_char(a, b).to_owned()
}

/// A decimal digit's value.
pub open spec fn digit(c: char) -> int {
    c as u32 - 0x30
}

/// One of `0` to `9`.
pub open spec fn is_digit(c: char) -> bool {
    0x30 <= c as u32 <= 0x39
}

/// Every character is a decimal digit.
pub open spec fn all_digits(s: Seq<char>) -> bool {
    forall|i: int| 0 <= i < s.len() ==> is_digit(#[trigger] s[i])
}

/// The number that a run of decimal digits spells.
pub open spec fn digits_value(s: Seq<char>) -> int
    decreases s.len(),
{
    if s.len() == 0 {
        0
    } else {
        digits_value(s.drop_last()) * 10 + digit(s.last())
    }
}

/// The digits of a numeral, after its sign if it has one.
pub open spec fn numeral_body(s: Seq<char>) -> Seq<char> {
    if s.len() > 0 && (s[0] == '-' || s[0] == '+') {
        s.drop_first()
    } else {
        s
    }
}

/// The 32-bit integer that a text spells: an optional `+` or `-`, then
/// one or more decimal digits and nothing else, the whole within range.
pub open spec fn int_of(s: Seq<char>) -> Option<i32> {
    let body = numeral_body(s);
    let value = if s.len() > 0 && s[0] == '-' {
        -digits_value(body)
    } else {
        digits_value(body)
    };
    if body.len() == 0 || !all_digits(body) || value < i32::MIN || value > i32::MAX {
        None
    } else {
        Some(value as i32)
    }
}

/// More digits never spell a smaller number.
proof fn lemma_digits_grow(s: Seq<char>, k: int)
    requires
        all_digits(s),
        0 <= k <= s.len(),
    ensures
        0 <= digits_value(s.take(k)) <= digits_value(s),
    decreases s.len() - k,
{
    if k == s.len() {
        assert(s.take(k) =~= s);
        lemma_digits_grow_zero(s);
    } else {
        lemma_digits_grow(s, k + 1);
        assert(s.take(k + 1).drop_last() =~= s.take(k));
        assert(is_digit(s[k]));
        lemma_digits_grow_zero(s.take(k));
    }
}

proof fn lemma_digits_grow_zero(s: Seq<char>)
    requires
        all_digits(s),
    ensures
        0 <= digits_value(s),
    decreases s.len(),
{
    if s.len() > 0 {
        assert(is_digit(s.last()));
        lemma_digits_grow_zero(s.drop_last());
    }
}

/// Reads `chars[from..to]` as a decimal 32-bit integer.
pub fn int_in(chars: &Vec<char>, from: usize, to: usize) -> (r: Option<i32>)
    requires
        from <= to <= chars.len(),
    ensures
        r == int_of(chars@.subrange(from as int, to as int)),
{
    let ghost whole = chars@.subrange(from as int, to as int);
    if from == to {
        return None;
    }
    let negative: bool = chars[from] == '-';
    let start: usize = if negative || chars[from] == '+' {
        from + 1
    } else {
        from
    };
    let ghost body = chars@.subrange(start as int, to as int);
    proof {
        assert(body =~= numeral_body(whole));
    }
    if start == to {
        return None;
    }
    let mut value: i64 = 0;
    let mut k: usize = start;
    while k < to
        invariant
            from <= start <= k <= to <= chars.len(),
            body == chars@.subrange(start as int, to as int),
            body == numeral_body(chars@.subrange(from as int, to as int)),
            all_digits(body.take(k - start)),
            value == digits_value(body.take(k - start)),
            0 <= value <= 0x8000_0000,
        decreases to - k,
    {
        let code: u32 = chars[k] as u32;
        if code < 0x30 || code > 0x39 {
            proof {
                assert(!is_digit(body[k - start]));
            }
            return None;
        }
        proof {
            assert(body.take(k + 1 - start).drop_last() =~= body.take(k - start));
            assert(body.take(k + 1 - start).last() == chars@[k as int]);
        }
        value = value * 10 + (code - 0x30) as i64;
        k = k + 1;
        if value > 0x8000_0000 {
            // Too large whatever follows: either more digits or a character
            // that is none.
            proof {
                if all_digits(body) {
                    lemma_digits_grow(body, k - start);
                }
            }
            return None;
        }
    }
    proof {
        assert(body.take(to - start) =~= body);
    }
    if negative {
        Some((-value) as i32)
    } else if value == 0x8000_0000 {
        None
    } else {
        Some(value as i32)
    }
}

/// Reads a text as a decimal 32-bit integer.
pub fn parse_int(text: &str) -> (r: Option<i32>)
    ensures
        r == int_of(text@),
{
    let chars = chars_of(text);
    proof {
        assert(chars@.subrange(0, chars@.len() as int) =~= chars@);
    }
    int_in(&chars, 0, chars.len())
}

} // verus!
