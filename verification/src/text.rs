//! Character-level helpers shared by the rest of the crate: substring search,
//! decimal digits, and the few string operations of the standard library that
//! are taken on trust.

use vstd::prelude::*;
use vstd::string::StringSliceAdditionalSpecFns;

verus! {

/// Whether `needle` occurs in `haystack` starting at position `at`.
pub open spec fn occurs_at(haystack: Seq<char>, needle: Seq<char>, at: int) -> bool {
    &&& 0 <= at
    &&& at + needle.len() <= haystack.len()
    &&& haystack.subrange(at, at + needle.len()) == needle
}

/// Whether `needle` occurs somewhere in `haystack`.
pub open spec fn contains_seq(haystack: Seq<char>, needle: Seq<char>) -> bool {
    exists|at: int| occurs_at(haystack, needle, at)
}

/// Whether `text` begins with `prefix`.
pub open spec fn starts_with_seq(text: Seq<char>, prefix: Seq<char>) -> bool {
    occurs_at(text, prefix, 0)
}

/// Whether `text` ends with `suffix`.
pub open spec fn ends_with_seq(text: Seq<char>, suffix: Seq<char>) -> bool {
    occurs_at(text, suffix, text.len() - suffix.len())
}

/// The lowercase form of a string, as the standard library computes it.
pub uninterp spec fn lowercase_of(text: Seq<char>) -> Seq<char>;

/// Calls `str::to_lowercase`. The result is the lowercase equivalent of the
/// argument under the Unicode rules; the contract only gives it a name.
#[verifier::external_body]
pub(crate) fn lowercase(text: &str) -> (lower: String)
    ensures
        lower@ == lowercase_of(text@),
{
    text.to_lowercase()
}

/// Calls `String::push`, which appends one character to the end of the string.
#[verifier::external_body]
pub(crate) fn push_char(text: &mut String, c: char)
    ensures
        final(text)@ == old(text)@.push(c),
{
    text.push(c)
}

/// The characters of `s`, in order.
pub fn chars_of(s: &str) -> (v: Vec<char>)
    ensures
        v@ == s@,
{
    let mut v: Vec<char> = Vec::new();
    for c in it: s.chars()
        invariant
            v@ == it.seq().take(it.index() as int),
    {
        v.push(c);
    }
    v
}

/// The string made of `chars`, in order.
pub fn string_of(chars: &Vec<char>) -> (s: String)
    ensures
        s@ == chars@,
{
    let mut s: String = String::new();
    let mut i: usize = 0;
    while i < chars.len()
        invariant
            i <= chars.len(),
            s@ == chars@.take(i as int),
        decreases chars.len() - i,
    {
        push_char(&mut s, chars[i]);
        i = i + 1;
    }
    assert(chars@.take(chars.len() as int) == chars@);
    s
}

/// Whether `needle` occurs in `haystack` at position `at`.
pub fn chars_occur_at(haystack: &Vec<char>, needle: &Vec<char>, at: usize) -> (found: bool)
    ensures
        found == occurs_at(haystack@, needle@, at as int),
{
    if needle.len() > haystack.len() || at > haystack.len() - needle.len() {
        return false;
    }
    let mut k: usize = 0;
    while k < needle.len()
        invariant
            k <= needle.len(),
            at + needle.len() <= haystack.len(),
            forall|j: int| 0 <= j < k ==> haystack@[at + j] == needle@[j],
        decreases needle.len() - k,
    {
        if haystack[at + k] != needle[k] {
            proof {
                let window = haystack@.subrange(at as int, at + needle.len());
                assert(window[k as int] == haystack@[at + k]);
            }
            return false;
        }
        k = k + 1;
    }
    assert(haystack@.subrange(at as int, at + needle.len()) =~= needle@);
    true
}

/// The first position at or after `from` where `needle` occurs in `haystack`.
pub fn find_chars_from(haystack: &Vec<char>, needle: &Vec<char>, from: usize) -> (at: Option<usize>)
    ensures
        match at {
            Some(p) => from <= p && occurs_at(haystack@, needle@, p as int) && forall|q: int|
                from <= q < p ==> !occurs_at(haystack@, needle@, q),
            None => forall|q: int| from <= q ==> !occurs_at(haystack@, needle@, q),
        },
{
    if needle.len() > haystack.len() || from > haystack.len() - needle.len() {
        return None;
    }
    let last: usize = haystack.len() - needle.len();
    let mut p: usize = from;
    loop
        invariant
            from <= p <= last,
            last == haystack.len() - needle.len(),
            forall|q: int| from <= q < p ==> !occurs_at(haystack@, needle@, q),
        decreases last - p,
    {
        if chars_occur_at(haystack, needle, p) {
            return Some(p);
        }
        if p == last {
            return None;
        }
        p = p + 1;
    }
}

/// Whether `needle` occurs somewhere in `haystack`.
pub fn chars_contain(haystack: &Vec<char>, needle: &Vec<char>) -> (found: bool)
    ensures
        found == contains_seq(haystack@, needle@),
{
    find_chars_from(haystack, needle, 0).is_some()
}

/// Whether the string `needle` occurs in the characters `haystack`.
pub fn chars_contain_str(haystack: &Vec<char>, needle: &str) -> (found: bool)
    ensures
        found == contains_seq(haystack@, needle@),
{
    let needle_chars = chars_of(needle);
    chars_contain(haystack, &needle_chars)
}

/// Whether two strings hold the same characters.
pub fn str_equal(a: &str, b: &str) -> (same: bool)
    ensures
        same == (a@ == b@),
{
    let left = a.as_bytes();
    let right = b.as_bytes();
    proof {
        vstd::utf8::encode_utf8_decode_utf8(a@);
        vstd::utf8::encode_utf8_decode_utf8(b@);
    }
    if left.len() != right.len() {
        return false;
    }
    let mut i: usize = 0;
    while i < left.len()
        invariant
            i <= left.len(),
            left.len() == right.len(),
            left@ == a.spec_bytes(),
            right@ == b.spec_bytes(),
            forall|j: int| 0 <= j < i ==> left@[j] == right@[j],
        decreases left.len() - i,
    {
        if left[i] != right[i] {
            return false;
        }
        i = i + 1;
    }
    assert(left@ =~= right@);
    true
}

/// Whether `c` is one of the ten decimal digits.
pub open spec fn is_digit(c: char) -> bool {
    '0' <= c <= '9'
}

/// The value of a decimal digit.
pub open spec fn digit_value(c: char) -> int {
    c as int - '0' as int
}

/// The character of a decimal digit.
pub open spec fn digit_char(d: int) -> char {
    if d == 0 {
        '0'
    } else if d == 1 {
        '1'
    } else if d == 2 {
        '2'
    } else if d == 3 {
        '3'
    } else if d == 4 {
        '4'
    } else if d == 5 {
        '5'
    } else if d == 6 {
        '6'
    } else if d == 7 {
        '7'
    } else if d == 8 {
        '8'
    } else {
        '9'
    }
}

/// Whether every character of `text` is a decimal digit.
pub open spec fn all_digits(text: Seq<char>) -> bool {
    forall|i: int| 0 <= i < text.len() ==> is_digit(#[trigger] text[i])
}

/// The number that a sequence of decimal digits spells.
pub open spec fn digits_value(text: Seq<char>) -> int
    decreases text.len(),
{
    if text.len() == 0 {
        0
    } else {
        digits_value(text.drop_last()) * 10 + digit_value(text.last())
    }
}

/// The decimal spelling of a number, without leading zeros.
pub open spec fn decimal(n: nat) -> Seq<char>
    decreases n,
{
    if n < 10 {
        seq![digit_char(n as int)]
    } else {
        decimal(n / 10).push(digit_char((n % 10) as int))
    }
}

/// The decimal spelling of a number in at least two places.
pub open spec fn decimal_two_places(n: nat) -> Seq<char> {
    if n < 10 {
        seq!['0'] + decimal(n)
    } else {
        decimal(n)
    }
}

/// The value of the decimal digit `c`, if it is one.
pub fn digit_of(c: char) -> (d: Option<u8>)
    ensures
        match d {
            Some(v) => is_digit(c) && v == digit_value(c) && v < 10,
            None => !is_digit(c),
        },
{
    if c >= '0' && c <= '9' {
        Some(((c as u32) - ('0' as u32)) as u8)
    } else {
        None
    }
}

/// The character of the digit `d`.
pub fn char_of_digit(d: u8) -> (c: char)
    requires
        d < 10,
    ensures
        c == digit_char(d as int),
        is_digit(c),
        digit_value(c) == d,
{
    if d == 0 {
        '0'
    } else if d == 1 {
        '1'
    } else if d == 2 {
        '2'
    } else if d == 3 {
        '3'
    } else if d == 4 {
        '4'
    } else if d == 5 {
        '5'
    } else if d == 6 {
        '6'
    } else if d == 7 {
        '7'
    } else if d == 8 {
        '8'
    } else {
        '9'
    }
}

/// The decimal spelling of `n`.
pub fn decimal_chars(n: u64) -> (digits: Vec<char>)
    ensures
        digits@ == decimal(n as nat),
    decreases n,
{
    if n < 10 {
        let mut digits: Vec<char> = Vec::new();
        digits.push(char_of_digit(n as u8));
        assert(digits@ =~= seq![digit_char(n as int)]);
        digits
    } else {
        let mut digits = decimal_chars(n / 10);
        digits.push(char_of_digit((n % 10) as u8));
        digits
    }
}

/// Appends every character of `tail` to `out`.
pub fn append_chars(out: &mut Vec<char>, tail: &Vec<char>)
    ensures
        final(out)@ == old(out)@ + tail@,
{
    let mut i: usize = 0;
    while i < tail.len()
        invariant
            i <= tail.len(),
            out@ == old(out)@ + tail@.take(i as int),
        decreases tail.len() - i,
    {
        out.push(tail[i]);
        assert(tail@.take(i + 1) =~= tail@.take(i as int).push(tail@[i as int]));
        i = i + 1;
    }
    assert(tail@.take(tail.len() as int) =~= tail@);
}

/// The number that `text` spells as an unsigned 32-bit integer: an optional
/// plus sign followed by at least one decimal digit and nothing else, with a
/// value that fits.
pub open spec fn spec_parse_u32(text: Seq<char>) -> Option<u32> {
    let digits = if text.len() > 0 && text[0] == '+' {
        text.subrange(1, text.len() as int)
    } else {
        text
    };
    if digits.len() == 0 || !all_digits(digits) || digits_value(digits) > u32::MAX {
        None
    } else {
        Some(digits_value(digits) as u32)
    }
}

/// The value of a run of digits grows with every further digit.
pub proof fn lemma_digits_value_grows(text: Seq<char>, n: int)
    requires
        all_digits(text),
        0 <= n <= text.len(),
    ensures
        0 <= digits_value(text.take(n)) <= digits_value(text),
    decreases text.len() - n,
{
    lemma_digits_value_nonnegative(text.take(n));
    if n < text.len() {
        lemma_digits_value_grows(text, n + 1);
        let longer = text.take(n + 1);
        assert(longer.drop_last() =~= text.take(n));
        assert(is_digit(text[n]));
        assert(longer.last() == text[n]);
    } else {
        assert(text.take(n) =~= text);
    }
}

/// The value of a run of digits is not negative.
pub proof fn lemma_digits_value_nonnegative(text: Seq<char>)
    requires
        all_digits(text),
    ensures
        0 <= digits_value(text),
    decreases text.len(),
{
    if text.len() > 0 {
        assert(all_digits(text.drop_last())) by {
            assert forall|i: int| 0 <= i < text.drop_last().len() implies is_digit(
                #[trigger] text.drop_last()[i],
            ) by {
                assert(text.drop_last()[i] == text[i]);
            }
        }
        lemma_digits_value_nonnegative(text.drop_last());
        assert(is_digit(text[text.len() - 1]));
    }
}

/// The value of the digits `chars[from..]` if they are all digits, there is
/// at least one, and the value is at most `limit`.
pub fn parse_digits(chars: &Vec<char>, from: usize, limit: u64) -> (value: Option<u64>)
    requires
        from <= chars.len(),
    ensures
        match value {
            Some(v) => chars.len() > from && all_digits(chars@.subrange(from as int, chars.len() as int))
                && v == digits_value(chars@.subrange(from as int, chars.len() as int)) && v <= limit,
            None => chars.len() == from || !all_digits(
                chars@.subrange(from as int, chars.len() as int),
            ) || digits_value(chars@.subrange(from as int, chars.len() as int)) > limit,
        },
{
    let ghost digits = chars@.subrange(from as int, chars.len() as int);
    if chars.len() == from {
        return None;
    }
    let mut value: u128 = 0;
    let mut i: usize = from;
    assert(digits.take(0) =~= Seq::<char>::empty());
    while i < chars.len()
        invariant
            from <= i <= chars.len(),
            digits == chars@.subrange(from as int, chars.len() as int),
            all_digits(digits.take(i - from)),
            value == digits_value(digits.take(i - from)),
            value <= limit,
        decreases chars.len() - i,
    {
        let ghost prefix = digits.take(i - from);
        let ghost longer = digits.take(i - from + 1);
        proof {
            assert(longer.drop_last() =~= prefix);
            assert(longer.last() == chars@[i as int]);
            assert(digits[i - from] == chars@[i as int]);
        }
        match digit_of(chars[i]) {
            None => {
                assert(!is_digit(digits[i - from]));
                return None;
            },
            Some(d) => {
                proof {
                    assert forall|k: int| 0 <= k < longer.len() implies is_digit(
                        #[trigger] longer[k],
                    ) by {
                        if k < prefix.len() {
                            assert(longer[k] == prefix[k]);
                        }
                    }
                }
                let next: u128 = value * 10 + d as u128;
                if next > limit as u128 {
                    proof {
                        if all_digits(digits) {
                            lemma_digits_value_grows(digits, i - from + 1);
                        }
                    }
                    return None;
                }
                value = next;
            },
        }
        i = i + 1;
    }
    assert(digits.take(chars.len() - from) =~= digits);
    Some(value as u64)
}

/// Reads `chars` as an unsigned 32-bit integer in decimal.
pub fn parse_u32(chars: &Vec<char>) -> (value: Option<u32>)
    ensures
        value == spec_parse_u32(chars@),
{
    let from: usize = if chars.len() > 0 && chars[0] == '+' {
        1
    } else {
        0
    };
    proof {
        if from == 0 {
            assert(chars@.subrange(0, chars.len() as int) =~= chars@);
        }
    }
    match parse_digits(chars, from, 0xffff_ffff) {
        Some(v) => Some(v as u32),
        None => None,
    }
}

/// The characters `chars[from..to]`.
pub fn slice_chars(chars: &Vec<char>, from: usize, to: usize) -> (part: Vec<char>)
    requires
        from <= to <= chars.len(),
    ensures
        part@ == chars@.subrange(from as int, to as int),
{
    let mut part: Vec<char> = Vec::new();
    let mut i: usize = from;
    while i < to
        invariant
            from <= i <= to <= chars.len(),
            part@ == chars@.subrange(from as int, i as int),
        decreases to - i,
    {
        part.push(chars[i]);
        assert(chars@.subrange(from as int, i + 1) =~= chars@.subrange(from as int, i as int).push(
            chars@[i as int],
        ));
        i = i + 1;
    }
    part
}

/// The first position at or after `from` that holds the character `c`.
pub fn find_char_from(chars: &Vec<char>, c: char, from: usize) -> (at: Option<usize>)
    ensures
        match at {
            Some(p) => from <= p < chars.len() && chars@[p as int] == c && forall|q: int|
                from <= q < p ==> chars@[q] != c,
            None => forall|q: int| from <= q < chars.len() ==> chars@[q] != c,
        },
{
    let mut p: usize = from;
    while p < chars.len()
        invariant
            from <= p,
            forall|q: int| from <= q < p && q < chars.len() ==> chars@[q] != c,
        decreases chars.len() - p,
    {
        if chars[p] == c {
            return Some(p);
        }
        p = p + 1;
    }
    None
}

/// Whether a character is white space: one of the characters that the
/// Unicode standard gives the property `White_Space`.
pub open spec fn spec_is_whitespace(c: char) -> bool {
    let code = c as u32;
    ||| 0x0009 <= code <= 0x000d
    ||| code == 0x0020
    ||| code == 0x0085
    ||| code == 0x00a0
    ||| code == 0x1680
    ||| 0x2000 <= code <= 0x200a
    ||| code == 0x2028
    ||| code == 0x2029
    ||| code == 0x202f
    ||| code == 0x205f
    ||| code == 0x3000
}

/// Whether a character is white space.
pub fn is_whitespace(c: char) -> (white: bool)
    ensures
        white == spec_is_whitespace(c),
{
    let code: u32 = c as u32;
    (0x0009 <= code && code <= 0x000d) || code == 0x0020 || code == 0x0085 || code == 0x00a0
        || code == 0x1680 || (0x2000 <= code && code <= 0x200a) || code == 0x2028 || code
        == 0x2029 || code == 0x202f || code == 0x205f || code == 0x3000
}

/// The number of leading characters of `text` that are white space.
pub open spec fn leading_whitespace(text: Seq<char>) -> nat
    decreases text.len(),
{
    if text.len() == 0 || !spec_is_whitespace(text[0]) {
        0
    } else {
        1 + leading_whitespace(text.drop_first())
    }
}

/// The number of trailing characters of `text` that are white space.
pub open spec fn trailing_whitespace(text: Seq<char>) -> nat
    decreases text.len(),
{
    if text.len() == 0 || !spec_is_whitespace(text.last()) {
        0
    } else {
        1 + trailing_whitespace(text.drop_last())
    }
}

/// `text` without the white space at its start.
pub open spec fn trim_start_seq(text: Seq<char>) -> Seq<char> {
    text.skip(leading_whitespace(text) as int)
}

/// `text` without the white space at its end.
pub open spec fn trim_end_seq(text: Seq<char>) -> Seq<char> {
    text.take(text.len() - trailing_whitespace(text))
}

/// `text` without the white space at its start and at its end.
pub open spec fn trim_seq(text: Seq<char>) -> Seq<char> {
    trim_end_seq(trim_start_seq(text))
}

/// Counting the leading white space may start after `k` characters that are
/// known to be white space.
proof fn lemma_leading_step(text: Seq<char>, k: int)
    requires
        0 <= k <= text.len(),
        forall|j: int| 0 <= j < k ==> spec_is_whitespace(#[trigger] text[j]),
    ensures
        leading_whitespace(text) == k + leading_whitespace(text.skip(k)),
    decreases k,
{
    if k == 0 {
        assert(text.skip(0) =~= text);
    } else {
        assert(spec_is_whitespace(text[0]));
        let rest = text.drop_first();
        assert forall|j: int| 0 <= j < k - 1 implies spec_is_whitespace(#[trigger] rest[j]) by {
            assert(rest[j] == text[j + 1]);
        }
        lemma_leading_step(rest, k - 1);
        assert(rest.skip(k - 1) =~= text.skip(k));
    }
}

/// Counting the trailing white space may start before the last `k`
/// characters that are known to be white space.
proof fn lemma_trailing_step(text: Seq<char>, k: int)
    requires
        0 <= k <= text.len(),
        forall|j: int| text.len() - k <= j < text.len() ==> spec_is_whitespace(#[trigger] text[j]),
    ensures
        trailing_whitespace(text) == k + trailing_whitespace(text.take(text.len() - k)),
    decreases k,
{
    if k == 0 {
        assert(text.take(text.len() as int) =~= text);
    } else {
        assert(spec_is_whitespace(text[text.len() - 1]));
        let rest = text.drop_last();
        assert forall|j: int| rest.len() - (k - 1) <= j < rest.len() implies spec_is_whitespace(
            #[trigger] rest[j],
        ) by {
            assert(rest[j] == text[j]);
        }
        lemma_trailing_step(rest, k - 1);
        assert(rest.take(rest.len() - (k - 1)) =~= text.take(text.len() - k));
    }
}

/// `chars` without the white space at its start and at its end.
pub fn trim_chars(chars: &Vec<char>) -> (trimmed: Vec<char>)
    ensures
        trimmed@ == trim_seq(chars@),
{
    let mut start: usize = 0;
    while start < chars.len() && is_whitespace(chars[start])
        invariant
            start <= chars.len(),
            forall|j: int| 0 <= j < start ==> spec_is_whitespace(#[trigger] chars@[j]),
        decreases chars.len() - start,
    {
        start = start + 1;
    }
    proof {
        lemma_leading_step(chars@, start as int);
        if start < chars.len() {
            assert(chars@.skip(start as int)[0] == chars@[start as int]);
        }
        assert(leading_whitespace(chars@) == start);
    }
    let ghost rest = chars@.skip(start as int);
    let mut end: usize = chars.len();
    while end > start && is_whitespace(chars[end - 1])
        invariant
            start <= end <= chars.len(),
            rest == chars@.skip(start as int),
            forall|j: int| end - start <= j < rest.len() ==> spec_is_whitespace(#[trigger] rest[j]),
        decreases end,
    {
        end = end - 1;
    }
    proof {
        lemma_trailing_step(rest, chars.len() - end);
        let kept = rest.take(rest.len() - (chars.len() - end));
        if end > start {
            assert(kept.last() == chars@[end - 1]);
        }
        assert(trailing_whitespace(rest) == chars.len() - end);
        assert(chars@.subrange(start as int, end as int) =~= rest.take(end - start));
    }
    slice_chars(chars, start, end)
}

/// Whether `chars` begins with `prefix`.
pub fn chars_start_with(chars: &Vec<char>, prefix: &str) -> (yes: bool)
    ensures
        yes == starts_with_seq(chars@, prefix@),
{
    let prefix_chars = chars_of(prefix);
    chars_occur_at(chars, &prefix_chars, 0)
}

/// Whether `chars` ends with `suffix`.
pub fn chars_end_with(chars: &Vec<char>, suffix: &str) -> (yes: bool)
    ensures
        yes == ends_with_seq(chars@, suffix@),
{
    let suffix_chars = chars_of(suffix);
    if suffix_chars.len() > chars.len() {
        return false;
    }
    chars_occur_at(chars, &suffix_chars, chars.len() - suffix_chars.len())
}

/// Whether `c` first occurs in `text` at position `p`.
pub open spec fn is_first_at(text: Seq<char>, c: char, p: int) -> bool {
    &&& 0 <= p < text.len()
    &&& text[p] == c
    &&& forall|q: int| 0 <= q < p ==> text[q] != c
}

/// The position at which `c` first occurs in `text`.
pub open spec fn spec_position(text: Seq<char>, c: char) -> Option<int> {
    if exists|p: int| is_first_at(text, c, p) {
        Some(choose|p: int| is_first_at(text, c, p))
    } else {
        None
    }
}

/// There is one first occurrence at most.
pub proof fn lemma_position_is_unique(text: Seq<char>, c: char, p: int)
    requires
        is_first_at(text, c, p),
    ensures
        spec_position(text, c) == Some(p),
{
    let w = choose|w: int| is_first_at(text, c, w);
    if w < p {
        assert(text[w] != c);
    } else if p < w {
        assert(text[p] != c);
    }
}

/// The position at which `c` first occurs in `chars`.
pub fn position_of(chars: &Vec<char>, c: char) -> (at: Option<usize>)
    ensures
        match at {
            Some(p) => spec_position(chars@, c) == Some(p as int) && p < chars.len(),
            None => spec_position(chars@, c) is None,
        },
{
    match find_char_from(chars, c, 0) {
        Some(p) => {
            proof {
                lemma_position_is_unique(chars@, c, p as int);
            }
            Some(p)
        },
        None => None,
    }
}

/// The first line of `text`: what stands before the first line feed, less
/// one carriage return at its end; the whole text where there is no line
/// feed.
pub open spec fn spec_first_line(text: Seq<char>) -> Seq<char> {
    match spec_position(text, '\n') {
        None => text,
        Some(p) => if p > 0 && text[p - 1] == '\r' {
            text.take(p - 1)
        } else {
            text.take(p)
        },
    }
}

/// The first line of `chars`.
pub fn first_line(chars: &Vec<char>) -> (line: Vec<char>)
    ensures
        line@ == spec_first_line(chars@),
{
    match position_of(chars, '\n') {
        None => {
            assert(chars@.subrange(0, chars.len() as int) =~= chars@);
            slice_chars(chars, 0, chars.len())
        },
        Some(p) => {
            let end: usize = if p > 0 && chars[p - 1] == '\r' {
                p - 1
            } else {
                p
            };
            assert(chars@.subrange(0, end as int) =~= chars@.take(end as int));
            slice_chars(chars, 0, end)
        },
    }
}

/// The parts of `text` between the separators, in order. A text without a
/// separator is one part.
pub open spec fn spec_split(text: Seq<char>, sep: char) -> Seq<Seq<char>>
    decreases text.len(),
{
    if text.len() == 0 {
        seq![Seq::<char>::empty()]
    } else {
        let before = spec_split(text.drop_last(), sep);
        if text.last() == sep {
            before.push(Seq::<char>::empty())
        } else {
            before.drop_last().push(before.last().push(text.last()))
        }
    }
}

/// Splits `chars` at every occurrence of `sep`.
pub fn split_chars(chars: &Vec<char>, sep: char) -> (parts: Vec<Vec<char>>)
    ensures
        parts@.map_values(|p: Vec<char>| p@) == spec_split(chars@, sep),
        parts.len() >= 1,
{
    let ghost view_of = |p: Vec<char>| p@;
    let mut parts: Vec<Vec<char>> = Vec::new();
    let mut current: Vec<char> = Vec::new();
    let mut i: usize = 0;
    proof {
        assert(chars@.take(0) =~= Seq::<char>::empty());
        assert(parts@.map_values(view_of).push(current@) =~= spec_split(chars@.take(0), sep));
    }
    while i < chars.len()
        invariant
            i <= chars.len(),
            view_of == (|p: Vec<char>| p@),
            parts@.map_values(view_of).push(current@) == spec_split(chars@.take(i as int), sep),
        decreases chars.len() - i,
    {
        let ghost done = parts@.map_values(view_of);
        let ghost open_part = current@;
        proof {
            assert(chars@.take(i + 1).drop_last() =~= chars@.take(i as int));
            assert(chars@.take(i + 1).last() == chars@[i as int]);
            assert(done.push(open_part).drop_last() =~= done);
            assert(done.push(open_part).last() == open_part);
        }
        if chars[i] == sep {
            parts.push(current);
            current = Vec::new();
            proof {
                assert(parts@.map_values(view_of) =~= done.push(open_part));
            }
        } else {
            current.push(chars[i]);
        }
        i = i + 1;
    }
    proof {
        assert(chars@.take(chars.len() as int) =~= chars@);
    }
    let ghost done = parts@.map_values(view_of);
    let ghost open_part = current@;
    parts.push(current);
    assert(parts@.map_values(view_of) =~= done.push(open_part));
    parts
}

/// The parts of `text` between its white space characters, in order, the
/// empty parts between two neighbours included.
pub open spec fn spec_split_whitespace(text: Seq<char>) -> Seq<Seq<char>>
    decreases text.len(),
{
    if text.len() == 0 {
        seq![Seq::<char>::empty()]
    } else {
        let before = spec_split_whitespace(text.drop_last());
        if spec_is_whitespace(text.last()) {
            before.push(Seq::<char>::empty())
        } else {
            before.drop_last().push(before.last().push(text.last()))
        }
    }
}

/// Splits `chars` at every white space character.
pub fn split_whitespace_chars(chars: &Vec<char>) -> (parts: Vec<Vec<char>>)
    ensures
        parts@.map_values(|p: Vec<char>| p@) == spec_split_whitespace(chars@),
        parts.len() >= 1,
{
    let ghost view_of = |p: Vec<char>| p@;
    let mut parts: Vec<Vec<char>> = Vec::new();
    let mut current: Vec<char> = Vec::new();
    let mut i: usize = 0;
    proof {
        assert(chars@.take(0) =~= Seq::<char>::empty());
        assert(parts@.map_values(view_of).push(current@) =~= spec_split_whitespace(chars@.take(0)));
    }
    while i < chars.len()
        invariant
            i <= chars.len(),
            view_of == (|p: Vec<char>| p@),
            parts@.map_values(view_of).push(current@) == spec_split_whitespace(chars@.take(i as int)),
        decreases chars.len() - i,
    {
        let ghost done = parts@.map_values(view_of);
        let ghost open_part = current@;
        proof {
            assert(chars@.take(i + 1).drop_last() =~= chars@.take(i as int));
            assert(chars@.take(i + 1).last() == chars@[i as int]);
            assert(done.push(open_part).drop_last() =~= done);
            assert(done.push(open_part).last() == open_part);
        }
        if is_whitespace(chars[i]) {
            parts.push(current);
            current = Vec::new();
            proof {
                assert(parts@.map_values(view_of) =~= done.push(open_part));
            }
        } else {
            current.push(chars[i]);
        }
        i = i + 1;
    }
    proof {
        assert(chars@.take(chars.len() as int) =~= chars@);
    }
    let ghost done = parts@.map_values(view_of);
    let ghost open_part = current@;
    parts.push(current);
    assert(parts@.map_values(view_of) =~= done.push(open_part));
    parts
}

} // verus!
