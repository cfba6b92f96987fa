//! Text handling on character sequences: conversions, decimal numbers,
//! searching and replacing.

use vstd::prelude::*;

verus! {

/// `String::push`: appends one character.
pub assume_specification[ String::push ](text: &mut String, c: char)
    ensures
        final(text)@ == old(text)@.push(c),
;

/// The characters of `text`, in order.
pub fn to_chars(text: &str) -> (chars: Vec<char>)
    ensures
        chars@ == text@,
{
    let mut chars: Vec<char> = Vec::new();
    for c in it: text.chars()
        invariant
            chars@ == it.seq().take(it.index@),
    {
        chars.push(c);
    }
    chars
}

/// The string made of `chars`, in order.
pub fn from_chars(chars: &Vec<char>) -> (text: String)
    ensures
        text@ == chars@,
{
    let mut text = String::new();
    let mut i: usize = 0;
    while i < chars.len()
        invariant
            i <= chars.len(),
            text@ == chars@.take(i as int),
        decreases chars.len() - i,
    {
        text.push(chars[i]);
        i += 1;
        assert(text@ =~= chars@.take(i as int));
    }
    assert(chars@.take(i as int) =~= chars@);
    text
}

/// Whether two character vectors hold the same text.
pub fn same_text(a: &Vec<char>, b: &Vec<char>) -> (same: bool)
    ensures
        same == (a@ == b@),
{
    if a.len() != b.len() {
        return false;
    }
    let mut i: usize = 0;
    while i < a.len()
        invariant
            a.len() == b.len(),
            i <= a.len(),
            a@.take(i as int) == b@.take(i as int),
        decreases a.len() - i,
    {
        if a[i] != b[i] {
            return false;
        }
        i += 1;
        assert(a@.take(i as int) =~= a@.take(i - 1).push(a@[i - 1]));
        assert(b@.take(i as int) =~= b@.take(i - 1).push(b@[i - 1]));
    }
    assert(a@.take(i as int) =~= a@);
    assert(b@.take(i as int) =~= b@);
    true
}

/// Whether `chars` holds the text of `literal`.
pub fn is_text(chars: &Vec<char>, literal: &str) -> (same: bool)
    ensures
        same == (chars@ == literal@),
{
    let other = to_chars(literal);
    same_text(chars, &other)
}

/// A copy of the characters `from..to` of `chars`.
pub fn slice_chars(chars: &Vec<char>, from: usize, to: usize) -> (part: Vec<char>)
    requires
        from <= to <= chars.len(),
    ensures
        part@ == chars@.subrange(from as int, to as int),
{
    let mut part: Vec<char> = Vec::new();
    let mut i: usize = from;
    while i < to
        invariant
            from <= i <= to <= chars.len(),
            part@ == chars@.subrange(from as int, i as int),
        decreases to - i,
    {
        part.push(chars[i]);
        i += 1;
        assert(part@ =~= chars@.subrange(from as int, i as int));
    }
    part
}

/// Appends `extra` to `out`.
pub fn append_chars(out: &mut Vec<char>, extra: &Vec<char>)
    ensures
        final(out)@ == old(out)@ + extra@,
{
    let mut i: usize = 0;
    while i < extra.len()
        invariant
            i <= extra.len(),
            out@ == old(out)@ + extra@.take(i as int),
        decreases extra.len() - i,
    {
        out.push(extra[i]);
        i += 1;
        assert(out@ =~= old(out)@ + extra@.take(i as int));
    }
    assert(extra@.take(i as int) =~= extra@);
}

/// Appends the text of `literal` to `out`.
pub fn append_text(out: &mut Vec<char>, literal: &str)
    ensures
        final(out)@ == old(out)@ + literal@,
{
    let extra = to_chars(literal);
    append_chars(out, &extra);
}

/// Whether `c` is one of the decimal digits `0` to `9`.
pub open spec fn is_digit(c: char) -> bool {
    '0' <= c && c <= '9'
}

/// Value of a decimal digit.
pub open spec fn digit_value(c: char) -> nat
    recommends
        is_digit(c),
{
    (c as u32 - '0' as u32) as nat
}

/// The digit that stands for `d`.
pub open spec fn digit_char(d: nat) -> char
    recommends
        d < 10,
{
    if d == 0 {
        '0'
    } else if d == 1 {
        '1'
    } else if d == 2 {
        '2'
    } else if d == 3 {
        '3'
    } else if d == 4 {
        '4'
    } else if d == 5 {
        '5'
    } else if d == 6 {
        '6'
    } else if d == 7 {
        '7'
    } else if d == 8 {
        '8'
    } else {
        '9'
    }
}

/// Whether every character of `text` is a decimal digit.
pub open spec fn all_digits(text: Seq<char>) -> bool {
    forall|i: int| 0 <= i < text.len() ==> is_digit(#[trigger] text[i])
}

/// Number that a run of decimal digits stands for; the empty run stands for zero.
pub open spec fn digits_value(text: Seq<char>) -> nat
    decreases text.len(),
{
    if text.len() == 0 {
        0
    } else {
        digits_value(text.drop_last()) * 10 + digit_value(text.last())
    }
}

/// Decimal notation of `n`, without leading zeros.
pub open spec fn decimal_text(n: nat) -> Seq<char>
    decreases n,
{
    if n < 10 {
        seq![digit_char(n)]
    } else {
        decimal_text(n / 10).push(digit_char(n % 10))
    }
}

/// `count` zeros.
pub open spec fn zeros(count: nat) -> Seq<char> {
    Seq::new(count, |i: int| '0')
}

/// Decimal notation of `n`, filled up with leading zeros to `width`
/// characters; longer numbers are not shortened.
pub open spec fn padded_decimal_text(n: nat, width: nat) -> Seq<char> {
    if decimal_text(n).len() >= width {
        decimal_text(n)
    } else {
        zeros((width - decimal_text(n).len()) as nat) + decimal_text(n)
    }
}

/// Number that an unsigned decimal numeral stands for: an optional `+`
/// followed by at least one digit. `None` for any other text.
pub open spec fn unsigned_value(text: Seq<char>) -> Option<nat> {
    let digits = if text.len() > 0 && text[0] == '+' {
        text.drop_first()
    } else {
        text
    };
    if digits.len() > 0 && all_digits(digits) {
        Some(digits_value(digits))
    } else {
        None
    }
}

/// Number that a signed decimal numeral stands for: an optional `+` or `-`
/// followed by at least one digit. `None` for any other text.
pub open spec fn signed_value(text: Seq<char>) -> Option<int> {
    if text.len() > 0 && text[0] == '-' {
        if text.len() > 1 && all_digits(text.drop_first()) {
            Some(-(digits_value(text.drop_first()) as int))
        } else {
            None
        }
    } else {
        match unsigned_value(text) {
            Some(v) => Some(v as int),
            None => None,
        }
    }
}

/// The value of a digit run grows with every digit.
pub proof fn lemma_digits_value_take(text: Seq<char>, n: int)
    requires
        0 <= n < text.len(),
    ensures
        digits_value(text.take(n + 1)) == digits_value(text.take(n)) * 10 + digit_value(text[n]),
{
    assert(text.take(n + 1).drop_last() =~= text.take(n));
}

/// Whether `c` is a decimal digit.
pub fn char_is_digit(c: char) -> (digit: bool)
    ensures
        digit == is_digit(c),
{
    '0' <= c && c <= '9'
}

/// Value of the decimal digit `c`.
pub fn char_digit_value(c: char) -> (value: u64)
    requires
        is_digit(c),
    ensures
        value == digit_value(c),
        value < 10,
{
    (c as u32 - '0' as u32) as u64
}

/// Reads the digit run `from..to` of `chars` as a number. `None` if a
/// character is not a digit or the number does not fit in 64 bits.
pub fn parse_digits(chars: &Vec<char>, from: usize, to: usize) -> (value: Option<u64>)
    requires
        from <= to <= chars.len(),
    ensures
        value is Some == (all_digits(chars@.subrange(from as int, to as int)) && digits_value(
            chars@.subrange(from as int, to as int),
        ) <= u64::MAX),
        value is Some ==> value->0 == digits_value(chars@.subrange(from as int, to as int)),
{
    let ghost run = chars@.subrange(from as int, to as int);
    let mut value: u64 = 0;
    let mut i: usize = from;
    assert(run.take(0) =~= Seq::<char>::empty());
    while i < to
        invariant
            from <= i <= to <= chars.len(),
            run == chars@.subrange(from as int, to as int),
            all_digits(run.take(i - from)),
            value == digits_value(run.take(i - from)),
        decreases to - i,
    {
        let c = chars[i];
        assert(run[i - from] == c);
        if !char_is_digit(c) {
            return None;
        }
        proof {
            lemma_digits_value_take(run, i - from);
            lemma_digits_value_monotone(run, i - from + 1);
        }
        let d = char_digit_value(c);
        if value > (u64::MAX - d) / 10 {
            return None;
        }
        value = value * 10 + d;
        i += 1;
        assert forall|k: int| 0 <= k < run.take(i - from).len() implies is_digit(
            #[trigger] run.take(i - from)[k],
        ) by {
            if k < i - from - 1 {
                assert(run.take(i - from)[k] == run.take(i - from - 1)[k]);
            }
        }
    }
    assert(run.take(to - from) =~= run);
    Some(value)
}

/// The value of a prefix of a digit run never exceeds the value of the run.
pub proof fn lemma_digits_value_monotone(text: Seq<char>, n: int)
    requires
        0 <= n <= text.len(),
    ensures
        digits_value(text.take(n)) <= digits_value(text),
    decreases text.len() - n,
{
    if n < text.len() {
        lemma_digits_value_take(text, n);
        lemma_digits_value_monotone(text, n + 1);
    } else {
        assert(text.take(n) =~= text);
    }
}

/// Reads `chars` as an unsigned decimal numeral. `None` if it is not one or
/// the number does not fit in 64 bits.
pub fn parse_unsigned(chars: &Vec<char>) -> (value: Option<u64>)
    ensures
        value is Some == (unsigned_value(chars@) is Some && unsigned_value(chars@)->0 <= u64::MAX),
        value is Some ==> value->0 == unsigned_value(chars@)->0,
{
    let start: usize = if chars.len() > 0 && chars[0] == '+' {
        1
    } else {
        0
    };
    if start == chars.len() {
        return None;
    }
    assert(chars@.subrange(start as int, chars.len() as int) =~= if start == 1 {
        chars@.drop_first()
    } else {
        chars@
    });
    parse_digits(chars, start, chars.len())
}

/// Reads `chars` as a signed decimal numeral. `None` if it is not one or the
/// number does not fit in 64 bits.
pub fn parse_signed(chars: &Vec<char>) -> (value: Option<i64>)
    ensures
        value is Some == (signed_value(chars@) is Some && i64::MIN <= signed_value(chars@)->0
            <= i64::MAX),
        value is Some ==> value->0 == signed_value(chars@)->0,
{
    if chars.len() > 0 && chars[0] == '-' {
        if chars.len() == 1 {
            return None;
        }
        assert(chars@.subrange(1, chars.len() as int) =~= chars@.drop_first());
        match parse_digits(chars, 1, chars.len()) {
            Some(v) => {
                if v <= i64::MAX as u64 {
                    Some(-(v as i64))
                } else if v == i64::MAX as u64 + 1 {
                    Some(i64::MIN)
                } else {
                    None
                }
            },
            None => None,
        }
    } else {
        match parse_unsigned(chars) {
            Some(v) => {
                if v <= i64::MAX as u64 {
                    Some(v as i64)
                } else {
                    None
                }
            },
            None => None,
        }
    }
}

/// The digit that stands for `d`.
pub fn digit_to_char(d: u64) -> (c: char)
    requires
        d < 10,
    ensures
        c == digit_char(d as nat),
{
    if d == 0 {
        '0'
    } else if d == 1 {
        '1'
    } else if d == 2 {
        '2'
    } else if d == 3 {
        '3'
    } else if d == 4 {
        '4'
    } else if d == 5 {
        '5'
    } else if d == 6 {
        '6'
    } else if d == 7 {
        '7'
    } else if d == 8 {
        '8'
    } else {
        '9'
    }
}

/// Appends the decimal notation of `n` to `out`.
pub fn push_decimal(out: &mut Vec<char>, n: u64)
    ensures
        final(out)@ == old(out)@ + decimal_text(n as nat),
    decreases n,
{
    if n >= 10 {
        push_decimal(out, n / 10);
    }
    out.push(digit_to_char(n % 10));
    assert(out@ =~= old(out)@ + decimal_text(n as nat));
}

/// Decimal notation of `n`.
pub fn decimal_chars(n: u64) -> (text: Vec<char>)
    ensures
        text@ == decimal_text(n as nat),
{
    let mut text: Vec<char> = Vec::new();
    push_decimal(&mut text, n);
    assert(text@ =~= decimal_text(n as nat));
    text
}

/// Appends the decimal notation of `n`, filled up with leading zeros to
/// `width` characters.
pub fn push_padded_decimal(out: &mut Vec<char>, n: u64, width: usize)
    ensures
        final(out)@ == old(out)@ + padded_decimal_text(n as nat, width as nat),
{
    let digits = decimal_chars(n);
    let mut filled: usize = digits.len();
    while filled < width
        invariant
            filled >= digits.len(),
            filled <= width || filled == digits.len(),
            out@ == old(out)@ + zeros((filled - digits.len()) as nat),
        decreases width - filled,
    {
        out.push('0');
        filled += 1;
        assert(out@ =~= old(out)@ + zeros((filled - digits.len()) as nat));
    }
    append_chars(out, &digits);
    assert(out@ =~= old(out)@ + padded_decimal_text(n as nat, width as nat));
}

/// Position of the first `target` among the characters `from..to`, or `to`
/// if there is none.
pub open spec fn first_index_of(text: Seq<char>, target: char, from: int, to: int) -> int
    decreases to - from,
{
    if from >= to {
        to
    } else if text[from] == target {
        from
    } else {
        first_index_of(text, target, from + 1, to)
    }
}

/// `first_index_of` lies in `from..=to`, points at `target` when it is below
/// `to`, and no earlier character in the range is `target`.
pub proof fn lemma_first_index_of(text: Seq<char>, target: char, from: int, to: int)
    requires
        0 <= from <= to <= text.len(),
    ensures
        from <= first_index_of(text, target, from, to) <= to,
        first_index_of(text, target, from, to) < to ==> text[first_index_of(
            text,
            target,
            from,
            to,
        )] == target,
        forall|k: int| from <= k < first_index_of(text, target, from, to) ==> text[k] != target,
    decreases to - from,
{
    if from < to && text[from] != target {
        lemma_first_index_of(text, target, from + 1, to);
    }
}

/// Position of the first `target` among the characters `from..to` of
/// `chars`, or `to` if there is none.
pub fn find_char(chars: &Vec<char>, target: char, from: usize, to: usize) -> (position: usize)
    requires
        from <= to <= chars.len(),
    ensures
        position == first_index_of(chars@, target, from as int, to as int),
        from <= position <= to,
{
    let mut i: usize = from;
    while i < to
        invariant
            from <= i <= to <= chars.len(),
            first_index_of(chars@, target, from as int, to as int) == first_index_of(
                chars@,
                target,
                i as int,
                to as int,
            ),
        decreases to - i,
    {
        if chars[i] == target {
            return i;
        }
        i += 1;
    }
    i
}

/// Position of the last `target` in `text`, or `-1` if there is none.
pub open spec fn last_index_of(text: Seq<char>, target: char) -> int
    decreases text.len(),
{
    if text.len() == 0 {
        -1
    } else if text.last() == target {
        text.len() - 1
    } else {
        last_index_of(text.drop_last(), target)
    }
}

/// `last_index_of` is `-1` or a position of `target`, and no later
/// character is `target`.
pub proof fn lemma_last_index_of(text: Seq<char>, target: char)
    ensures
        -1 <= last_index_of(text, target) < text.len(),
        last_index_of(text, target) >= 0 ==> text[last_index_of(text, target)] == target,
        forall|k: int| last_index_of(text, target) < k < text.len() ==> text[k] != target,
    decreases text.len(),
{
    if text.len() > 0 && text.last() != target {
        lemma_last_index_of(text.drop_last(), target);
        assert forall|k: int| last_index_of(text, target) < k < text.len() implies text[k]
            != target by {
            if k < text.len() - 1 {
                assert(text[k] == text.drop_last()[k]);
            }
        }
    }
}

/// Position of the last `target` in `chars`; `None` if there is none.
pub fn find_last_char(chars: &Vec<char>, target: char) -> (position: Option<usize>)
    ensures
        position is Some ==> position->0 == last_index_of(chars@, target) && position->0
            < chars@.len(),
        position is None ==> last_index_of(chars@, target) == -1,
{
    let mut i: usize = chars.len();
    assert(chars@.take(i as int) =~= chars@);
    while i > 0
        invariant
            i <= chars.len(),
            last_index_of(chars@, target) == last_index_of(chars@.take(i as int), target),
        decreases i,
    {
        assert(chars@.take(i as int).last() == chars@[i - 1]);
        assert(chars@.take(i as int).drop_last() =~= chars@.take(i - 1));
        if chars[i - 1] == target {
            return Some(i - 1);
        }
        i -= 1;
    }
    None
}

/// Whether `text` holds `pattern` at position `at`.
pub open spec fn matches_at(text: Seq<char>, pattern: Seq<char>, at: int) -> bool {
    0 <= at && at + pattern.len() <= text.len() && text.subrange(at, at + pattern.len())
        == pattern
}

/// Whether `chars` holds `pattern` at position `at`.
pub fn has_match_at(chars: &Vec<char>, pattern: &Vec<char>, at: usize) -> (found: bool)
    ensures
        found == matches_at(chars@, pattern@, at as int),
{
    if pattern.len() > chars.len() || at > chars.len() - pattern.len() {
        return false;
    }
    let ghost window = chars@.subrange(at as int, at + pattern.len());
    let mut i: usize = 0;
    while i < pattern.len()
        invariant
            i <= pattern.len(),
            at + pattern.len() <= chars.len(),
            window == chars@.subrange(at as int, at + pattern.len()),
            window.take(i as int) == pattern@.take(i as int),
        decreases pattern.len() - i,
    {
        if chars[at + i] != pattern[i] {
            assert(window[i as int] != pattern@[i as int]);
            return false;
        }
        i += 1;
        assert(window.take(i as int) =~= window.take(i - 1).push(window[i - 1]));
        assert(pattern@.take(i as int) =~= pattern@.take(i - 1).push(pattern@[i - 1]));
    }
    assert(window.take(i as int) =~= window);
    assert(pattern@.take(i as int) =~= pattern@);
    true
}

/// Whether `pattern` occurs somewhere in `text`.
pub open spec fn contains_text(text: Seq<char>, pattern: Seq<char>) -> bool {
    exists|at: int| matches_at(text, pattern, at)
}

/// Whether `pattern` occurs somewhere in `chars`.
pub fn has_text(chars: &Vec<char>, pattern: &Vec<char>) -> (found: bool)
    ensures
        found == contains_text(chars@, pattern@),
{
    let mut at: usize = 0;
    loop
        invariant
            at <= chars.len(),
            forall|k: int| 0 <= k < at ==> !matches_at(chars@, pattern@, k),
        decreases chars.len() - at,
    {
        if has_match_at(chars, pattern, at) {
            return true;
        }
        if at >= chars.len() {
            return false;
        }
        at += 1;
    }
}

/// `text` with every occurrence of `pattern` replaced by `with`, scanning
/// from the left and continuing behind each occurrence. An empty pattern
/// replaces nothing.
pub open spec fn replace_all(text: Seq<char>, pattern: Seq<char>, with: Seq<char>) -> Seq<char>
    decreases text.len(),
{
    if pattern.len() == 0 || text.len() < pattern.len() {
        text
    } else if matches_at(text, pattern, 0) {
        with + replace_all(text.skip(pattern.len() as int), pattern, with)
    } else {
        seq![text[0]] + replace_all(text.drop_first(), pattern, with)
    }
}

/// `text` where the stretches at which `shadow` holds `pattern` are replaced
/// by `with`, scanning from the left and continuing behind each stretch.
/// `shadow` is a text of the same length that is searched in place of
/// `text`. An empty pattern replaces nothing.
pub open spec fn replace_where(
    text: Seq<char>,
    shadow: Seq<char>,
    pattern: Seq<char>,
    with: Seq<char>,
) -> Seq<char>
    recommends
        text.len() == shadow.len(),
    decreases shadow.len(),
{
    if pattern.len() == 0 || shadow.len() < pattern.len() {
        text
    } else if matches_at(shadow, pattern, 0) {
        with + replace_where(
            text.skip(pattern.len() as int),
            shadow.skip(pattern.len() as int),
            pattern,
            with,
        )
    } else {
        seq![text[0]] + replace_where(text.drop_first(), shadow.drop_first(), pattern, with)
    }
}

/// Replacing where the text itself holds the pattern is plain replacement.
pub proof fn lemma_replace_where_self(text: Seq<char>, pattern: Seq<char>, with: Seq<char>)
    ensures
        replace_where(text, text, pattern, with) == replace_all(text, pattern, with),
    decreases text.len(),
{
    if pattern.len() == 0 || text.len() < pattern.len() {
    } else if matches_at(text, pattern, 0) {
        lemma_replace_where_self(text.skip(pattern.len() as int), pattern, with);
    } else {
        lemma_replace_where_self(text.drop_first(), pattern, with);
    }
}

/// `text` where the stretches at which `shadow` holds `pattern` are replaced
/// by `with`.
pub fn replace_matches(
    text: &Vec<char>,
    shadow: &Vec<char>,
    pattern: &Vec<char>,
    with: &Vec<char>,
) -> (result: Vec<char>)
    requires
        text.len() == shadow.len(),
    ensures
        result@ == replace_where(text@, shadow@, pattern@, with@),
{
    let mut result: Vec<char> = Vec::new();
    let n = text.len();
    let mut at: usize = 0;
    assert(text@.skip(0) =~= text@);
    assert(shadow@.skip(0) =~= shadow@);
    while at < n
        invariant
            at <= n,
            n == text.len(),
            n == shadow.len(),
            replace_where(text@, shadow@, pattern@, with@) == result@ + replace_where(
                text@.skip(at as int),
                shadow@.skip(at as int),
                pattern@,
                with@,
            ),
        decreases n - at,
    {
        let ghost rest_text = text@.skip(at as int);
        let ghost rest_shadow = shadow@.skip(at as int);
        let ghost before = result@;
        if pattern.len() == 0 || n - at < pattern.len() {
            let rest = slice_chars(text, at, n);
            assert(rest@ =~= rest_text);
            append_chars(&mut result, &rest);
            return result;
        }
        let found = has_match_at(shadow, pattern, at);
        assert(found == matches_at(rest_shadow, pattern@, 0)) by {
            assert(rest_shadow.subrange(0, pattern@.len() as int) =~= shadow@.subrange(
                at as int,
                at + pattern@.len(),
            ));
        }
        if found {
            append_chars(&mut result, with);
            at += pattern.len();
            assert(text@.skip(at as int) =~= rest_text.skip(pattern@.len() as int));
            assert(shadow@.skip(at as int) =~= rest_shadow.skip(pattern@.len() as int));
            assert(result@ + replace_where(
                text@.skip(at as int),
                shadow@.skip(at as int),
                pattern@,
                with@,
            ) =~= before + (with@ + replace_where(
                text@.skip(at as int),
                shadow@.skip(at as int),
                pattern@,
                with@,
            )));
        } else {
            result.push(text[at]);
            at += 1;
            assert(text@.skip(at as int) =~= rest_text.drop_first());
            assert(shadow@.skip(at as int) =~= rest_shadow.drop_first());
            assert(result@ + replace_where(
                text@.skip(at as int),
                shadow@.skip(at as int),
                pattern@,
                with@,
            ) =~= before + (seq![rest_text[0]] + replace_where(
                text@.skip(at as int),
                shadow@.skip(at as int),
                pattern@,
                with@,
            )));
        }
    }
    assert(text@.skip(n as int) =~= Seq::<char>::empty());
    assert(result@ + Seq::<char>::empty() =~= result@);
    result
}

/// Decimal notation of an integer, with a minus sign if it is negative.
pub open spec fn signed_decimal_text(value: int) -> Seq<char> {
    if value < 0 {
        seq!['-'] + decimal_text((-value) as nat)
    } else {
        decimal_text(value as nat)
    }
}

/// Appends the decimal notation of `value`.
pub fn push_signed_decimal(out: &mut Vec<char>, value: i64)
    ensures
        final(out)@ == old(out)@ + signed_decimal_text(value as int),
{
    if value < 0 {
        out.push('-');
        let magnitude: u64 = if value == i64::MIN {
            9_223_372_036_854_775_808u64
        } else {
            (-value) as u64
        };
        push_decimal(out, magnitude);
        assert(out@ =~= old(out)@ + signed_decimal_text(value as int));
    } else {
        push_decimal(out, value as u64);
    }
}

/// Whether `c` is white space: a character with the Unicode property
/// `White_Space`.
pub open spec fn is_whitespace(c: char) -> bool {
    let code = c as u32;
    ||| 0x09 <= code <= 0x0D
    ||| code == 0x20
    ||| code == 0x85
    ||| code == 0xA0
    ||| code == 0x1680
    ||| 0x2000 <= code <= 0x200A
    ||| code == 0x2028
    ||| code == 0x2029
    ||| code == 0x202F
    ||| code == 0x205F
    ||| code == 0x3000
}

/// Whether `c` is white space.
pub fn char_is_whitespace(c: char) -> (white: bool)
    ensures
        white == is_whitespace(c),
{
    let code = c as u32;
    (0x09 <= code && code <= 0x0D) || code == 0x20 || code == 0x85 || code == 0xA0 || code
        == 0x1680 || (0x2000 <= code && code <= 0x200A) || code == 0x2028 || code == 0x2029
        || code == 0x202F || code == 0x205F || code == 0x3000
}

/// Whether `text` holds nothing but white space.
pub open spec fn is_blank(text: Seq<char>) -> bool {
    forall|i: int| 0 <= i < text.len() ==> is_whitespace(#[trigger] text[i])
}

/// Whether `chars` holds nothing but white space.
pub fn chars_are_blank(chars: &Vec<char>) -> (blank: bool)
    ensures
        blank == is_blank(chars@),
{
    let mut i: usize = 0;
    while i < chars.len()
        invariant
            i <= chars.len(),
            forall|k: int| 0 <= k < i ==> is_whitespace(#[trigger] chars@[k]),
        decreases chars.len() - i,
    {
        if !char_is_whitespace(chars[i]) {
            return false;
        }
        i += 1;
    }
    true
}

/// Searching a tail of a text finds what searching the text from the
/// tail's start finds.
pub proof fn lemma_first_index_shift(text: Seq<char>, target: char, from: int, to: int)
    requires
        0 <= from <= to <= text.len(),
    ensures
        first_index_of(text.subrange(from, to), target, 0, to - from) == first_index_of(
            text,
            target,
            from,
            to,
        ) - from,
{
    lemma_first_index_shift_from(text, target, from, to, 0);
}

/// Searching a tail of a text from position `k` finds what searching the
/// text from the matching position finds.
proof fn lemma_first_index_shift_from(text: Seq<char>, target: char, from: int, to: int, k: int)
    requires
        0 <= from <= to <= text.len(),
        0 <= k <= to - from,
    ensures
        first_index_of(text.subrange(from, to), target, k, to - from) == first_index_of(
            text,
            target,
            from + k,
            to,
        ) - from,
    decreases to - from - k,
{
    if k < to - from {
        assert(text.subrange(from, to)[k] == text[from + k]);
        lemma_first_index_shift_from(text, target, from, to, k + 1);
    }
}

/// The parts of `text` between occurrences of `separator`, in order. A text
/// with `n` separators has `n + 1` parts.
pub open spec fn split_on(text: Seq<char>, separator: char) -> Seq<Seq<char>>
    decreases text.len(),
{
    let cut = first_index_of(text, separator, 0, text.len() as int);
    if cut < 0 || cut >= text.len() {
        seq![text]
    } else {
        seq![text.take(cut)] + split_on(text.skip(cut + 1), separator)
    }
}

/// Texts of a sequence of character vectors, in order.
pub open spec fn texts_of(parts: Seq<Vec<char>>) -> Seq<Seq<char>> {
    parts.map_values(|part: Vec<char>| part@)
}

/// The parts of the characters `from..to` of `chars` between occurrences of
/// `separator`.
pub fn split_range(chars: &Vec<char>, from: usize, to: usize, separator: char) -> (parts: Vec<
    Vec<char>,
>)
    requires
        from <= to <= chars.len(),
    ensures
        texts_of(parts@) == split_on(chars@.subrange(from as int, to as int), separator),
        parts@.len() >= 1,
{
    let ghost whole = chars@.subrange(from as int, to as int);
    let mut parts: Vec<Vec<char>> = Vec::new();
    let mut at: usize = from;
    loop
        invariant
            from <= at <= to <= chars.len(),
            whole == chars@.subrange(from as int, to as int),
            split_on(whole, separator) == texts_of(parts@) + split_on(
                chars@.subrange(at as int, to as int),
                separator,
            ),
        decreases to - at,
    {
        let ghost rest = chars@.subrange(at as int, to as int);
        let cut = find_char(chars, separator, at, to);
        proof {
            lemma_first_index_shift(chars@, separator, at as int, to as int);
            if at == from {
                assert(whole =~= rest);
            }
        }
        let part = slice_chars(chars, at, cut);
        assert(part@ =~= rest.take(cut - at));
        let ghost before = parts@;
        parts.push(part);
        assert(texts_of(parts@) =~= texts_of(before).push(part@));
        if cut >= to {
            assert(rest.take(cut - at) =~= rest);
            assert(texts_of(before) + seq![rest] =~= texts_of(parts@));
            return parts;
        }
        assert(rest.skip(cut - at + 1) =~= chars@.subrange(cut + 1, to as int));
        assert(texts_of(before) + (seq![rest.take(cut - at)] + split_on(
            rest.skip(cut - at + 1),
            separator,
        )) =~= texts_of(parts@) + split_on(chars@.subrange(cut + 1, to as int), separator));
        at = cut + 1;
    }
}

/// `text` in lower case, as the Unicode character database defines it.
pub uninterp spec fn lowercased(text: Seq<char>) -> Seq<char>;

/// `text` in upper case, as the Unicode character database defines it.
pub uninterp spec fn uppercased(text: Seq<char>) -> Seq<char>;

/// `str::to_lowercase`: the text in lower case.
pub assume_specification[ str::to_lowercase ](text: &str) -> (lower: String)
    ensures
        lower@ == lowercased(text@),
;

/// `str::to_uppercase`: the text in upper case.
pub assume_specification[ str::to_uppercase ](text: &str) -> (upper: String)
    ensures
        upper@ == uppercased(text@),
;

/// The characters of `chars` in lower case.
pub fn lowercase_chars(chars: &Vec<char>) -> (lower: Vec<char>)
    ensures
        lower@ == lowercased(chars@),
{
    let text = from_chars(chars);
    let lower = text.as_str().to_lowercase();
    to_chars(lower.as_str())
}

/// The characters of `chars` in upper case.
pub fn uppercase_chars(chars: &Vec<char>) -> (upper: Vec<char>)
    ensures
        upper@ == uppercased(chars@),
{
    let text = from_chars(chars);
    let upper = text.as_str().to_uppercase();
    to_chars(upper.as_str())
}

/// Whether `chars` holds the text of `literal` somewhere.
pub fn has_literal(chars: &Vec<char>, literal: &str) -> (found: bool)
    ensures
        found == contains_text(chars@, literal@),
{
    let pattern = to_chars(literal);
    has_text(chars, &pattern)
}

} // verus!
