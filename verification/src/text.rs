use crate::cursor::push_char;
use vstd::prelude::*;

verus! {

/// Whether `c` is white space as Unicode defines it (the property White_Space).
pub open spec fn is_space(c: char) -> bool {
    ||| '\u{9}' <= c <= '\u{d}'
    ||| c == ' '
    ||| c == '\u{85}'
    ||| c == '\u{a0}'
    ||| c == '\u{1680}'
    ||| '\u{2000}' <= c <= '\u{200a}'
    ||| c == '\u{2028}'
    ||| c == '\u{2029}'
    ||| c == '\u{202f}'
    ||| c == '\u{205f}'
    ||| c == '\u{3000}'
}

/// Whether `c` is an ASCII decimal digit.
pub open spec fn is_digit(c: char) -> bool {
    '0' <= c <= '9'
}

/// Whether `c` is a plus or minus sign.
pub open spec fn is_sign(c: char) -> bool {
    c == '+' || c == '-'
}

/// `c` with an ASCII capital letter turned into its small letter.
pub open spec fn lower(c: char) -> char {
    if 'A' <= c <= 'Z' {
        ((c as int) + 32) as char
    } else {
        c
    }
}

/// The first offset at or after `i` that holds no white space.
pub open spec fn spaces_end(s: Seq<char>, i: int) -> int
    decreases s.len() - i,
{
    if 0 <= i < s.len() && is_space(s[i]) {
        spaces_end(s, i + 1)
    } else {
        i
    }
}

/// The first offset at or after `i` that holds white space, or the length.
pub open spec fn word_end(s: Seq<char>, i: int) -> int
    decreases s.len() - i,
{
    if 0 <= i < s.len() && !is_space(s[i]) {
        word_end(s, i + 1)
    } else {
        i
    }
}

/// The first offset at or after `i` that holds no digit.
pub open spec fn digits_end(s: Seq<char>, i: int) -> int
    decreases s.len() - i,
{
    if 0 <= i < s.len() && is_digit(s[i]) {
        digits_end(s, i + 1)
    } else {
        i
    }
}

/// The length of `s` without the white space at its end.
pub open spec fn trimmed_len(s: Seq<char>) -> int
    decreases s.len(),
{
    if s.len() > 0 && is_space(s.last()) {
        trimmed_len(s.drop_last())
    } else {
        s.len() as int
    }
}

/// `s` without the white space at either end.
pub open spec fn trimmed(s: Seq<char>) -> Seq<char> {
    let a = spaces_end(s, 0);
    let b = trimmed_len(s);
    if a <= b {
        s.subrange(a, b)
    } else {
        Seq::empty()
    }
}

/// Whether `s` begins with `prefix`.
pub open spec fn starts_with(s: Seq<char>, prefix: Seq<char>) -> bool {
    prefix.len() <= s.len() && s.subrange(0, prefix.len() as int) == prefix
}

/// The maximal runs of characters other than white space in `s`, from offset `i` on.
pub open spec fn fields_from(s: Seq<char>, i: int) -> Seq<Seq<char>>
    decreases s.len() - i,
{
    let a = spaces_end(s, i);
    if 0 <= i && a < s.len() {
        let b = word_end(s, a);
        proof {
            lemma_scan_bounds(s, i);
            lemma_scan_bounds(s, a);
        }
        seq![s.subrange(a, b)] + fields_from(s, b)
    } else {
        Seq::empty()
    }
}

/// The fields of a line: its maximal runs of characters other than white space.
pub open spec fn fields(s: Seq<char>) -> Seq<Seq<char>> {
    fields_from(s, 0)
}

/// A scan from inside the text ends inside it or at its end, never before where it
/// began, and a word that begins on a character other than white space is not empty.
pub proof fn lemma_scan_bounds(s: Seq<char>, i: int)
    requires
        0 <= i <= s.len(),
    ensures
        i <= spaces_end(s, i) <= s.len(),
        i <= word_end(s, i) <= s.len(),
        i <= digits_end(s, i) <= s.len(),
        i < s.len() && !is_space(s[i]) ==> i < word_end(s, i),
        spaces_end(s, i) < s.len() ==> !is_space(s[spaces_end(s, i)]),
        word_end(s, i) < s.len() ==> is_space(s[word_end(s, i)]),
        digits_end(s, i) < s.len() ==> !is_digit(s[digits_end(s, i)]),
    decreases s.len() - i,
{
    if i < s.len() {
        lemma_scan_bounds(s, i + 1);
    }
}

/// Whether `s`, with capital letters made small, is the word `w`.
pub open spec fn is_word(s: Seq<char>, w: Seq<char>) -> bool {
    s.len() == w.len() && forall|i: int| 0 <= i < s.len() ==> lower(#[trigger] s[i]) == w[i]
}

/// Whether an exponent stands at offset `b` and runs to the end of `s`: the letter e,
/// small or capital, an optional sign, and at least one digit.
pub open spec fn is_exponent(s: Seq<char>, b: int) -> bool {
    let c = if b + 1 < s.len() && is_sign(s[b + 1]) {
        b + 2
    } else {
        b + 1
    };
    &&& 0 <= b < s.len()
    &&& lower(s[b]) == 'e'
    &&& c < s.len()
    &&& digits_end(s, c) == s.len()
}

/// Whether `s` is an unsigned decimal number: digits with at most one point among
/// them and at least one digit in all, then an optional exponent.
pub open spec fn is_number(s: Seq<char>) -> bool {
    let a = digits_end(s, 0);
    let pointed = a < s.len() && s[a] == '.';
    let b = if pointed {
        digits_end(s, a + 1)
    } else {
        a
    };
    &&& if pointed {
        b - 1 > 0
    } else {
        b > 0
    }
    &&& (b == s.len() || is_exponent(s, b))
}

/// The word for an infinite value.
pub open spec fn word_inf() -> Seq<char> {
    seq!['i', 'n', 'f']
}

/// The long word for an infinite value.
pub open spec fn word_infinity() -> Seq<char> {
    seq!['i', 'n', 'f', 'i', 'n', 'i', 't', 'y']
}

/// The word for a value that is not a number.
pub open spec fn word_nan() -> Seq<char> {
    seq!['n', 'a', 'n']
}

/// Whether `s` is written as a floating-point value: an optional sign, then a
/// decimal number or one of the words inf, infinity and nan in any mix of small and
/// capital letters. No white space, and nothing else, is allowed.
pub open spec fn is_float_literal(s: Seq<char>) -> bool {
    let body = if s.len() > 0 && is_sign(s[0]) {
        s.subrange(1, s.len() as int)
    } else {
        s
    };
    ||| is_word(body, word_inf())
    ||| is_word(body, word_infinity())
    ||| is_word(body, word_nan())
    ||| is_number(body)
}

/// The characters of `s`, one by one.
pub fn chars_of(s: &str) -> (v: Vec<char>)
    ensures
        v@ == s@,
{
    let mut v: Vec<char> = Vec::new();
    for c in it: s.chars()
        invariant
            v@ == it.seq().take(it.index() as int),
            it.seq() == s@,
    {
        v.push(c);
    }
    v
}

/// Whether `c` is white space.
pub fn is_whitespace(c: char) -> (b: bool)
    ensures
        b == is_space(c),
{
    ('\u{9}' <= c && c <= '\u{d}') || c == ' ' || c == '\u{85}' || c == '\u{a0}' || c
        == '\u{1680}' || ('\u{2000}' <= c && c <= '\u{200a}') || c == '\u{2028}' || c
        == '\u{2029}' || c == '\u{202f}' || c == '\u{205f}' || c == '\u{3000}'
}

/// Splits a line into its fields.
pub fn split_whitespace(line: &str) -> (out: Vec<String>)
    ensures
        out.deep_view() == fields(line@),
{
    let chars = chars_of(line);
    let n = chars.len();
    let ghost s = chars@;
    let mut out: Vec<String> = Vec::new();
    let mut i: usize = 0;
    assert(out.deep_view() =~= Seq::<Seq<char>>::empty());
    assert(Seq::<Seq<char>>::empty() + fields_from(s, 0) =~= fields_from(s, 0));
    loop
        invariant
            s == chars@,
            s == line@,
            n == s.len(),
            i <= n,
            fields(s) == out.deep_view() + fields_from(s, i as int),
        decreases n - i,
    {
        let ghost from = i as int;
        let ghost done = out.deep_view();
        while i < n && is_whitespace(chars[i])
            invariant
                s == chars@,
                n == s.len(),
                from <= i <= n,
                spaces_end(s, from) == spaces_end(s, i as int),
            decreases n - i,
        {
            i += 1;
        }
        if i >= n {
            assert(done + Seq::<Seq<char>>::empty() =~= done);
            return out;
        }
        let start = i;
        let mut word = String::new();
        while i < n && !is_whitespace(chars[i])
            invariant
                s == chars@,
                n == s.len(),
                start <= i <= n,
                start < n,
                !is_space(s[start as int]),
                word_end(s, start as int) == word_end(s, i as int),
                word@ == s.subrange(start as int, i as int),
            decreases n - i,
        {
            push_char(&mut word, chars[i]);
            i += 1;
            assert(word@ =~= s.subrange(start as int, i as int));
        }
        let ghost text = word@;
        out.push(word);
        proof {
            assert(out.deep_view() =~= done.push(text));
            assert(done + (seq![text] + fields_from(s, i as int)) =~= done.push(text) + fields_from(
                s,
                i as int,
            ));
        }
    }
}

/// Whether `c` is an ASCII decimal digit.
pub fn is_ascii_digit(c: char) -> (b: bool)
    ensures
        b == is_digit(c),
{
    '0' <= c && c <= '9'
}

/// `c` with an ASCII capital letter turned into its small letter.
pub fn to_ascii_lower(c: char) -> (l: char)
    ensures
        l == lower(c),
{
    if 'A' <= c && c <= 'Z' {
        ((c as u8) + 32) as char
    } else {
        c
    }
}

/// The offset at which the digits that start at `i` end.
fn scan_digits(s: &Vec<char>, i: usize) -> (j: usize)
    requires
        i <= s.len(),
    ensures
        j == digits_end(s@, i as int),
        i <= j <= s.len(),
{
    let mut j = i;
    while j < s.len() && is_ascii_digit(s[j])
        invariant
            i <= j <= s.len(),
            digits_end(s@, i as int) == digits_end(s@, j as int),
        decreases s.len() - j,
    {
        j += 1;
    }
    j
}

/// Whether `s`, with capital letters made small, is the word `w`.
fn word_matches(s: &Vec<char>, w: &Vec<char>) -> (b: bool)
    ensures
        b == is_word(s@, w@),
{
    if s.len() != w.len() {
        return false;
    }
    let mut i: usize = 0;
    while i < s.len()
        invariant
            i <= s.len(),
            s.len() == w.len(),
            forall|k: int| 0 <= k < i ==> lower(#[trigger] s@[k]) == w@[k],
        decreases s.len() - i,
    {
        if to_ascii_lower(s[i]) != w[i] {
            return false;
        }
        i += 1;
    }
    true
}

/// Whether an exponent stands at offset `b` and runs to the end of `s`.
fn exponent_at(s: &Vec<char>, b: usize) -> (r: bool)
    requires
        b < s.len(),
    ensures
        r == is_exponent(s@, b as int),
{
    if to_ascii_lower(s[b]) != 'e' {
        return false;
    }
    let c = if b + 1 < s.len() && (s[b + 1] == '+' || s[b + 1] == '-') {
        b + 2
    } else {
        b + 1
    };
    if c >= s.len() {
        return false;
    }
    scan_digits(s, c) == s.len()
}

/// Whether `s` is an unsigned decimal number.
fn number_matches(s: &Vec<char>) -> (r: bool)
    ensures
        r == is_number(s@),
{
    let a = scan_digits(s, 0);
    let pointed = a < s.len() && s[a] == '.';
    let b = if pointed {
        scan_digits(s, a + 1)
    } else {
        a
    };
    let digits = if pointed {
        b - 1
    } else {
        b
    };
    if digits == 0 {
        return false;
    }
    b == s.len() || exponent_at(s, b)
}

/// Whether `token` is written as a floating-point value.
pub fn is_numeric(token: &str) -> (b: bool)
    ensures
        b == is_float_literal(token@),
{
    let chars = chars_of(token);
    let n = chars.len();
    let start: usize = if n > 0 && (chars[0] == '+' || chars[0] == '-') {
        1
    } else {
        0
    };
    let mut body: Vec<char> = Vec::new();
    let mut i = start;
    while i < n
        invariant
            start <= i <= n,
            n == chars.len(),
            body@ == chars@.subrange(start as int, i as int),
        decreases n - i,
    {
        body.push(chars[i]);
        i += 1;
        assert(body@ =~= chars@.subrange(start as int, i as int));
    }
    assert(start == 0 ==> body@ =~= chars@);
    let inf: Vec<char> = vec!['i', 'n', 'f'];
    let infinity: Vec<char> = vec!['i', 'n', 'f', 'i', 'n', 'i', 't', 'y'];
    let nan: Vec<char> = vec!['n', 'a', 'n'];
    assert(inf@ =~= word_inf());
    assert(infinity@ =~= word_infinity());
    assert(nan@ =~= word_nan());
    word_matches(&body, &inf) || word_matches(&body, &infinity) || word_matches(&body, &nan)
        || number_matches(&body)
}

/// Whether `line`, without the white space at its ends, begins with `prefix`.
pub fn trimmed_starts_with(line: &str, prefix: &str) -> (b: bool)
    ensures
        b == starts_with(trimmed(line@), prefix@),
{
    let chars = chars_of(line);
    let want = chars_of(prefix);
    let n = chars.len();
    let mut a: usize = 0;
    while a < n && is_whitespace(chars[a])
        invariant
            a <= n,
            n == chars.len(),
            spaces_end(chars@, 0) == spaces_end(chars@, a as int),
        decreases n - a,
    {
        a += 1;
    }
    let mut b: usize = n;
    assert(chars@.take(n as int) =~= chars@);
    while b > 0 && is_whitespace(chars[b - 1])
        invariant
            b <= n,
            n == chars.len(),
            trimmed_len(chars@) == trimmed_len(chars@.take(b as int)),
        decreases b,
    {
        assert(chars@.take(b as int).drop_last() =~= chars@.take(b - 1));
        b -= 1;
    }
    assert(b > 0 ==> chars@.take(b as int).last() == chars@[b - 1]);
    assert(trimmed_len(chars@) == b);
    if a > b {
        assert(want.len() == 0 ==> Seq::<char>::empty().subrange(0, 0) =~= want@);
        return want.len() == 0;
    }
    let ghost text = chars@.subrange(a as int, b as int);
    assert(text == trimmed(line@));
    if want.len() > b - a {
        return false;
    }
    let mut i: usize = 0;
    while i < want.len()
        invariant
            i <= want.len() <= b - a,
            a <= b <= n,
            n == chars.len(),
            text == chars@.subrange(a as int, b as int),
            text == trimmed(line@),
            want@ == prefix@,
            forall|k: int| 0 <= k < i ==> text[k] == want@[k],
        decreases want.len() - i,
    {
        if chars[a + i] != want[i] {
            assert(text.subrange(0, want.len() as int)[i as int] != want@[i as int]);
            return false;
        }
        i += 1;
    }
    assert(text.subrange(0, want.len() as int) =~= want@);
    true
}

/// The number that the digits of `s` write in base ten.
pub open spec fn decimal_value(s: Seq<char>) -> int
    decreases s.len(),
{
    if s.len() == 0 {
        0
    } else {
        decimal_value(s.drop_last()) * 10 + (s.last() as int - '0' as int)
    }
}

/// Whether `s` holds digits only.
pub open spec fn all_digits(s: Seq<char>) -> bool {
    forall|i: int| 0 <= i < s.len() ==> is_digit(#[trigger] s[i])
}

/// The 64-bit integer that `s` writes: an optional sign and at least one digit,
/// nothing else, and a value within the 64-bit range.
pub open spec fn spec_parse_i64(s: Seq<char>) -> Option<i64> {
    let negative = s.len() > 0 && s[0] == '-';
    let digits = if s.len() > 0 && is_sign(s[0]) {
        s.subrange(1, s.len() as int)
    } else {
        s
    };
    let v = if negative {
        -decimal_value(digits)
    } else {
        decimal_value(digits)
    };
    if digits.len() == 0 || !all_digits(digits) || v < i64::MIN || v > i64::MAX {
        None
    } else {
        Some(v as i64)
    }
}

/// The offset just behind the last `sep` in `s`, or 0 where there is none.
pub open spec fn last_section_start(s: Seq<char>, sep: char) -> int
    decreases s.len(),
{
    if s.len() == 0 {
        0
    } else if s.last() == sep {
        s.len() as int
    } else {
        last_section_start(s.drop_last(), sep)
    }
}

/// What stands in `s` behind its last `sep`: all of `s` where there is none.
pub open spec fn last_section(s: Seq<char>, sep: char) -> Seq<char> {
    s.subrange(last_section_start(s, sep), s.len() as int)
}

/// Digits write a number that is not negative, and a number at least as large as any
/// of their beginnings writes.
pub proof fn lemma_decimal_grows(s: Seq<char>, n: int)
    requires
        all_digits(s),
        0 <= n <= s.len(),
    ensures
        0 <= decimal_value(s.take(n)) <= decimal_value(s),
    decreases s.len() - n,
{
    if n == s.len() {
        assert(s.take(n) =~= s);
        lemma_decimal_nonnegative(s);
    } else {
        lemma_decimal_grows(s, n + 1);
        assert(s.take(n + 1).drop_last() =~= s.take(n));
        lemma_decimal_nonnegative(s.take(n));
        assert(is_digit(s.take(n + 1).last()));
    }
}

/// Digits write a number that is not negative.
pub proof fn lemma_decimal_nonnegative(s: Seq<char>)
    requires
        all_digits(s),
    ensures
        0 <= decimal_value(s),
    decreases s.len(),
{
    if s.len() > 0 {
        lemma_decimal_nonnegative(s.drop_last());
        assert(is_digit(s.last()));
    }
}

/// Whether `s` begins with `prefix`.
pub fn begins_with(s: &str, prefix: &str) -> (b: bool)
    ensures
        b == starts_with(s@, prefix@),
{
    let chars = chars_of(s);
    let want = chars_of(prefix);
    if want.len() > chars.len() {
        return false;
    }
    let mut i: usize = 0;
    while i < want.len()
        invariant
            i <= want.len() <= chars.len(),
            chars@ == s@,
            want@ == prefix@,
            forall|k: int| 0 <= k < i ==> chars@[k] == want@[k],
        decreases want.len() - i,
    {
        if chars[i] != want[i] {
            assert(chars@.subrange(0, want.len() as int)[i as int] != want@[i as int]);
            return false;
        }
        i += 1;
    }
    assert(chars@.subrange(0, want.len() as int) =~= want@);
    true
}

/// Reads a 64-bit integer written in base ten.
#[verifier::loop_isolation(false)]
pub fn parse_i64(text: &str) -> (r: Option<i64>)
    ensures
        r == spec_parse_i64(text@),
{
    let chars = chars_of(text);
    let n = chars.len();
    let negative = n > 0 && chars[0] == '-';
    let start: usize = if n > 0 && (chars[0] == '+' || chars[0] == '-') {
        1
    } else {
        0
    };
    let ghost digits = chars@.subrange(start as int, n as int);
    assert(start == 0 ==> digits =~= chars@);
    if start == n {
        return None;
    }
    let limit: i128 = 0x8000_0000_0000_0000;
    let mut acc: i128 = 0;
    let mut i: usize = start;
    assert(digits.take(0) =~= Seq::<char>::empty());
    while i < n
        invariant
            start <= i <= n,
            n == chars.len(),
            limit == 0x8000_0000_0000_0000,
            digits == chars@.subrange(start as int, n as int),
            all_digits(digits.take(i - start)),
            acc == decimal_value(digits.take(i - start)),
            0 <= acc <= limit,
        decreases n - i,
    {
        let c = chars[i];
        assert(digits[i - start] == c);
        if !is_ascii_digit(c) {
            return None;
        }
        let d: i128 = (c as u8 - '0' as u8) as i128;
        proof {
            assert(digits.take(i + 1 - start).drop_last() =~= digits.take(i - start));
            assert(digits.take(i + 1 - start).last() == c);
            assert forall|k: int| 0 <= k < i + 1 - start implies is_digit(
                #[trigger] digits.take(i + 1 - start)[k],
            ) by {
                if k < i - start {
                    assert(digits.take(i - start)[k] == digits[k]);
                }
            }
        }
        let next: i128 = acc * 10 + d;
        if next > limit {
            proof {
                if all_digits(digits) {
                    lemma_decimal_grows(digits, i + 1 - start);
                }
            }
            return None;
        }
        acc = next;
        i += 1;
    }
    assert(digits.take(n - start) =~= digits);
    if negative {
        Some((-acc) as i64)
    } else if acc == limit {
        None
    } else {
        Some(acc as i64)
    }
}

/// What stands in `name` behind its last `sep`.
pub fn after_last(name: &str, sep: char) -> (r: String)
    ensures
        r@ == last_section(name@, sep),
{
    let chars = chars_of(name);
    let n = chars.len();
    let mut start: usize = n;
    assert(chars@.take(n as int) =~= chars@);
    while start > 0 && chars[start - 1] != sep
        invariant
            start <= n,
            n == chars.len(),
            last_section_start(chars@, sep) == last_section_start(chars@.take(start as int), sep),
        decreases start,
    {
        assert(chars@.take(start as int).drop_last() =~= chars@.take(start - 1));
        start -= 1;
    }
    assert(start > 0 ==> chars@.take(start as int).last() == chars@[start - 1]);
    assert(last_section_start(chars@, sep) == start);
    let mut out = String::new();
    let mut i: usize = start;
    while i < n
        invariant
            start <= i <= n,
            n == chars.len(),
            out@ == chars@.subrange(start as int, i as int),
        decreases n - i,
    {
        push_char(&mut out, chars[i]);
        i += 1;
        assert(out@ =~= chars@.subrange(start as int, i as int));
    }
    out
}

/// A scan over characters of one kind passes over nothing else: white space only
/// before the end of the spaces, none before the end of a word.
pub proof fn lemma_scan_contents(s: Seq<char>, i: int)
    requires
        0 <= i <= s.len(),
    ensures
        forall|k: int| i <= k < spaces_end(s, i) ==> is_space(#[trigger] s[k]),
        forall|k: int| i <= k < word_end(s, i) ==> !is_space(#[trigger] s[k]),
        forall|k: int| i <= k < digits_end(s, i) ==> is_digit(#[trigger] s[k]),
    decreases s.len() - i,
{
    if i < s.len() {
        lemma_scan_contents(s, i + 1);
    }
}

/// Every field is a word: it is not empty and holds no white space.
pub proof fn lemma_fields_are_words(s: Seq<char>, i: int)
    requires
        0 <= i <= s.len(),
    ensures
        forall|k: int|
            0 <= k < fields_from(s, i).len() ==> (#[trigger] fields_from(s, i)[k]).len() > 0
                && forall|j: int|
                0 <= j < fields_from(s, i)[k].len() ==> !is_space(
                    #[trigger] fields_from(s, i)[k][j],
                ),
    decreases s.len() - i,
{
    lemma_scan_bounds(s, i);
    let a = spaces_end(s, i);
    if a < s.len() {
        lemma_scan_bounds(s, a);
        lemma_scan_contents(s, a);
        let b = word_end(s, a);
        lemma_fields_are_words(s, b);
        let word = s.subrange(a, b);
        let rest = fields_from(s, b);
        assert(fields_from(s, i) == seq![word] + rest);
        assert forall|k: int| 0 <= k < fields_from(s, i).len() implies (#[trigger] fields_from(
            s,
            i,
        )[k]).len() > 0 && forall|j: int|
            0 <= j < fields_from(s, i)[k].len() ==> !is_space(#[trigger] fields_from(s, i)[k][j]) by {
            if k == 0 {
                assert(fields_from(s, i)[0] == word);
                assert forall|j: int| 0 <= j < word.len() implies !is_space(#[trigger] word[j]) by {
                    assert(word[j] == s[a + j]);
                }
            } else {
                assert(fields_from(s, i)[k] == rest[k - 1]);
            }
        }
    }
}

} // verus!
