//! Text building blocks: numbers in decimal and hexadecimal, JSON strings,
//! and the string queries that application selection is made of.

use vstd::prelude::*;

verus! {

/// The character of one digit, in bases up to sixteen.
pub open spec fn digit_char(digit: nat) -> char {
    if digit < 10 {
        (48 + digit) as char
    } else {
        (87 + digit) as char
    }
}

/// A natural number in decimal, without leading zeros.
pub open spec fn decimal(n: nat) -> Seq<char>
    decreases n,
{
    if n < 10 {
        seq![digit_char(n)]
    } else {
        decimal(n / 10).push(digit_char(n % 10))
    }
}

/// An integer in decimal, with a minus sign where it is negative.
pub open spec fn signed_decimal(n: int) -> Seq<char> {
    if n < 0 {
        seq!['-'] + decimal((-n) as nat)
    } else {
        decimal(n as nat)
    }
}

/// A natural number in lower-case hexadecimal, without leading zeros.
pub open spec fn hexadecimal(n: nat) -> Seq<char>
    decreases n,
{
    if n < 16 {
        seq![digit_char(n)]
    } else {
        hexadecimal(n / 16).push(digit_char(n % 16))
    }
}

/// The lowest `width` decimal digits of `n`, with leading zeros.
pub open spec fn padded_decimal(n: nat, width: nat) -> Seq<char>
    decreases width,
{
    if width == 0 {
        Seq::empty()
    } else {
        padded_decimal(n / 10, (width - 1) as nat).push(digit_char(n % 10))
    }
}

/// The text of one digit.
fn digit_text(digit: u32) -> (text: &'static str)
    requires
        digit < 16,
    ensures
        text@ == seq![digit_char(digit as nat)],
{
    proof {
        reveal_strlit("0");
        reveal_strlit("1");
        reveal_strlit("2");
        reveal_strlit("3");
        reveal_strlit("4");
        reveal_strlit("5");
        reveal_strlit("6");
        reveal_strlit("7");
        reveal_strlit("8");
        reveal_strlit("9");
        reveal_strlit("a");
        reveal_strlit("b");
        reveal_strlit("c");
        reveal_strlit("d");
        reveal_strlit("e");
        reveal_strlit("f");
    }
    match digit {
        0 => "0",
        1 => "1",
        2 => "2",
        3 => "3",
        4 => "4",
        5 => "5",
        6 => "6",
        7 => "7",
        8 => "8",
        9 => "9",
        10 => "a",
        11 => "b",
        12 => "c",
        13 => "d",
        14 => "e",
        _ => "f",
    }
}

/// Writes `n` in decimal.
pub fn decimal_text(n: u32) -> (text: String)
    ensures
        text@ == decimal(n as nat),
    decreases n,
{
    if n < 10 {
        digit_text(n).to_owned()
    } else {
        let mut text = decimal_text(n / 10);
        text.append(digit_text(n % 10));
        text
    }
}

/// Writes `n` in decimal, with a minus sign where it is negative.
pub fn signed_decimal_text(n: i32) -> (text: String)
    ensures
        text@ == signed_decimal(n as int),
{
    if n < 0 {
        let magnitude: u32 = (0i64 - n as i64) as u32;
        proof {
            reveal_strlit("-");
        }
        let mut text = "-".to_owned();
        text.append(decimal_text(magnitude).as_str());
        assert("-"@ == seq!['-']);
        text
    } else {
        decimal_text(n as u32)
    }
}

/// Writes `n` in lower-case hexadecimal.
pub fn hexadecimal_text(n: u32) -> (text: String)
    ensures
        text@ == hexadecimal(n as nat),
    decreases n,
{
    if n < 16 {
        digit_text(n).to_owned()
    } else {
        let mut text = hexadecimal_text(n / 16);
        text.append(digit_text(n % 16));
        text
    }
}

/// Writes the lowest `width` decimal digits of `n`, with leading zeros.
pub fn padded_decimal_text(n: u32, width: u32) -> (text: String)
    ensures
        text@ == padded_decimal(n as nat, width as nat),
    decreases width,
{
    if width == 0 {
        String::new()
    } else {
        let mut text = padded_decimal_text(n / 10, width - 1);
        text.append(digit_text(n % 10));
        text
    }
}

/// The characters with the Unicode property `White_Space`.
pub open spec fn is_white_space(c: char) -> bool {
    ||| '\u{9}' <= c <= '\u{d}'
    ||| c == '\u{20}'
    ||| c == '\u{85}'
    ||| c == '\u{a0}'
    ||| c == '\u{1680}'
    ||| '\u{2000}' <= c <= '\u{200a}'
    ||| c == '\u{2028}'
    ||| c == '\u{2029}'
    ||| c == '\u{202f}'
    ||| c == '\u{205f}'
    ||| c == '\u{3000}'
}

/// A text without its leading and trailing white space.
pub open spec fn trimmed(s: Seq<char>) -> Seq<char>
    decreases s.len(),
{
    if s.len() > 0 && is_white_space(s[0]) {
        trimmed(s.drop_first())
    } else if s.len() > 0 && is_white_space(s.last()) {
        trimmed(s.drop_last())
    } else {
        s
    }
}

/// Whether a text holds nothing but white space.
pub open spec fn is_blank(s: Seq<char>) -> bool {
    forall|i: int| 0 <= i < s.len() ==> is_white_space(#[trigger] s[i])
}

/// Calls `str::trim`. Trusted: its result is the text without leading and
/// trailing white space, as Unicode defines white space.
#[verifier::external_body]
pub(crate) fn trim(s: &str) -> (r: &str)
    ensures
        r@ == trimmed(s@),
{
    s.trim()
}

/// What trimming leaves starts and ends with something other than white space,
/// and trimming it again changes nothing.
pub proof fn law_trimming_is_idempotent(s: Seq<char>)
    ensures
        trimmed(trimmed(s)) == trimmed(s),
        trimmed(s).len() > 0 ==> !is_white_space(trimmed(s)[0]) && !is_white_space(
            trimmed(s).last(),
        ),
    decreases s.len(),
{
    if s.len() > 0 && is_white_space(s[0]) {
        law_trimming_is_idempotent(s.drop_first());
    } else if s.len() > 0 && is_white_space(s.last()) {
        law_trimming_is_idempotent(s.drop_last());
    }
}

/// Trimming leaves nothing exactly where there was nothing but white space.
pub proof fn law_blank_text_trims_to_nothing(s: Seq<char>)
    ensures
        trimmed(s).len() == 0 <==> is_blank(s),
    decreases s.len(),
{
    if s.len() > 0 && is_white_space(s[0]) {
        let rest = s.drop_first();
        law_blank_text_trims_to_nothing(rest);
        assert forall|i: int| 0 <= i < s.len() && is_blank(rest) implies is_white_space(
            #[trigger] s[i],
        ) by {
            if i > 0 {
                assert(rest[i - 1] == s[i]);
            }
        }
        assert forall|i: int| 0 <= i < rest.len() && is_blank(s) implies is_white_space(
            #[trigger] rest[i],
        ) by {
            assert(rest[i] == s[i + 1]);
        }
    } else if s.len() > 0 && is_white_space(s.last()) {
        assert(!is_blank(s));
        law_blank_text_trims_to_nothing(s.drop_last());
        assert(s.drop_last().len() > 0);
        assert(s.drop_last()[0] == s[0]);
    } else if s.len() > 0 {
        assert(!is_white_space(s[0]));
    }
}

/// Calls `String::from_utf8_lossy`. Trusted: bytes that are all ASCII, and so
/// valid UTF-8, become the characters they stand for.
#[verifier::external_body]
pub(crate) fn ascii_text(bytes: &[u8]) -> (r: String)
    requires
        forall|i: int| 0 <= i < bytes@.len() ==> (#[trigger] bytes@[i]) < 128,
    ensures
        r@ == bytes@.map_values(|byte: u8| byte as char),
{
    String::from_utf8_lossy(bytes).into_owned()
}

/// One ASCII letter in lower case; any other character unchanged.
pub open spec fn ascii_lowercase(c: char) -> char {
    if 'A' <= c <= 'Z' {
        (c as u32 + 32) as char
    } else {
        c
    }
}

/// Whether a text is made of ASCII characters alone.
pub open spec fn is_ascii_text(s: Seq<char>) -> bool {
    forall|i: int| 0 <= i < s.len() ==> (#[trigger] s[i] as u32) < 128
}

/// A text with its ASCII letters in lower case.
pub open spec fn ascii_lower(s: Seq<char>) -> Seq<char> {
    s.map_values(|c: char| ascii_lowercase(c))
}

/// What `str::to_lowercase` makes of a text.
pub uninterp spec fn lowercase(s: Seq<char>) -> Seq<char>;

/// Calls `str::to_lowercase`. Trusted: the result depends on the text alone, but
/// not on the case of its ASCII letters, and a text that is all ASCII has each of
/// its letters put in lower case.
#[verifier::external_body]
pub(crate) fn to_lowercase(s: &str) -> (r: String)
    ensures
        r@ == lowercase(s@),
        is_ascii_text(s@) ==> r@ == ascii_lower(s@),
        forall|other: Seq<char>|
            ascii_lower(other) == ascii_lower(s@) ==> #[trigger] lowercase(other) == r@,
{
    s.to_lowercase()
}

/// Whether `part` occurs in `s` as a run of adjacent characters.
pub open spec fn has_substring(s: Seq<char>, part: Seq<char>) -> bool {
    exists|i: int|
        0 <= i <= s.len() - part.len() && #[trigger] s.subrange(i, i + part.len()) == part
}

/// Calls `str::contains` with a text. Trusted: it tells whether that text
/// occurs in the other.
#[verifier::external_body]
pub(crate) fn contains(s: &str, part: &str) -> (r: bool)
    ensures
        r == has_substring(s@, part@),
{
    s.contains(part)
}

/// Whether a text is made of decimal digits alone.
pub open spec fn all_digits(s: Seq<char>) -> bool {
    forall|i: int| 0 <= i < s.len() ==> '0' <= #[trigger] s[i] <= '9'
}

/// The number that a run of decimal digits writes.
pub open spec fn digits_value(s: Seq<char>) -> nat
    decreases s.len(),
{
    if s.len() == 0 {
        0
    } else {
        (10 * digits_value(s.drop_last()) + (s.last() as u32 - 48)) as nat
    }
}

/// The `u32` that a text writes: an optional plus sign, then decimal digits.
pub open spec fn parsed_u32(s: Seq<char>) -> Option<u32> {
    let digits = if s.len() > 0 && s[0] == '+' {
        s.drop_first()
    } else {
        s
    };
    if digits.len() > 0 && all_digits(digits) && digits_value(digits) <= u32::MAX {
        Some(digits_value(digits) as u32)
    } else {
        None
    }
}

/// Calls `str::parse` for a `u32`. Trusted: it accepts an optional plus sign
/// followed by one or more decimal digits, where the number fits.
#[verifier::external_body]
pub(crate) fn parse_u32(s: &str) -> (r: Option<u32>)
    ensures
        r == parsed_u32(s@),
{
    s.parse::<u32>().ok()
}

/// One character inside a JSON string.
pub open spec fn json_escape(c: char) -> Seq<char> {
    if c == '"' {
        seq!['\\', '"']
    } else if c == '\\' {
        seq!['\\', '\\']
    } else if c == '\u{8}' {
        seq!['\\', 'b']
    } else if c == '\u{9}' {
        seq!['\\', 't']
    } else if c == '\u{a}' {
        seq!['\\', 'n']
    } else if c == '\u{c}' {
        seq!['\\', 'f']
    } else if c == '\u{d}' {
        seq!['\\', 'r']
    } else if (c as u32) < 32 {
        seq![
            '\\',
            'u',
            '0',
            '0',
            digit_char((c as u32 / 16) as nat),
            digit_char((c as u32 % 16) as nat),
        ]
    } else {
        seq![c]
    }
}

/// A text inside a JSON string.
pub open spec fn json_escaped(s: Seq<char>) -> Seq<char>
    decreases s.len(),
{
    if s.len() == 0 {
        Seq::empty()
    } else {
        json_escaped(s.drop_last()) + json_escape(s.last())
    }
}

/// A text as a JSON string, quotes included.
pub open spec fn json_quoted(s: Seq<char>) -> Seq<char> {
    seq!['"'] + json_escaped(s) + seq!['"']
}

/// Calls `serde_json::Value::to_string` on a string value. Trusted: it writes
/// the text between quotes, with quotes, backslashes and control characters
/// escaped and every other character as it is.
#[verifier::external_body]
pub(crate) fn json_text(s: &str) -> (r: String)
    ensures
        r@ == json_quoted(s@),
{
    serde_json::Value::String(s.to_owned()).to_string()
}

/// A JSON string holds no control character, so that it never breaks a line.
pub proof fn law_json_strings_stay_on_one_line(s: Seq<char>, i: int)
    requires
        0 <= i < json_quoted(s).len(),
    ensures
        json_quoted(s)[i] as u32 >= 32,
{
    if 0 < i < json_quoted(s).len() - 1 {
        lemma_escaped_has_no_control(s, i - 1);
    }
}

proof fn lemma_escaped_has_no_control(s: Seq<char>, i: int)
    requires
        0 <= i < json_escaped(s).len(),
    ensures
        json_escaped(s)[i] as u32 >= 32,
    decreases s.len(),
{
    let front = json_escaped(s.drop_last());
    if i < front.len() {
        lemma_escaped_has_no_control(s.drop_last(), i);
    } else {
        assert(json_escaped(s)[i] == json_escape(s.last())[i - front.len()]);
    }
}

/// Decimal digits read back as the number they were written for.
pub proof fn lemma_decimal_reads_back(n: nat)
    ensures
        all_digits(decimal(n)),
        decimal(n).len() > 0,
        digits_value(decimal(n)) == n,
    decreases n,
{
    if n >= 10 {
        lemma_decimal_reads_back(n / 10);
        assert(decimal(n).drop_last() == decimal(n / 10));
        assert forall|i: int| 0 <= i < decimal(n).len() implies '0' <= #[trigger] decimal(n)[i]
            <= '9' by {
            if i < decimal(n / 10).len() {
                assert(decimal(n)[i] == decimal(n / 10)[i]);
            }
        }
    } else {
        assert(decimal(n).drop_last().len() == 0);
        assert(digits_value(decimal(n).drop_last()) == 0);
    }
}

/// Trimming leaves digits alone.
pub proof fn lemma_digits_are_not_trimmed(s: Seq<char>)
    requires
        all_digits(s),
    ensures
        trimmed(s) == s,
{
    if s.len() > 0 {
        assert('0' <= s[0] <= '9');
        assert('0' <= s[s.len() - 1] <= '9');
    }
}

/// The largest number of `width` decimal digits, plus one.
pub open spec fn digits_bound(width: nat) -> nat
    decreases width,
{
    if width == 0 {
        1
    } else {
        10 * digits_bound((width - 1) as nat)
    }
}

/// Numbers that fit in their width are told apart by their digits.
pub proof fn lemma_padded_decimal(a: nat, b: nat, width: nat)
    ensures
        padded_decimal(a, width).len() == width,
        padded_decimal(b, width).len() == width,
        a < digits_bound(width) && b < digits_bound(width) && padded_decimal(a, width)
            == padded_decimal(b, width) ==> a == b,
        digits_bound(2) == 100,
        digits_bound(4) == 10_000,
    decreases width,
{
    reveal_with_fuel(digits_bound, 5);
    if width > 0 {
        let less = (width - 1) as nat;
        lemma_padded_decimal(a / 10, b / 10, less);
        let s = padded_decimal(a, width);
        let t = padded_decimal(b, width);
        if s == t {
            assert(s.drop_last() =~= padded_decimal(a / 10, less));
            assert(t.drop_last() =~= padded_decimal(b / 10, less));
            assert(s.last() == digit_char(a % 10));
            assert(t.last() == digit_char(b % 10));
        }
    }
}

proof fn lemma_escaped_from_front(s: Seq<char>)
    requires
        s.len() > 0,
    ensures
        json_escaped(s) == json_escape(s[0]) + json_escaped(s.drop_first()),
    decreases s.len(),
{
    if s.len() == 1 {
        assert(json_escaped(s.drop_last()) == Seq::<char>::empty());
        assert(json_escaped(s.drop_first()) == Seq::<char>::empty());
        assert(json_escaped(s) =~= json_escape(s[0]) + json_escaped(s.drop_first()));
    } else {
        lemma_escaped_from_front(s.drop_last());
        assert(s.drop_last().drop_first() =~= s.drop_first().drop_last());
        assert(json_escaped(s) =~= json_escape(s[0]) + json_escaped(s.drop_first()));
    }
}

proof fn lemma_escape_is_told_by_its_start(c: char, d: char, x: Seq<char>, y: Seq<char>)
    requires
        json_escape(c) + x == json_escape(d) + y,
    ensures
        c == d,
        x == y,
{
    let all = json_escape(c) + x;
    let other = json_escape(d) + y;
    assert(all[0] == json_escape(c)[0] && other[0] == json_escape(d)[0]);
    if all[0] == '\\' {
        assert(all[1] == json_escape(c)[1] && other[1] == json_escape(d)[1]);
        if all[1] == 'u' {
            assert(all[4] == json_escape(c)[4] && other[4] == json_escape(d)[4]);
            assert(all[5] == json_escape(c)[5] && other[5] == json_escape(d)[5]);
        }
    }
    assert(c == d);
    assert(x =~= all.skip(json_escape(c).len() as int));
    assert(y =~= other.skip(json_escape(d).len() as int));
}

proof fn lemma_escaped_ends_at_its_quote(a: Seq<char>, b: Seq<char>, x: Seq<char>, y: Seq<char>)
    requires
        json_escaped(a) + (seq!['"'] + x) == json_escaped(b) + (seq!['"'] + y),
    ensures
        a == b,
        x == y,
    decreases a.len(),
{
    let end_a = seq!['"'] + x;
    let end_b = seq!['"'] + y;
    assert(a.len() == 0 ==> json_escaped(a) + end_a =~= end_a);
    assert(b.len() == 0 ==> json_escaped(b) + end_b =~= end_b);
    if a.len() > 0 {
        lemma_escaped_from_front(a);
        assert(json_escaped(a) + end_a =~= json_escape(a[0]) + (json_escaped(a.drop_first())
            + end_a));
    }
    if b.len() > 0 {
        lemma_escaped_from_front(b);
        assert(json_escaped(b) + end_b =~= json_escape(b[0]) + (json_escaped(b.drop_first())
            + end_b));
    }
    if a.len() > 0 && b.len() > 0 {
        let rest_a = json_escaped(a.drop_first()) + end_a;
        let rest_b = json_escaped(b.drop_first()) + end_b;
        lemma_escape_is_told_by_its_start(a[0], b[0], rest_a, rest_b);
        lemma_escaped_ends_at_its_quote(a.drop_first(), b.drop_first(), x, y);
        assert(a =~= seq![a[0]] + a.drop_first());
        assert(b =~= seq![b[0]] + b.drop_first());
    } else if a.len() == 0 && b.len() == 0 {
        assert(a =~= b);
        assert(x =~= end_a.skip(1));
        assert(y =~= end_b.skip(1));
    } else if a.len() == 0 {
        assert(end_a[0] == '"');
        assert((json_escape(b[0]) + (json_escaped(b.drop_first()) + end_b))[0] == json_escape(
            b[0],
        )[0]);
    } else {
        assert(end_b[0] == '"');
        assert((json_escape(a[0]) + (json_escaped(a.drop_first()) + end_a))[0] == json_escape(
            a[0],
        )[0]);
    }
}

/// A JSON string loses nothing: the text can be told from it, also where more
/// text follows.
pub proof fn law_json_strings_read_back(a: Seq<char>, b: Seq<char>, x: Seq<char>, y: Seq<char>)
    requires
        json_quoted(a) + x == json_quoted(b) + y,
    ensures
        a == b,
        x == y,
{
    let all = json_quoted(a) + x;
    let other = json_quoted(b) + y;
    assert(all.skip(1) =~= json_escaped(a) + (seq!['"'] + x));
    assert(other.skip(1) =~= json_escaped(b) + (seq!['"'] + y));
    lemma_escaped_ends_at_its_quote(a, b, x, y);
}

/// White space around a text does not change what trimming leaves.
pub proof fn law_surrounding_white_space_is_trimmed(before: Seq<char>, s: Seq<char>, after: Seq<char>)
    requires
        is_blank(before),
        is_blank(after),
    ensures
        trimmed(before + s + after) == trimmed(s),
    decreases before.len() + after.len(),
{
    let all = before + s + after;
    if before.len() > 0 {
        let rest = before.drop_first();
        assert(is_blank(rest)) by {
            assert forall|i: int| 0 <= i < rest.len() implies is_white_space(
                #[trigger] rest[i],
            ) by {
                assert(rest[i] == before[i + 1]);
            }
        }
        assert(all[0] == before[0]);
        assert(all.drop_first() =~= rest + s + after);
        law_surrounding_white_space_is_trimmed(rest, s, after);
    } else if after.len() > 0 {
        let rest = after.drop_last();
        assert(is_blank(rest)) by {
            assert forall|i: int| 0 <= i < rest.len() implies is_white_space(
                #[trigger] rest[i],
            ) by {
                assert(rest[i] == after[i]);
            }
        }
        assert(is_white_space(after[after.len() - 1]));
        assert(all =~= (before + s + rest).push(after.last()));
        lemma_trailing_white_space(before + s + rest, after.last());
        law_surrounding_white_space_is_trimmed(before, s, rest);
    } else {
        assert(all =~= s);
    }
}

proof fn lemma_trailing_white_space(s: Seq<char>, c: char)
    requires
        is_white_space(c),
    ensures
        trimmed(s.push(c)) == trimmed(s),
    decreases s.len(),
{
    let longer = s.push(c);
    assert(longer.drop_last() =~= s);
    if s.len() == 0 {
        assert(longer[0] == c);
        assert(longer.drop_first() =~= s);
    } else if is_white_space(s[0]) {
        assert(longer[0] == s[0]);
        assert(longer.drop_first() =~= s.drop_first().push(c));
        lemma_trailing_white_space(s.drop_first(), c);
    } else {
        assert(longer[0] == s[0]);
        assert(longer.last() == c);
    }
}

proof fn lemma_ascii_case_of_parts(a: Seq<char>, b: Seq<char>)
    requires
        ascii_lower(a) == ascii_lower(b),
    ensures
        a.len() == b.len(),
        forall|i: int| 0 <= i < a.len() ==> ascii_lowercase(#[trigger] a[i]) == ascii_lowercase(b[i]),
{
    assert(ascii_lower(a).len() == a.len());
    assert(ascii_lower(b).len() == b.len());
    assert forall|i: int| 0 <= i < a.len() implies ascii_lowercase(#[trigger] a[i])
        == ascii_lowercase(b[i]) by {
        assert(ascii_lower(a)[i] == ascii_lowercase(a[i]));
        assert(ascii_lower(b)[i] == ascii_lowercase(b[i]));
    }
}

/// The case of ASCII letters makes no difference to trimming.
pub proof fn lemma_trimming_ignores_case(a: Seq<char>, b: Seq<char>)
    requires
        ascii_lower(a) == ascii_lower(b),
    ensures
        ascii_lower(trimmed(a)) == ascii_lower(trimmed(b)),
    decreases a.len(),
{
    lemma_ascii_case_of_parts(a, b);
    if a.len() > 0 {
        assert(ascii_lowercase(a[0]) == ascii_lowercase(b[0]));
        assert(ascii_lowercase(a[a.len() - 1]) == ascii_lowercase(b[a.len() - 1]));
        if is_white_space(a[0]) {
            assert(ascii_lower(a.drop_first()) =~= ascii_lower(b.drop_first()));
            lemma_trimming_ignores_case(a.drop_first(), b.drop_first());
        } else if is_white_space(a.last()) {
            assert(ascii_lower(a.drop_last()) =~= ascii_lower(b.drop_last()));
            lemma_trimming_ignores_case(a.drop_last(), b.drop_last());
        }
    }
}

/// The case of ASCII letters makes no difference to the number that a text
/// writes: a text with letters writes none.
pub proof fn lemma_numbers_ignore_case(a: Seq<char>, b: Seq<char>)
    requires
        ascii_lower(a) == ascii_lower(b),
    ensures
        parsed_u32(a) == parsed_u32(b),
{
    lemma_ascii_case_of_parts(a, b);
    if exists|i: int| 0 <= i < a.len() && #[trigger] a[i] != b[i] {
        let i = choose|i: int| 0 <= i < a.len() && #[trigger] a[i] != b[i];
        assert(ascii_lowercase(a[i]) == ascii_lowercase(b[i]));
        assert(ascii_lowercase(a[0]) == ascii_lowercase(b[0]));
        assert(!('0' <= a[i] <= '9') && a[i] != '+');
        assert(!('0' <= b[i] <= '9') && b[i] != '+');
        assert(i > 0 ==> a.drop_first()[i - 1] == a[i] && b.drop_first()[i - 1] == b[i]);
        assert(!all_digits(a) && !all_digits(b));
        assert(i > 0 ==> !all_digits(a.drop_first()) && !all_digits(b.drop_first()));
    } else {
        assert(a =~= b);
    }
}

/// A number in decimal is read back as that number, has no leading zero, and is
/// made of digits; a negative one has a minus sign in front of its magnitude.
pub proof fn law_decimal_numbers_read_back(n: u32, negative: int)
    requires
        negative < 0,
    ensures
        parsed_u32(decimal(n as nat)) == Some(n),
        decimal(n as nat)[0] == '0' ==> n == 0 && decimal(n as nat).len() == 1,
        signed_decimal(n as int) == decimal(n as nat),
        signed_decimal(negative).len() == decimal((-negative) as nat).len() + 1,
        signed_decimal(negative)[0] == '-',
        signed_decimal(negative).skip(1) == decimal((-negative) as nat),
{
    lemma_decimal_reads_back(n as nat);
    lemma_decimal_has_no_leading_zero(n as nat);
    assert('0' <= decimal(n as nat)[0] <= '9');
    assert(signed_decimal(negative).skip(1) =~= decimal((-negative) as nat));
}

proof fn lemma_decimal_has_no_leading_zero(n: nat)
    ensures
        decimal(n).len() > 0,
        decimal(n)[0] == '0' ==> n == 0 && decimal(n).len() == 1,
    decreases n,
{
    if n >= 10 {
        lemma_decimal_has_no_leading_zero(n / 10);
        assert(decimal(n)[0] == decimal(n / 10)[0]);
    }
}

/// Decimal and hexadecimal numbers are written digit by digit: the last digit is
/// what remains of a division by the base, and the digits before it write the
/// quotient, as long as there is one. Digits above nine are small letters.
pub proof fn law_numbers_are_written_digit_by_digit(n: nat)
    ensures
        decimal(n).last() as int == 48 + n % 10,
        n < 10 ==> decimal(n).len() == 1,
        n >= 10 ==> decimal(n).drop_last() == decimal(n / 10),
        hexadecimal(n).last() as int == (if n % 16 < 10 {
            48 + n % 16
        } else {
            87 + n % 16
        }),
        n < 16 ==> hexadecimal(n).len() == 1,
        n >= 16 ==> hexadecimal(n).drop_last() == hexadecimal(n / 16),
{
    if n >= 10 {
        assert(decimal(n).drop_last() =~= decimal(n / 10));
    }
    if n >= 16 {
        assert(hexadecimal(n).drop_last() =~= hexadecimal(n / 16));
    }
}

/// A number of fixed width has that many digits, and the digit at each place is
/// that of the number.
pub proof fn law_padded_numbers_keep_their_width(n: nat, width: nat)
    ensures
        padded_decimal(n, width).len() == width,
        width > 0 ==> padded_decimal(n, width).last() as int == 48 + n % 10,
        width > 0 ==> padded_decimal(n, width).drop_last() == padded_decimal(
            n / 10,
            (width - 1) as nat,
        ),
    decreases width,
{
    if width > 0 {
        law_padded_numbers_keep_their_width(n / 10, (width - 1) as nat);
        assert(padded_decimal(n, width).drop_last() =~= padded_decimal(
            n / 10,
            (width - 1) as nat,
        ));
    }
}

} // verus!
