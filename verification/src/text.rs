//! Text building blocks: decimal and hexadecimal numbers, padding, trimming
//! and lower-casing.

use vstd::prelude::*;
use vstd::string::*;

verus! {

/// `String::push` appends one character.
pub assume_specification[ String::push ](s: &mut String, c: char)
    ensures
        final(s)@ == old(s)@.push(c),
;

/// The decimal digit of a value below ten.
pub open spec fn digit_char(d: int) -> char {
    (48 + d) as char
}

/// Decimal text of a natural number, without leading zeros.
pub open spec fn decimal(n: nat) -> Seq<char>
    decreases n,
{
    if n < 10 {
        seq![digit_char(n as int)]
    } else {
        decimal(n / 10).push(digit_char((n % 10) as int))
    }
}

/// Append the decimal text of `n` to `s`.
pub fn push_decimal(s: &mut String, n: u64)
    ensures
        final(s)@ == old(s)@ + decimal(n as nat),
    decreases n,
{
    if n >= 10 {
        push_decimal(s, n / 10);
    }
    s.push((48u8 + (n % 10) as u8) as char);
}

/// Decimal text of an integer: a minus sign in front of negative numbers.
pub open spec fn decimal_signed(n: int) -> Seq<char> {
    if n < 0 {
        seq!['-'] + decimal((-n) as nat)
    } else {
        decimal(n as nat)
    }
}

/// Append the decimal text of `n`, with a minus sign if it is negative.
pub fn push_signed(s: &mut String, n: i64)
    ensures
        final(s)@ == old(s)@ + decimal_signed(n as int),
{
    if n < 0 {
        s.push('-');
        push_decimal(s, (-(n as i128)) as u64);
    } else {
        push_decimal(s, n as u64);
    }
}

/// `width` blanks.
pub open spec fn blanks(width: int) -> Seq<char> {
    Seq::new(if width > 0 { width as nat } else { 0 }, |i: int| ' ')
}

/// `text` right-aligned in a column of `width` characters; longer text is kept whole.
pub open spec fn padded_left(text: Seq<char>, width: int) -> Seq<char> {
    blanks(width - text.len()) + text
}

/// `text` left-aligned in a column of `width` characters; longer text is kept whole.
pub open spec fn padded_right(text: Seq<char>, width: int) -> Seq<char> {
    text + blanks(width - text.len())
}

/// Append blanks until `have` columns have grown to `width`.
fn push_blanks(s: &mut String, have: usize, width: usize)
    ensures
        final(s)@ == old(s)@ + blanks(width - have),
{
    let mut n: usize = have;
    assert(s@ =~= old(s)@ + blanks(0));
    while n < width
        invariant
            have <= n <= width || n == have,
            s@ == old(s)@ + blanks(n - have),
        decreases width - n,
    {
        s.push(' ');
        n = n + 1;
        assert(blanks(n - have) =~= blanks(n - have - 1).push(' '));
        assert(s@ =~= old(s)@ + blanks(n - have));
    }
    if width < have {
        assert(blanks(width - have) =~= blanks(0));
    }
}

/// Right-align `text` in `width` columns.
pub fn pad_left(text: &str, width: usize) -> (out: String)
    ensures
        out@ == padded_left(text@, width as int),
{
    let mut out: String = String::new();
    push_blanks(&mut out, text.unicode_len(), width);
    out.append(text);
    assert(out@ =~= padded_left(text@, width as int));
    out
}

/// Left-align `text` in `width` columns.
pub fn pad_right(text: &str, width: usize) -> (out: String)
    ensures
        out@ == padded_right(text@, width as int),
{
    let mut out: String = text.to_owned();
    push_blanks(&mut out, text.unicode_len(), width);
    out
}

/// Decimal text as a fresh string.
pub fn decimal_text(n: u64) -> (out: String)
    ensures
        out@ == decimal(n as nat),
{
    let mut out: String = String::new();
    push_decimal(&mut out, n);
    assert(out@ =~= decimal(n as nat));
    out
}

/// Signed decimal text as a fresh string.
pub fn signed_text(n: i64) -> (out: String)
    ensures
        out@ == decimal_signed(n as int),
{
    let mut out: String = String::new();
    push_signed(&mut out, n);
    assert(out@ =~= decimal_signed(n as int));
    out
}

/// Law: what is appended to a text is what the number is written as alone.
pub proof fn law_appended_numbers(
    s: &mut String,
    n: u64,
    plain: String,
    t: &mut String,
    m: i64,
    signed: String,
    u: &mut String,
    w: u16,
)
    requires
        call_ensures(push_decimal, (s, n), ()),
        call_ensures(decimal_text, (n,), plain),
        call_ensures(push_signed, (t, m), ()),
        call_ensures(signed_text, (m,), signed),
        call_ensures(push_hex_word, (u, w), ()),
    ensures
        final(s)@ == old(s)@ + plain@,
        final(t)@ == old(t)@ + signed@,
        final(u)@ == old(u)@ + hex_word(w as int),
{
}

/// Law: padding adds blanks and nothing else, in front or behind, up to the
/// width of the column; text that is as wide or wider is kept as it is.
pub proof fn law_padding(text: &str, width: usize, left: String, right: String)
    requires
        call_ensures(pad_left, (text, width), left),
        call_ensures(pad_right, (text, width), right),
    ensures
        text@.len() >= width ==> left@ == text@ && right@ == text@,
        text@.len() < width ==> {
            let gap = width - text@.len();
            &&& left@.len() == width
            &&& right@.len() == width
            &&& left@.skip(gap) == text@
            &&& right@.take(text@.len() as int) == text@
            &&& forall|i: int| 0 <= i < gap ==> #[trigger] left@[i] == ' '
            &&& forall|i: int| text@.len() <= i < width ==> #[trigger] right@[i] == ' '
        },
{
    let gap = width - text@.len();
    if text@.len() < width {
        assert(left@.skip(gap) =~= text@);
        assert(right@.take(text@.len() as int) =~= text@);
    } else {
        assert(left@ =~= text@);
        assert(right@ =~= text@);
    }
}

/// Law: the text of a number is its digits: a number below ten is one digit,
/// and a digit more at the end is ten times the number and that digit.
pub proof fn law_decimal_digits(n: u64, d: u64, one: String, more: String, last: String)
    requires
        d < 10,
        0 < n,
        10 * n + d <= u64::MAX,
        call_ensures(decimal_text, (d,), last),
        call_ensures(decimal_text, (n,), one),
        call_ensures(decimal_text, ((10 * n + d) as u64,), more),
    ensures
        last@.len() == 1,
        last@[0] as int == '0' as int + d,
        more@ == one@.push(last@[0]),
{
}

/// Law: a negative number has a minus sign in front of the text of its size,
/// and another number has none.
pub proof fn law_sign(n: i64, signed: String, size: String)
    requires
        n > i64::MIN,
        call_ensures(signed_text, (n,), signed),
        call_ensures(decimal_text, ((if n < 0 {
            -(n as int)
        } else {
            n as int
        }) as u64,), size),
    ensures
        n >= 0 ==> signed@ == size@,
        n < 0 ==> signed@ == seq!['-'] + size@,
{
}

// ── Hexadecimal ─────────────────────────────────────────────────────

/// Upper-case hexadecimal digit of a value below sixteen.
pub open spec fn hex_digit_upper(d: int) -> char {
    if d < 10 {
        (48 + d) as char
    } else {
        (55 + d) as char
    }
}

/// Lower-case hexadecimal digit of a value below sixteen.
pub open spec fn hex_digit_lower(d: int) -> char {
    if d < 10 {
        (48 + d) as char
    } else {
        (87 + d) as char
    }
}

/// A 16-bit word as four upper-case hexadecimal digits.
pub open spec fn hex_word(n: int) -> Seq<char> {
    seq![
        hex_digit_upper(n / 4096),
        hex_digit_upper((n / 256) % 16),
        hex_digit_upper((n / 16) % 16),
        hex_digit_upper(n % 16),
    ]
}

/// Two lower-case hexadecimal digits per byte, high half first.
pub open spec fn hex_bytes(bytes: Seq<u8>) -> Seq<char> {
    Seq::new(
        2 * bytes.len(),
        |i: int|
            hex_digit_lower(
                if i % 2 == 0 {
                    bytes[i / 2] as int / 16
                } else {
                    bytes[i / 2] as int % 16
                },
            ),
    )
}

/// Append one upper-case hexadecimal digit.
fn push_hex_digit(s: &mut String, d: u16)
    requires
        d < 16,
    ensures
        final(s)@ == old(s)@.push(hex_digit_upper(d as int)),
{
    if d < 10 {
        s.push((48u8 + d as u8) as char);
    } else {
        s.push((55u8 + d as u8) as char);
    }
}

/// Append a 16-bit word as four upper-case hexadecimal digits.
pub fn push_hex_word(s: &mut String, n: u16)
    ensures
        final(s)@ == old(s)@ + hex_word(n as int),
{
    push_hex_digit(s, n / 4096);
    push_hex_digit(s, (n / 256) % 16);
    push_hex_digit(s, (n / 16) % 16);
    push_hex_digit(s, n % 16);
    assert(s@ =~= old(s)@ + hex_word(n as int));
}

/// The value of a hexadecimal digit.
pub open spec fn hex_value(c: char) -> int {
    if '0' <= c <= '9' {
        c as int - '0' as int
    } else if 'a' <= c <= 'f' {
        c as int - 'a' as int + 10
    } else {
        c as int - 'A' as int + 10
    }
}

/// Law: the digits of a word are its value to the base of sixteen, none of
/// them a small letter.
pub proof fn law_hex_word_is_its_value(n: u16)
    ensures
        ({
            let t = hex_word(n as int);
            &&& t.len() == 4
            &&& n == 4096 * hex_value(t[0]) + 256 * hex_value(t[1]) + 16 * hex_value(t[2])
                + hex_value(t[3])
            &&& forall|i: int|
                0 <= i < 4 ==> '0' <= #[trigger] t[i] <= '9' || 'A' <= t[i] <= 'F'
        }),
{
    let t = hex_word(n as int);
    let a = n as int / 4096;
    let b = (n as int / 256) % 16;
    let c = (n as int / 16) % 16;
    let d = n as int % 16;
    assert(n == 4096 * a + 256 * b + 16 * c + d);
    assert(t[0] == hex_digit_upper(a));
    assert(t[1] == hex_digit_upper(b));
    assert(t[2] == hex_digit_upper(c));
    assert(t[3] == hex_digit_upper(d));
}

/// Law: the two digits of a byte are its value to the base of sixteen, none
/// of them a capital letter.
pub proof fn law_hex_byte_is_its_value(bytes: Seq<u8>, i: int)
    requires
        0 <= i < bytes.len(),
    ensures
        ({
            let t = hex_bytes(bytes);
            &&& t.len() == 2 * bytes.len()
            &&& bytes[i] == 16 * hex_value(t[2 * i]) + hex_value(t[2 * i + 1])
            &&& '0' <= t[2 * i] <= '9' || 'a' <= t[2 * i] <= 'f'
            &&& '0' <= t[2 * i + 1] <= '9' || 'a' <= t[2 * i + 1] <= 'f'
        }),
{
    let t = hex_bytes(bytes);
    assert((2 * i) / 2 == i && (2 * i) % 2 == 0);
    assert((2 * i + 1) / 2 == i && (2 * i + 1) % 2 == 1);
    assert(t[2 * i] == hex_digit_lower(bytes[i] as int / 16));
    assert(t[2 * i + 1] == hex_digit_lower(bytes[i] as int % 16));
}

/// `hex::encode`: every byte becomes two lower-case hexadecimal digits, the
/// high half first, and nothing else is written.
#[verifier::external_body]
pub(crate) fn hex_encode(data: &[u8]) -> (out: String)
    ensures
        out@ == hex_bytes(data@),
{
    hex::encode(data)
}

// ── Trimming and case ───────────────────────────────────────────────

/// The characters with the Unicode `White_Space` property.
pub open spec fn is_white(c: char) -> bool {
    let n = c as int;
    ||| 9 <= n <= 13
    ||| n == 0x20
    ||| n == 0x85
    ||| n == 0xA0
    ||| n == 0x1680
    ||| 0x2000 <= n <= 0x200A
    ||| n == 0x2028
    ||| n == 0x2029
    ||| n == 0x202F
    ||| n == 0x205F
    ||| n == 0x3000
}

/// `text` without its leading white space.
pub open spec fn trimmed_start(text: Seq<char>) -> Seq<char>
    decreases text.len(),
{
    if text.len() > 0 && is_white(text[0]) {
        trimmed_start(text.drop_first())
    } else {
        text
    }
}

/// `text` without its trailing white space.
pub open spec fn trimmed_end(text: Seq<char>) -> Seq<char>
    decreases text.len(),
{
    if text.len() > 0 && is_white(text.last()) {
        trimmed_end(text.drop_last())
    } else {
        text
    }
}

/// `text` without white space at either end.
pub open spec fn trimmed(text: Seq<char>) -> Seq<char> {
    trimmed_end(trimmed_start(text))
}

/// Whether a text is nothing but white space.
pub open spec fn all_white(text: Seq<char>) -> bool {
    forall|i: int| 0 <= i < text.len() ==> is_white(#[trigger] text[i])
}

/// Law: white space around a text that has none at its ends is taken off,
/// and nothing else.
pub proof fn law_trimming_takes_off_white_space(
    before: Seq<char>,
    text: Seq<char>,
    after: Seq<char>,
)
    requires
        all_white(before),
        all_white(after),
        text.len() > 0,
        !is_white(text[0]),
        !is_white(text.last()),
    ensures
        trimmed(before + text + after) == text,
{
    lemma_white_start(before, text + after);
    assert(before + text + after =~= before + (text + after));
    lemma_white_end(text, after);
}

/// Law: of white space alone nothing is left, and a text that is trimmed has
/// no white space at its ends.
pub proof fn law_trimmed_ends(s: &str, out: String)
    requires
        call_ensures(trim, (s,), out),
    ensures
        all_white(s@) <==> out@.len() == 0,
        out@.len() > 0 ==> !is_white(out@[0]) && !is_white(out@.last()),
{
    lemma_trimmed_start(s@);
    lemma_trimmed_end(trimmed_start(s@));
}

/// White space alone is trimmed to nothing, and nothing else is.
pub proof fn lemma_trimmed(t: Seq<char>)
    ensures
        all_white(t) <==> trimmed(t).len() == 0,
{
    lemma_trimmed_start(t);
    lemma_trimmed_end(trimmed_start(t));
}

proof fn lemma_trimmed_start(t: Seq<char>)
    ensures
        all_white(t) <==> trimmed_start(t).len() == 0,
        trimmed_start(t).len() > 0 ==> !is_white(trimmed_start(t)[0]),
    decreases t.len(),
{
    if t.len() > 0 {
        if is_white(t[0]) {
            let rest = t.drop_first();
            lemma_trimmed_start(rest);
            if all_white(rest) {
                assert forall|i: int| 0 <= i < t.len() implies is_white(#[trigger] t[i]) by {
                    if i > 0 {
                        assert(rest[i - 1] == t[i]);
                    }
                }
            }
            if all_white(t) {
                assert forall|i: int| 0 <= i < rest.len() implies is_white(#[trigger] rest[i]) by {
                    assert(rest[i] == t[i + 1]);
                }
            }
        } else {
            assert(!is_white(t[0]));
        }
    }
}

proof fn lemma_trimmed_end(t: Seq<char>)
    requires
        t.len() > 0 ==> !is_white(t[0]),
    ensures
        t.len() > 0 <==> trimmed_end(t).len() > 0,
        t.len() > 0 ==> trimmed_end(t)[0] == t[0] && !is_white(trimmed_end(t).last()),
    decreases t.len(),
{
    if t.len() > 0 && is_white(t.last()) {
        lemma_trimmed_end(t.drop_last());
    }
}

/// Law: the characters that count as white space.
pub proof fn law_white_space(c: char, r: bool)
    requires
        call_ensures(white, (c,), r),
    ensures
        r <==> {
            ||| c == '\t' || c == '\n' || c == '\u{b}' || c == '\u{c}' || c == '\r' || c == ' '
            ||| c == '\u{85}' || c == '\u{a0}' || c == '\u{1680}'
            ||| '\u{2000}' <= c <= '\u{200a}'
            ||| c == '\u{2028}' || c == '\u{2029}' || c == '\u{202f}' || c == '\u{205f}'
            ||| c == '\u{3000}'
        },
{
}

proof fn lemma_white_start(before: Seq<char>, rest: Seq<char>)
    requires
        all_white(before),
        rest.len() > 0,
        !is_white(rest[0]),
    ensures
        trimmed_start(before + rest) == rest,
    decreases before.len(),
{
    let t = before + rest;
    if before.len() == 0 {
        assert(t =~= rest);
    } else {
        assert(t[0] == before[0]);
        assert(t.drop_first() =~= before.drop_first() + rest);
        lemma_white_start(before.drop_first(), rest);
    }
}

proof fn lemma_white_end(rest: Seq<char>, after: Seq<char>)
    requires
        all_white(after),
        rest.len() > 0,
        !is_white(rest.last()),
    ensures
        trimmed_end(rest + after) == rest,
    decreases after.len(),
{
    let t = rest + after;
    if after.len() == 0 {
        assert(t =~= rest);
    } else {
        assert(t.last() == after.last());
        assert(t.drop_last() =~= rest + after.drop_last());
        lemma_white_end(rest, after.drop_last());
    }
}

/// Whether `c` has the Unicode `White_Space` property.
pub fn white(c: char) -> (r: bool)
    ensures
        r == is_white(c),
{
    let n: u32 = c as u32;
    (9 <= n && n <= 13) || n == 0x20 || n == 0x85 || n == 0xA0 || n == 0x1680 || (0x2000 <= n && n
        <= 0x200A) || n == 0x2028 || n == 0x2029 || n == 0x202F || n == 0x205F || n == 0x3000
}

/// The text without white space at either end.
pub fn trim(s: &str) -> (out: String)
    ensures
        out@ == trimmed(s@),
{
    let text: Vec<char> = chars_of(s);
    let mut from: usize = 0;
    assert(text@.skip(0) =~= s@);
    while from < text.len() && white(text[from])
        invariant
            from <= text.len(),
            text@ == s@,
            trimmed_start(s@) == trimmed_start(text@.skip(from as int)),
        decreases text.len() - from,
    {
        assert(text@.skip(from as int).drop_first() =~= text@.skip(from + 1));
        from = from + 1;
    }
    let mut to: usize = text.len();
    assert(text@.subrange(from as int, to as int) =~= text@.skip(from as int));
    while from < to && white(text[to - 1])
        invariant
            from <= to <= text.len(),
            trimmed(s@) == trimmed_end(text@.subrange(from as int, to as int)),
        decreases to - from,
    {
        assert(text@.subrange(from as int, to as int).drop_last() =~= text@.subrange(
            from as int,
            to - 1,
        ));
        to = to - 1;
    }
    let mut out: String = String::new();
    let mut i: usize = from;
    assert(out@ =~= text@.subrange(from as int, i as int));
    while i < to
        invariant
            from <= i <= to <= text.len(),
            out@ == text@.subrange(from as int, i as int),
        decreases to - i,
    {
        out.push(text[i]);
        i = i + 1;
        assert(out@ =~= text@.subrange(from as int, i as int));
    }
    out
}

/// All characters are below 128.
pub open spec fn all_ascii(text: Seq<char>) -> bool {
    forall|i: int| 0 <= i < text.len() ==> (#[trigger] text[i]) as int <= 127
}

/// `A`–`Z` become `a`–`z`; every other character stays.
pub open spec fn ascii_lower(text: Seq<char>) -> Seq<char> {
    text.map_values(
        |c: char|
            if 65 <= c as int <= 90 {
                (c as int + 32) as char
            } else {
                c
            },
    )
}

/// The Unicode lower-case form of a text, as `str::to_lowercase` gives it.
pub uninterp spec fn unicode_lower(text: Seq<char>) -> Seq<char>;

/// A text in lower case. Of ASCII text this is the text with the letters
/// `A`–`Z` replaced by `a`–`z`; of other text it is the Unicode form.
pub open spec fn lowered(text: Seq<char>) -> Seq<char> {
    if all_ascii(text) {
        ascii_lower(text)
    } else {
        unicode_lower(text)
    }
}

/// Law: a capital letter becomes the small letter at its place in the
/// alphabet, and every other character stays.
pub proof fn law_capitals_become_small(text: Seq<char>, i: int)
    requires
        0 <= i < text.len(),
    ensures
        ascii_lower(text).len() == text.len(),
        'A' <= text[i] <= 'Z' ==> ascii_lower(text)[i] as int - 'a' as int == text[i] as int
            - 'A' as int,
        !('A' <= text[i] <= 'Z') ==> ascii_lower(text)[i] == text[i],
{
}

/// Law: an ASCII text and its lower-case form have the same lower-case form.
pub proof fn law_lowering_ascii_twice(text: Seq<char>)
    requires
        all_ascii(text),
    ensures
        all_ascii(ascii_lower(text)),
        lowered(ascii_lower(text)) == lowered(text),
{
    let low = ascii_lower(text);
    assert forall|i: int| 0 <= i < low.len() implies (#[trigger] low[i]) as int <= 127 by {
        assert(text[i] as int <= 127);
    }
    assert(ascii_lower(low) =~= low);
}

/// `str::to_lowercase`: the Unicode lower-case form of the text, named by
/// [`unicode_lower`]. Of ASCII text that form is the text with the letters
/// `A`–`Z` replaced by `a`–`z`.
#[verifier::external_body]
pub(crate) fn to_lowercase(s: &str) -> (out: String)
    ensures
        out@ == unicode_lower(s@),
        all_ascii(s@) ==> out@ == ascii_lower(s@),
{
    s.to_lowercase()
}

/// Whether two texts are the same.
pub fn same_text(a: &str, b: &str) -> (r: bool)
    ensures
        r == (a@ == b@),
{
    a.to_owned() == b.to_owned()
}

/// The characters of `s`, in order.
pub fn chars_of(s: &str) -> (out: Vec<char>)
    ensures
        out@ == s@,
{
    let mut out: Vec<char> = Vec::new();
    for c in it: s.chars()
        invariant
            out@ == it.seq().take(it.index() as int),
            it.seq() == s@,
    {
        out.push(c);
    }
    out
}

} // verus!
