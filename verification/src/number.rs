//! Integer parsing with the grammar of the standard library's `FromStr`
//! and `from_str_radix`: an optional sign, then digits, left to right.

use vstd::prelude::*;
use vstd::string::*;

use crate::text;
use crate::text::chars_of;

verus! {

/// Why a text is not an integer of the wanted type.
#[derive(Debug, Clone, Copy, PartialEq, Eq, Structural)]
pub enum IntError {
    /// The text is empty.
    Empty,
    /// A character is not a digit of the radix, or there is only a sign.
    InvalidDigit,
    /// The number is above the type's largest value.
    PosOverflow,
    /// The number is below the type's smallest value.
    NegOverflow,
}

impl IntError {
    /// The message shown to the operator.
    pub open spec fn text(self) -> Seq<char> {
        match self {
            IntError::Empty => "cannot parse integer from empty string"@,
            IntError::InvalidDigit => "invalid digit found in string"@,
            IntError::PosOverflow => "number too large to fit in target type"@,
            IntError::NegOverflow => "number too small to fit in target type"@,
        }
    }

    /// The message shown to the operator.
    pub fn message(self) -> (out: String)
        ensures
            out@ == self.text(),
    {
        match self {
            IntError::Empty => "cannot parse integer from empty string".to_owned(),
            IntError::InvalidDigit => "invalid digit found in string".to_owned(),
            IntError::PosOverflow => "number too large to fit in target type".to_owned(),
            IntError::NegOverflow => "number too small to fit in target type".to_owned(),
        }
    }
}

/// Law: each thing that can be wrong with a number has a message of its own.
pub proof fn law_number_messages(e: IntError, message: String)
    requires
        call_ensures(IntError::message, (e,), message),
    ensures
        e == IntError::Empty <==> message@ == "cannot parse integer from empty string"@,
        e == IntError::InvalidDigit <==> message@ == "invalid digit found in string"@,
        e == IntError::PosOverflow <==> message@ == "number too large to fit in target type"@,
        e == IntError::NegOverflow <==> message@ == "number too small to fit in target type"@,
{
    reveal_strlit("cannot parse integer from empty string");
    reveal_strlit("invalid digit found in string");
    reveal_strlit("number too large to fit in target type");
    reveal_strlit("number too small to fit in target type");
    assert("cannot parse integer from empty string"@[0] == 'c');
    assert("invalid digit found in string"@[0] == 'i');
    assert("number too large to fit in target type"@[11] == 'l');
    assert("number too small to fit in target type"@[11] == 's');
    assert("number too large to fit in target type"@[0] == 'n');
    assert("number too small to fit in target type"@[0] == 'n');
}

/// The value of a digit, letters standing for ten and up; `None` if `c` is
/// not a digit of the radix.
pub open spec fn digit_value(c: char, radix: int) -> Option<int> {
    let n = c as int;
    let v = if 48 <= n <= 57 {
        n - 48
    } else if 97 <= n <= 122 {
        n - 87
    } else if 65 <= n <= 90 {
        n - 55
    } else {
        radix
    };
    if v < radix {
        Some(v)
    } else {
        None
    }
}

/// Read digits from left to right, starting from `acc` and moving up (or
/// down, for a negative number), and stop at the first character that is no
/// digit or leaves the range `min..=max`.
pub open spec fn scan(text: Seq<char>, radix: int, down: bool, min: int, max: int, acc: int) -> Result<
    int,
    IntError,
>
    decreases text.len(),
{
    if text.len() == 0 {
        Ok(acc)
    } else {
        match digit_value(text[0], radix) {
            None => Err(IntError::InvalidDigit),
            Some(d) => {
                let next = if down {
                    acc * radix - d
                } else {
                    acc * radix + d
                };
                if next > max {
                    Err(IntError::PosOverflow)
                } else if next < min {
                    Err(IntError::NegOverflow)
                } else {
                    scan(text.drop_first(), radix, down, min, max, next)
                }
            },
        }
    }
}

/// The integer that `text` denotes, in the range `min..=max`. A leading `+`
/// is always read as a sign, a leading `-` only where negative numbers exist.
pub open spec fn int_value(text: Seq<char>, radix: int, min: int, max: int) -> Result<
    int,
    IntError,
> {
    if text.len() == 0 {
        Err(IntError::Empty)
    } else if text.len() == 1 && (text[0] == '+' || text[0] == '-') {
        Err(IntError::InvalidDigit)
    } else if text[0] == '+' {
        scan(text.drop_first(), radix, false, min, max, 0)
    } else if text[0] == '-' && min < 0 {
        scan(text.drop_first(), radix, true, min, max, 0)
    } else {
        scan(text, radix, false, min, max, 0)
    }
}

/// The value of one digit.
fn digit(c: char, radix: i64) -> (r: Option<i64>)
    requires
        2 <= radix <= 36,
    ensures
        match r {
            Some(d) => digit_value(c, radix as int) == Some(d as int) && 0 <= d < radix,
            None => digit_value(c, radix as int) is None,
        },
{
    let n: u32 = c as u32;
    let v: i64 = if 48 <= n && n <= 57 {
        (n - 48) as i64
    } else if 97 <= n && n <= 122 {
        (n - 87) as i64
    } else if 65 <= n && n <= 90 {
        (n - 55) as i64
    } else {
        radix
    };
    if v < radix {
        Some(v)
    } else {
        None
    }
}

/// Parse an integer in the given radix and range.
pub fn parse_int(s: &str, radix: i64, min: i64, max: i64) -> (r: Result<i64, IntError>)
    requires
        2 <= radix <= 36,
        -0x1_0000_0000 <= min <= 0 <= max <= 0x1_0000_0000,
    ensures
        match r {
            Ok(v) => int_value(s@, radix as int, min as int, max as int) == Ok::<int, IntError>(
                v as int,
            ) && min <= v <= max,
            Err(e) => int_value(s@, radix as int, min as int, max as int) == Err::<int, IntError>(
                e,
            ),
        },
{
    let text: Vec<char> = chars_of(s);
    if text.len() == 0 {
        return Err(IntError::Empty);
    }
    if text.len() == 1 && (text[0] == '+' || text[0] == '-') {
        return Err(IntError::InvalidDigit);
    }
    let mut i: usize = 0;
    let mut down: bool = false;
    if text[0] == '+' {
        i = 1;
    } else if text[0] == '-' && min < 0 {
        i = 1;
        down = true;
    }
    let mut acc: i64 = 0;
    proof {
        assert(text@.skip(0) =~= text@);
        assert(text@.skip(1) =~= text@.drop_first());
    }
    while i < text.len()
        invariant
            2 <= radix <= 36,
            -0x1_0000_0000 <= min <= acc <= max <= 0x1_0000_0000,
            i <= text.len(),
            int_value(s@, radix as int, min as int, max as int) == scan(
                text@.skip(i as int),
                radix as int,
                down,
                min as int,
                max as int,
                acc as int,
            ),
        decreases text.len() - i,
    {
        proof {
            assert(text@.skip(i as int).drop_first() =~= text@.skip(i + 1));
            assert(-0x1_0000_0000 * 36 <= acc * radix <= 0x1_0000_0000 * 36) by (nonlinear_arith)
                requires
                    -0x1_0000_0000 <= acc <= 0x1_0000_0000,
                    2 <= radix <= 36,
            ;
        }
        match digit(text[i], radix) {
            None => {
                return Err(IntError::InvalidDigit);
            },
            Some(d) => {
                let next: i64 = if down {
                    acc * radix - d
                } else {
                    acc * radix + d
                };
                if next > max {
                    return Err(IntError::PosOverflow);
                }
                if next < min {
                    return Err(IntError::NegOverflow);
                }
                acc = next;
            },
        }
        i = i + 1;
    }
    Ok(acc)
}

/// Reading one more digit at the end continues from what the digits before it gave.
pub proof fn lemma_scan_push(
    text: Seq<char>,
    c: char,
    radix: int,
    down: bool,
    min: int,
    max: int,
    acc: int,
)
    ensures
        scan(text.push(c), radix, down, min, max, acc) == match scan(
            text,
            radix,
            down,
            min,
            max,
            acc,
        ) {
            Ok(v) => scan(seq![c], radix, down, min, max, v),
            Err(e) => Err(e),
        },
    decreases text.len(),
{
    if text.len() == 0 {
        assert(text.push(c) =~= seq![c]);
    } else {
        assert(text.push(c).drop_first() =~= text.drop_first().push(c));
        match digit_value(text[0], radix) {
            None => {},
            Some(d) => {
                let next = if down {
                    acc * radix - d
                } else {
                    acc * radix + d
                };
                if min <= next <= max {
                    lemma_scan_push(text.drop_first(), c, radix, down, min, max, next);
                }
            },
        }
    }
}

/// Decimal digits read back as the number they were written for.
pub proof fn lemma_scan_decimal(n: nat, down: bool, min: int, max: int)
    requires
        min <= 0 <= max,
        down ==> min <= -n,
        !down ==> n <= max,
    ensures
        scan(text::decimal(n), 10, down, min, max, 0) == Ok::<int, IntError>(
            if down {
                -(n as int)
            } else {
                n as int
            },
        ),
        text::decimal(n).len() > 0,
        48 <= text::decimal(n)[0] as int <= 57,
    decreases n,
{
    reveal_with_fuel(scan, 2);
    if n >= 10 {
        lemma_scan_decimal(n / 10, down, min, max);
        lemma_scan_push(
            text::decimal(n / 10),
            text::digit_char((n % 10) as int),
            10,
            down,
            min,
            max,
            0,
        );
    }
}

/// Law: a number that is read is in its range.
pub proof fn law_value_in_range(text: Seq<char>, radix: int, min: int, max: int)
    requires
        min <= 0 <= max,
    ensures
        int_value(text, radix, min, max) matches Ok(n) ==> min <= n <= max,
{
    if text.len() > 0 {
        lemma_scan_in_range(text, radix, false, min, max, 0);
        lemma_scan_in_range(text.drop_first(), radix, false, min, max, 0);
        lemma_scan_in_range(text.drop_first(), radix, true, min, max, 0);
    }
}

proof fn lemma_scan_in_range(
    text: Seq<char>,
    radix: int,
    down: bool,
    min: int,
    max: int,
    acc: int,
)
    requires
        min <= acc <= max,
    ensures
        scan(text, radix, down, min, max, acc) matches Ok(n) ==> min <= n <= max,
    decreases text.len(),
{
    if text.len() > 0 {
        match digit_value(text[0], radix) {
            None => {},
            Some(d) => {
                let next = if down {
                    acc * radix - d
                } else {
                    acc * radix + d
                };
                if min <= next <= max {
                    lemma_scan_in_range(text.drop_first(), radix, down, min, max, next);
                }
            },
        }
    }
}

/// Law: one more digit behind a number that is read multiplies it by the radix
/// and adds the digit, or takes it off below zero, while that is in range;
/// otherwise the number is too large or too small.
pub proof fn law_one_more_digit(
    digits: Seq<char>,
    c: char,
    d: int,
    radix: int,
    min: int,
    max: int,
    n: int,
)
    requires
        2 <= radix <= 36,
        min <= 0 <= max,
        digits.len() > 0,
        digits[0] != '+' && digits[0] != '-' || digits.len() > 1,
        int_value(digits, radix, min, max) == Ok::<int, IntError>(n),
        0 <= d < radix,
        d < 10 ==> c as int == '0' as int + d,
        d >= 10 ==> c as int == 'a' as int + d - 10 || c as int == 'A' as int + d - 10,
    ensures
        ({
            let next = if digits[0] == '-' {
                n * radix - d
            } else {
                n * radix + d
            };
            int_value(digits.push(c), radix, min, max) == if next > max {
                Err::<int, IntError>(IntError::PosOverflow)
            } else if next < min {
                Err::<int, IntError>(IntError::NegOverflow)
            } else {
                Ok::<int, IntError>(next)
            }
        }),
{
    let t = digits.push(c);
    reveal_with_fuel(scan, 2);
    if digits[0] == '+' || (digits[0] == '-' && min < 0) {
        let rest = digits.drop_first();
        assert(t.drop_first() =~= rest.push(c));
        lemma_scan_push(rest, c, radix, digits[0] == '-', min, max, 0);
    } else {
        if digits[0] == '-' {
            assert(digit_value(digits[0], radix) is None);
        }
        lemma_scan_push(digits, c, radix, false, min, max, 0);
    }
}

/// Law: a digit alone is its value. A plus sign changes nothing; a minus sign
/// is no digit where there are no negative numbers. No text, a sign alone and
/// a character that is no digit, in front or behind a number, are refused,
/// each as what it is.
pub proof fn law_signs_and_refusals(
    t: Seq<char>,
    c: char,
    d: int,
    radix: int,
    min: int,
    max: int,
)
    requires
        2 <= radix <= 36,
        min <= 0 <= max,
        t.len() > 0,
        t[0] != '+',
        t[0] != '-',
    ensures
        0 <= d < radix && d <= max && (d < 10 && c as int == '0' as int + d || d >= 10 && (c as int
            == 'a' as int + d - 10 || c as int == 'A' as int + d - 10)) ==> int_value(
            seq![c],
            radix,
            min,
            max,
        ) == Ok::<int, IntError>(d),
        int_value(seq!['+'] + t, radix, min, max) == int_value(t, radix, min, max),
        min >= 0 ==> int_value(seq!['-'] + t, radix, min, max) == Err::<int, IntError>(
            IntError::InvalidDigit,
        ),
        int_value(Seq::empty(), radix, min, max) == Err::<int, IntError>(IntError::Empty),
        int_value(seq!['+'], radix, min, max) == Err::<int, IntError>(IntError::InvalidDigit),
        int_value(seq!['-'], radix, min, max) == Err::<int, IntError>(IntError::InvalidDigit),
        !('0' <= c <= '9') && !('a' <= c <= 'z') && !('A' <= c <= 'Z') && c != '+' && c != '-' ==> {
            &&& int_value(seq![c] + t, radix, min, max) == Err::<int, IntError>(
                IntError::InvalidDigit,
            )
            &&& int_value(t, radix, min, max) is Ok ==> int_value(t.push(c), radix, min, max)
                == Err::<int, IntError>(IntError::InvalidDigit)
        },
{
    reveal_with_fuel(scan, 2);
    assert((seq!['+'] + t).drop_first() =~= t);
    assert((seq!['-'] + t)[0] == '-');
    assert((seq![c] + t)[0] == c);
    assert(seq![c].drop_first().len() == 0);
    lemma_scan_push(t, c, radix, false, min, max, 0);
}

/// Law: a number beyond the range is refused as too large, or as too small.
pub proof fn law_decimal_out_of_range(n: int, min: int, max: int)
    requires
        min <= 0 <= max,
        n > max || (n < min && min < 0),
    ensures
        int_value(text::decimal_signed(n), 10, min, max) == Err::<int, IntError>(
            if n > max {
                IntError::PosOverflow
            } else {
                IntError::NegOverflow
            },
        ),
{
    if n < 0 {
        lemma_scan_too_far((-n) as nat, true, min, max);
        assert(text::decimal_signed(n).drop_first() =~= text::decimal((-n) as nat));
    } else {
        lemma_scan_too_far(n as nat, false, min, max);
    }
}

proof fn lemma_scan_too_far(n: nat, down: bool, min: int, max: int)
    requires
        min <= 0 <= max,
        down ==> -n < min,
        !down ==> n > max,
    ensures
        scan(text::decimal(n), 10, down, min, max, 0) == Err::<int, IntError>(
            if down {
                IntError::NegOverflow
            } else {
                IntError::PosOverflow
            },
        ),
        text::decimal(n).len() > 0,
        48 <= text::decimal(n)[0] as int <= 57,
    decreases n,
{
    reveal_with_fuel(scan, 2);
    if n >= 10 {
        let last = text::digit_char((n % 10) as int);
        lemma_scan_push(text::decimal(n / 10), last, 10, down, min, max, 0);
        if down && -(n / 10) < min || !down && n / 10 > max {
            lemma_scan_too_far(n / 10, down, min, max);
        } else {
            lemma_scan_decimal(n / 10, down, min, max);
        }
    }
}

/// Law: decimal text read back as an integer gives the number it was written for.
pub proof fn law_decimal_reads_back(n: int, min: int, max: int)
    requires
        min <= 0 <= max,
        min <= n <= max,
    ensures
        int_value(text::decimal_signed(n), 10, min, max) == Ok::<int, IntError>(n),
{
    if n < 0 {
        lemma_scan_decimal((-n) as nat, true, min, max);
        assert(text::decimal_signed(n).drop_first() =~= text::decimal((-n) as nat));
    } else {
        lemma_scan_decimal(n as nat, false, min, max);
    }
}

} // verus!
