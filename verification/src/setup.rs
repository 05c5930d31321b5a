//! Interactive console setup wizard for bridge configuration: what is asked,
//! what an answer means, and the config that results.

use vstd::prelude::*;
use vstd::string::*;

use crate::config;
use crate::config::{
    passphrase_set, BridgeSection, BridgeSectionView, Config, ConfigView, RadioSection,
    RadioSectionView, TxSection,
};
use crate::lora;
use crate::number;
use crate::number::{parse_int, IntError};
use crate::text;
use crate::text::{chars_of, same_text, trim};

verus! {

/// ANSI escapes for styled text.
pub const BOLD: &'static str = "\x1b[1m";

pub const DIM: &'static str = "\x1b[2m";

pub const CYAN: &'static str = "\x1b[36m";

pub const GREEN: &'static str = "\x1b[32m";

pub const YELLOW: &'static str = "\x1b[33m";

pub const RESET: &'static str = "\x1b[0m";

// ── Sync word ───────────────────────────────────────────────────────

/// A text that is not a sync word.
#[derive(Debug)]
pub struct SyncWordError {
    /// The text, in lower case and without its prefix.
    pub text: String,
    /// What is wrong with it.
    pub cause: IntError,
}

/// What a [`SyncWordError`] says.
#[verifier::ext_equal]
pub struct SyncWordErrorView {
    pub text: Seq<char>,
    pub cause: IntError,
}

impl View for SyncWordError {
    type V = SyncWordErrorView;

    open spec fn view(&self) -> SyncWordErrorView {
        SyncWordErrorView { text: self.text@, cause: self.cause }
    }
}

impl SyncWordError {
    /// The message shown to the operator.
    pub fn message(&self) -> (out: String)
        ensures
            out@ == "invalid sync word: "@ + self@.text,
    {
        let mut s: String = "invalid sync word: ".to_owned();
        s.append(self.text.as_str());
        s
    }
}

/// A lower-case text without its `0x` prefix, if it has one.
pub open spec fn without_prefix(lower: Seq<char>) -> Seq<char> {
    if lower.len() >= 2 && lower[0] == '0' && lower[1] == 'x' {
        lower.skip(2)
    } else {
        lower
    }
}

/// The sync word that a lower-case text denotes: a 16-bit hexadecimal number,
/// with or without the prefix `0x`.
pub open spec fn sync_word_of(lower: Seq<char>) -> Result<u16, SyncWordErrorView> {
    match number::int_value(without_prefix(lower), 16, 0, 0xFFFF) {
        Ok(v) => Ok(v as u16),
        Err(cause) => Err(SyncWordErrorView { text: without_prefix(lower), cause }),
    }
}

/// What the result of parsing a sync word says.
pub open spec fn sync_result(r: Result<u16, SyncWordError>) -> Result<u16, SyncWordErrorView> {
    match r {
        Ok(v) => Ok(v),
        Err(e) => Err(e@),
    }
}

/// Parse a sync word from a text that is in lower case and trimmed.
pub fn sync_word_from_lowercase(lower: &str) -> (r: Result<u16, SyncWordError>)
    ensures
        sync_result(r) == sync_word_of(lower@),
{
    let chars: Vec<char> = chars_of(lower);
    let mut digits: String = String::new();
    let from: usize = if chars.len() >= 2 && chars[0] == '0' && chars[1] == 'x' {
        2
    } else {
        0
    };
    let mut i: usize = from;
    assert(lower@.skip(0) =~= lower@);
    assert(without_prefix(lower@) == lower@.skip(from as int));
    assert(digits@ =~= lower@.subrange(from as int, i as int));
    while i < chars.len()
        invariant
            from <= i <= chars@.len(),
            chars@ == lower@,
            digits@ == lower@.subrange(from as int, i as int),
        decreases chars@.len() - i,
    {
        digits.push(chars[i]);
        i = i + 1;
        assert(digits@ =~= lower@.subrange(from as int, i as int));
    }
    assert(digits@ =~= lower@.skip(from as int));
    match parse_int(digits.as_str(), 16, 0, 0xFFFF) {
        Ok(v) => Ok(v as u16),
        Err(cause) => Err(SyncWordError { text: digits, cause }),
    }
}

/// Parse a sync word: white space around it, the case of its letters and a
/// `0x` prefix do not matter.
pub fn parse_sync_word(s: &str) -> (r: Result<u16, SyncWordError>)
    ensures
        sync_result(r) == sync_word_of(text::lowered(text::trimmed(s@))),
{
    let trimmed: String = trim(s);
    let lower: String = text::to_lowercase(trimmed.as_str());
    sync_word_from_lowercase(lower.as_str())
}

/// A sync word as it is shown: `0x` and four upper-case digits.
pub open spec fn shown_sync_word(w: u16) -> Seq<char> {
    "0x"@ + text::hex_word(w as int)
}

fn sync_word_text(w: u16) -> (out: String)
    ensures
        out@ == shown_sync_word(w),
{
    let mut s: String = "0x".to_owned();
    text::push_hex_word(&mut s, w);
    s
}

proof fn lemma_hex_word_scans(n: int)
    requires
        0 <= n <= 0xFFFF,
    ensures
        number::scan(text::ascii_lower(text::hex_word(n)), 16, false, 0, 0xFFFF, 0) == Ok::<
            int,
            IntError,
        >(n),
{
    let t = text::ascii_lower(text::hex_word(n));
    let a = n / 4096;
    let b = (n / 256) % 16;
    let c = (n / 16) % 16;
    let d = n % 16;
    assert(n == ((a * 16 + b) * 16 + c) * 16 + d);
    assert(number::digit_value(t[0], 16) == Some(a));
    assert(number::digit_value(t[1], 16) == Some(b));
    assert(number::digit_value(t[2], 16) == Some(c));
    assert(number::digit_value(t[3], 16) == Some(d));
    let t1 = t.drop_first();
    let t2 = t1.drop_first();
    let t3 = t2.drop_first();
    let t4 = t3.drop_first();
    assert(t1[0] == t[1] && t2[0] == t[2] && t3[0] == t[3] && t4.len() == 0);
    assert(number::scan(t4, 16, false, 0, 0xFFFF, n) == Ok::<int, IntError>(n));
    assert(number::scan(t3, 16, false, 0, 0xFFFF, (a * 16 + b) * 16 + c) == Ok::<int, IntError>(n));
    assert(number::scan(t2, 16, false, 0, 0xFFFF, a * 16 + b) == Ok::<int, IntError>(n));
    assert(number::scan(t1, 16, false, 0, 0xFFFF, a) == Ok::<int, IntError>(n));
}

/// Law: a sync word is read back from the form in which it is shown, and from
/// its four digits alone, with any white space around either.
pub proof fn law_shown_sync_word_reads_back(w: u16, before: Seq<char>, after: Seq<char>)
    requires
        text::all_white(before),
        text::all_white(after),
    ensures
        sync_word_of(text::lowered(text::trimmed(before + shown_sync_word(w) + after))) == Ok::<
            u16,
            SyncWordErrorView,
        >(w),
        sync_word_of(text::lowered(text::trimmed(before + text::hex_word(w as int) + after)))
            == Ok::<u16, SyncWordErrorView>(w),
{
    reveal_strlit("0x");
    let shown = shown_sync_word(w);
    let plain = text::hex_word(w as int);
    let lower = text::ascii_lower(shown);
    let digits = text::ascii_lower(plain);
    text::law_trimming_takes_off_white_space(before, shown, after);
    text::law_trimming_takes_off_white_space(before, plain, after);
    assert(text::all_ascii(shown) && text::all_ascii(plain));
    assert(lower.skip(2) =~= digits);
    lemma_hex_word_scans(w as int);
    assert(digits.len() == 4);
    assert(digits[0] != '+' && digits[0] != '-');
    assert(digits[1] != 'x');
}

/// Law: the case of the letters of a sync word does not matter.
pub proof fn law_sync_word_ignores_case(t: Seq<char>)
    requires
        text::all_ascii(t),
    ensures
        sync_word_of(text::lowered(text::ascii_lower(t))) == sync_word_of(text::lowered(t)),
{
    text::law_lowering_ascii_twice(t);
}

/// Law: a sync word is a hexadecimal number of at most 16 bits, with or without
/// `0x` in front; what is refused is named without that prefix, and the
/// message shows it.
pub proof fn law_sync_word_is_hexadecimal(
    lower: &str,
    digits: Seq<char>,
    r: Result<u16, SyncWordError>,
    e: SyncWordError,
    message: String,
)
    requires
        call_ensures(sync_word_from_lowercase, (lower,), r),
        call_ensures(SyncWordError::message, (&e,), message),
        lower@ == seq!['0', 'x'] + digits || lower@ == digits && !(digits.len() >= 2 && digits[0]
            == '0' && digits[1] == 'x'),
    ensures
        match number::int_value(digits, 16, 0, 65535) {
            Ok(v) => r is Ok && r->Ok_0 == v,
            Err(cause) => r is Err && r->Err_0.text@ == digits && r->Err_0.cause == cause,
        },
        message@ == "invalid sync word: "@ + e.text@,
{
    if lower@ == seq!['0', 'x'] + digits {
        assert(lower@.skip(2) =~= digits);
        assert(lower@[0] == '0' && lower@[1] == 'x');
    }
    number::law_value_in_range(digits, 16, 0, 65535);
}

// ── Prompts ─────────────────────────────────────────────────────────

/// A prompt line: the label, and the default in dim brackets if there is one.
pub open spec fn prompt_line(label: Seq<char>, default: Option<Seq<char>>) -> Seq<char> {
    match default {
        Some(d) => "  "@ + label + " "@ + DIM@ + "["@ + d + "]"@ + RESET@ + ": "@,
        None => "  "@ + label + ": "@,
    }
}

/// A warning line.
pub open spec fn warning_line(message: Seq<char>) -> Seq<char> {
    "  "@ + YELLOW@ + message + RESET@
}

/// What an answer stands for: the text without white space around it, or the
/// default if nothing else was entered.
pub open spec fn answer_text(input: Seq<char>, default: Seq<char>) -> Seq<char> {
    if text::trimmed(input).len() == 0 {
        default
    } else {
        text::trimmed(input)
    }
}

/// Build a prompt line.
pub fn prompt_text(label: &str, default: &Option<String>) -> (out: String)
    ensures
        out@ == prompt_line(label@, config::option_text(*default)),
{
    let mut s: String = "  ".to_owned();
    s.append(label);
    match default {
        Some(d) => {
            s.append(" ");
            s.append(DIM);
            s.append("[");
            s.append(d.as_str());
            s.append("]");
            s.append(RESET);
            s.append(": ");
        },
        None => {
            s.append(": ");
        },
    }
    s
}

/// Build a warning line.
pub fn warning_text(message: &str) -> (out: String)
    ensures
        out@ == warning_line(message@),
{
    let mut s: String = "  ".to_owned();
    s.append(YELLOW);
    s.append(message);
    s.append(RESET);
    s
}

/// What an answer to a prompt with a default stands for.
pub fn answer_or_default(input: &str, default: &str) -> (out: String)
    ensures
        out@ == answer_text(input@, default@),
{
    let trimmed: String = trim(input);
    if trimmed.as_str().is_empty() {
        default.to_owned()
    } else {
        trimmed
    }
}

/// Law: an answer of white space alone stands for the default; any other
/// stands for what was typed, without the white space around it.
pub proof fn law_answer_or_default(
    input: &str,
    default: &str,
    out: String,
    before: Seq<char>,
    typed: Seq<char>,
    after: Seq<char>,
)
    requires
        call_ensures(answer_or_default, (input, default), out),
        input@ == before + typed + after,
        text::all_white(before),
        text::all_white(after),
        typed.len() > 0 ==> !text::is_white(typed[0]) && !text::is_white(typed.last()),
    ensures
        typed.len() == 0 ==> out@ == default@,
        typed.len() > 0 ==> out@ == typed,
{
    if typed.len() > 0 {
        text::law_trimming_takes_off_white_space(before, typed, after);
    } else {
        assert(text::all_white(input@));
        text::lemma_trimmed(input@);
    }
}

/// Law: a warning stands in yellow behind two blanks.
pub proof fn law_warning(message: &str, out: String)
    requires
        call_ensures(warning_text, (message,), out),
    ensures
        out@ == "  "@ + "\x1b[33m"@ + message@ + "\x1b[0m"@,
{
}

/// Law: the questions have labels of their own.
pub proof fn law_question_labels(step: WizardStep, label: String)
    requires
        call_ensures(WizardStep::label, (step,), label),
    ensures
        step == WizardStep::Passphrase ==> label@ == "Passphrase"@,
        step == WizardStep::Frequency ==> label@ == "Frequency (MHz)"@,
        step == WizardStep::Bandwidth ==> label@ == "Bandwidth"@,
        step == WizardStep::SpreadingFactor ==> label@ == "Spreading Factor"@,
        step == WizardStep::CodingRate ==> label@ == "Coding Rate"@,
        step == WizardStep::SyncWord ==> label@ == "Sync Word"@,
        step == WizardStep::TxPower ==> label@ == "TX Power (dBm)"@,
        step == WizardStep::Preamble ==> label@ == "Preamble"@,
        step == WizardStep::SerialPort ==> label@ == "Serial Port"@,
        step == WizardStep::Done ==> label@.len() == 0,
{
    reveal_strlit("");
}

// ── Wizard ──────────────────────────────────────────────────────────

/// The questions of the wizard, in the order in which they are asked.
#[derive(Debug, Clone, Copy, PartialEq, Eq, Structural)]
pub enum WizardStep {
    Passphrase,
    Frequency,
    Bandwidth,
    SpreadingFactor,
    CodingRate,
    SyncWord,
    TxPower,
    Preamble,
    SerialPort,
    /// All questions have been answered.
    Done,
}

impl WizardStep {
    /// The question after this one.
    pub open spec fn spec_next(self) -> WizardStep {
        match self {
            WizardStep::Passphrase => WizardStep::Frequency,
            WizardStep::Frequency => WizardStep::Bandwidth,
            WizardStep::Bandwidth => WizardStep::SpreadingFactor,
            WizardStep::SpreadingFactor => WizardStep::CodingRate,
            WizardStep::CodingRate => WizardStep::SyncWord,
            WizardStep::SyncWord => WizardStep::TxPower,
            WizardStep::TxPower => WizardStep::Preamble,
            WizardStep::Preamble => WizardStep::SerialPort,
            WizardStep::SerialPort => WizardStep::Done,
            WizardStep::Done => WizardStep::Done,
        }
    }

    /// The question after this one.
    pub fn next(self) -> (n: WizardStep)
        ensures
            n == self.spec_next(),
    {
        match self {
            WizardStep::Passphrase => WizardStep::Frequency,
            WizardStep::Frequency => WizardStep::Bandwidth,
            WizardStep::Bandwidth => WizardStep::SpreadingFactor,
            WizardStep::SpreadingFactor => WizardStep::CodingRate,
            WizardStep::CodingRate => WizardStep::SyncWord,
            WizardStep::SyncWord => WizardStep::TxPower,
            WizardStep::TxPower => WizardStep::Preamble,
            WizardStep::Preamble => WizardStep::SerialPort,
            WizardStep::SerialPort => WizardStep::Done,
            WizardStep::Done => WizardStep::Done,
        }
    }

    /// The label of a question.
    pub open spec fn text(self) -> Seq<char> {
        match self {
            WizardStep::Passphrase => "Passphrase"@,
            WizardStep::Frequency => "Frequency (MHz)"@,
            WizardStep::Bandwidth => "Bandwidth"@,
            WizardStep::SpreadingFactor => "Spreading Factor"@,
            WizardStep::CodingRate => "Coding Rate"@,
            WizardStep::SyncWord => "Sync Word"@,
            WizardStep::TxPower => "TX Power (dBm)"@,
            WizardStep::Preamble => "Preamble"@,
            WizardStep::SerialPort => "Serial Port"@,
            WizardStep::Done => ""@,
        }
    }

    /// The label of a question.
    pub fn label(self) -> (out: String)
        ensures
            out@ == self.text(),
    {
        match self {
            WizardStep::Passphrase => "Passphrase".to_owned(),
            WizardStep::Frequency => "Frequency (MHz)".to_owned(),
            WizardStep::Bandwidth => "Bandwidth".to_owned(),
            WizardStep::SpreadingFactor => "Spreading Factor".to_owned(),
            WizardStep::CodingRate => "Coding Rate".to_owned(),
            WizardStep::SyncWord => "Sync Word".to_owned(),
            WizardStep::TxPower => "TX Power (dBm)".to_owned(),
            WizardStep::Preamble => "Preamble".to_owned(),
            WizardStep::SerialPort => "Serial Port".to_owned(),
            WizardStep::Done => "".to_owned(),
        }
    }
}

/// The wizard: the config so far, and the question that is open. What has not
/// been asked yet holds its default.
#[derive(Debug)]
pub struct Wizard {
    pub config: Config,
    pub step: WizardStep,
}

/// What a [`Wizard`] holds.
#[verifier::ext_equal]
pub struct WizardView {
    pub config: ConfigView,
    pub step: WizardStep,
}

/// What became of an answer.
#[derive(Debug)]
pub enum WizardReply {
    /// The answer was taken.
    Taken,
    /// Ask again, after this warning line.
    Retry(String),
    /// The text to read as a number of MHz; see [`Wizard::set_frequency`].
    ReadFrequency(String),
    /// The wizard ends without a config.
    Abort(SyncWordError),
}

/// What a [`WizardReply`] says.
#[verifier::ext_equal]
pub enum WizardReplyView {
    Taken,
    Retry(Seq<char>),
    ReadFrequency(Seq<char>),
    Abort(SyncWordErrorView),
}

impl View for Wizard {
    type V = WizardView;

    open spec fn view(&self) -> WizardView {
        WizardView { config: self.config@, step: self.step }
    }
}

impl View for WizardReply {
    type V = WizardReplyView;

    open spec fn view(&self) -> WizardReplyView {
        match *self {
            WizardReply::Taken => WizardReplyView::Taken,
            WizardReply::Retry(s) => WizardReplyView::Retry(s@),
            WizardReply::ReadFrequency(s) => WizardReplyView::ReadFrequency(s@),
            WizardReply::Abort(e) => WizardReplyView::Abort(e@),
        }
    }
}

/// The config that the wizard starts from when there is none.
pub open spec fn wizard_defaults() -> ConfigView {
    ConfigView {
        radio: config::radio_defaults(),
        bridge: config::bridge_defaults(),
        tx: config::tx_defaults(),
    }
}

/// The warning about a text that is no number.
pub open spec fn invalid_input(e: Seq<char>) -> Seq<char> {
    warning_line("Invalid input: "@ + e)
}

impl WizardView {
    /// The default of the open question. The passphrase has none until one
    /// was chosen.
    pub open spec fn default_text(self) -> Option<Seq<char>> {
        let radio = self.config.radio;
        match self.step {
            WizardStep::Passphrase => if config::passphrase_chosen(
                self.config.bridge.passphrase,
            ) {
                Some(self.config.bridge.passphrase)
            } else {
                None
            },
            WizardStep::Frequency => Some(lora::mhz(radio.frequency as nat)),
            WizardStep::Bandwidth => Some(radio.bandwidth),
            WizardStep::SpreadingFactor => Some(text::decimal(radio.spreading_factor as nat)),
            WizardStep::CodingRate => Some(text::decimal(radio.coding_rate as nat)),
            WizardStep::SyncWord => Some(shown_sync_word(radio.sync_word)),
            WizardStep::TxPower => Some(text::decimal_signed(radio.tx_power_dbm as int)),
            WizardStep::Preamble => Some(text::decimal(radio.preamble as nat)),
            WizardStep::SerialPort => Some(
                match radio.port {
                    Some(p) => p,
                    None => "auto"@,
                },
            ),
            WizardStep::Done => None,
        }
    }

    /// What an answer to the open question stands for.
    pub open spec fn entered(self, input: Seq<char>) -> Seq<char> {
        answer_text(
            input,
            match self.default_text() {
                Some(d) => d,
                None => ""@,
            },
        )
    }

    /// The wizard with a new config, at the next question.
    pub open spec fn moved(self, config: ConfigView) -> WizardView {
        WizardView { config, step: self.step.spec_next() }
    }

    /// The number entered, in the range of its type.
    pub open spec fn entered_int(self, input: Seq<char>, min: int, max: int) -> Result<
        int,
        IntError,
    > {
        number::int_value(self.entered(input), 10, min, max)
    }

    /// The sync word entered.
    pub open spec fn entered_sync_word(self, input: Seq<char>) -> Result<u16, SyncWordErrorView> {
        sync_word_of(text::lowered(text::trimmed(self.entered(input))))
    }

    /// The wizard after an answer to the open question.
    pub open spec fn answered(self, input: Seq<char>) -> WizardView {
        let c = self.config;
        match self.step {
            WizardStep::Passphrase => if self.entered(input).len() == 0 {
                self
            } else {
                self.moved(
                    ConfigView {
                        bridge: BridgeSectionView { passphrase: self.entered(input), ..c.bridge },
                        ..c
                    },
                )
            },
            WizardStep::Frequency => if text::trimmed(input).len() == 0 {
                self.moved(c)
            } else {
                self
            },
            WizardStep::Bandwidth => self.moved(
                ConfigView {
                    radio: RadioSectionView { bandwidth: self.entered(input), ..c.radio },
                    ..c
                },
            ),
            WizardStep::SpreadingFactor => match self.entered_int(input, 0, 255) {
                Ok(v) => self.moved(
                    ConfigView {
                        radio: RadioSectionView { spreading_factor: v as u8, ..c.radio },
                        ..c
                    },
                ),
                Err(_) => self,
            },
            WizardStep::CodingRate => match self.entered_int(input, 0, 255) {
                Ok(v) => self.moved(
                    ConfigView {
                        radio: RadioSectionView { coding_rate: v as u8, ..c.radio },
                        ..c
                    },
                ),
                Err(_) => self,
            },
            WizardStep::SyncWord => match self.entered_sync_word(input) {
                Ok(w) => self.moved(
                    ConfigView { radio: RadioSectionView { sync_word: w, ..c.radio }, ..c },
                ),
                Err(_) => self,
            },
            WizardStep::TxPower => match self.entered_int(input, -128, 127) {
                Ok(v) => self.moved(
                    ConfigView {
                        radio: RadioSectionView { tx_power_dbm: v as i8, ..c.radio },
                        ..c
                    },
                ),
                Err(_) => self,
            },
            WizardStep::Preamble => match self.entered_int(input, 0, 65535) {
                Ok(v) => self.moved(
                    ConfigView { radio: RadioSectionView { preamble: v as u16, ..c.radio }, ..c },
                ),
                Err(_) => self,
            },
            WizardStep::SerialPort => {
                let p = self.entered(input);
                self.moved(
                    ConfigView {
                        radio: RadioSectionView {
                            port: if p == "auto"@ || p.len() == 0 {
                                None
                            } else {
                                Some(p)
                            },
                            ..c.radio
                        },
                        ..c
                    },
                )
            },
            WizardStep::Done => self,
        }
    }

    /// What becomes of a number entered.
    pub open spec fn int_reply(self, input: Seq<char>, min: int, max: int) -> WizardReplyView {
        match self.entered_int(input, min, max) {
            Ok(_) => WizardReplyView::Taken,
            Err(e) => WizardReplyView::Retry(invalid_input(e.text())),
        }
    }

    /// What becomes of an answer to the open question.
    pub open spec fn reply(self, input: Seq<char>) -> WizardReplyView {
        match self.step {
            WizardStep::Passphrase => if self.entered(input).len() == 0 {
                WizardReplyView::Retry(warning_line("This field is required."@))
            } else {
                WizardReplyView::Taken
            },
            WizardStep::Frequency => if text::trimmed(input).len() == 0 {
                WizardReplyView::Taken
            } else {
                WizardReplyView::ReadFrequency(text::trimmed(input))
            },
            WizardStep::Bandwidth => WizardReplyView::Taken,
            WizardStep::SpreadingFactor => self.int_reply(input, 0, 255),
            WizardStep::CodingRate => self.int_reply(input, 0, 255),
            WizardStep::SyncWord => match self.entered_sync_word(input) {
                Ok(_) => WizardReplyView::Taken,
                Err(e) => WizardReplyView::Abort(e),
            },
            WizardStep::TxPower => self.int_reply(input, -128, 127),
            WizardStep::Preamble => self.int_reply(input, 0, 65535),
            WizardStep::SerialPort => WizardReplyView::Taken,
            WizardStep::Done => WizardReplyView::Taken,
        }
    }
}

/// The warning line for a number that could not be read.
fn retry_with(e: &str) -> (r: WizardReply)
    ensures
        r@ == WizardReplyView::Retry(invalid_input(e@)),
{
    let mut s: String = "Invalid input: ".to_owned();
    s.append(e);
    WizardReply::Retry(warning_text(s.as_str()))
}

impl Wizard {
    /// A wizard that starts from an existing config, or else from the defaults.
    pub fn new(existing: Option<Config>) -> (w: Wizard)
        ensures
            w@.step == WizardStep::Passphrase,
            w@.config == match existing {
                Some(c) => c@,
                None => wizard_defaults(),
            },
    {
        let config: Config = match existing {
            Some(c) => c,
            None => Config {
                radio: RadioSection::default(),
                bridge: BridgeSection::default(),
                tx: TxSection::default(),
            },
        };
        Wizard { config, step: WizardStep::Passphrase }
    }

    /// The default of the open question.
    pub fn default_answer(&self) -> (d: Option<String>)
        ensures
            config::option_text(d) == self@.default_text(),
    {
        let radio: &RadioSection = &self.config.radio;
        match self.step {
            WizardStep::Passphrase => if passphrase_set(self.config.bridge.passphrase.as_str()) {
                Some(self.config.bridge.passphrase.clone())
            } else {
                None
            },
            WizardStep::Frequency => Some(lora::mhz_text(radio.frequency)),
            WizardStep::Bandwidth => Some(radio.bandwidth.clone()),
            WizardStep::SpreadingFactor => Some(text::decimal_text(radio.spreading_factor as u64)),
            WizardStep::CodingRate => Some(text::decimal_text(radio.coding_rate as u64)),
            WizardStep::SyncWord => Some(sync_word_text(radio.sync_word)),
            WizardStep::TxPower => Some(text::signed_text(radio.tx_power_dbm as i64)),
            WizardStep::Preamble => Some(text::decimal_text(radio.preamble as u64)),
            WizardStep::SerialPort => match &radio.port {
                Some(p) => Some(p.clone()),
                None => Some("auto".to_owned()),
            },
            WizardStep::Done => None,
        }
    }

    /// The prompt of the open question.
    pub fn prompt(&self) -> (out: String)
        ensures
            out@ == prompt_line(self@.step.text(), self@.default_text()),
    {
        let label: String = self.step.label();
        let default: Option<String> = self.default_answer();
        prompt_text(label.as_str(), &default)
    }

    fn entered(&self, input: &str) -> (out: String)
        ensures
            out@ == self@.entered(input@),
    {
        match self.default_answer() {
            Some(d) => answer_or_default(input, d.as_str()),
            None => answer_or_default(input, ""),
        }
    }

    fn entered_int(&self, input: &str, min: i64, max: i64) -> (r: Result<i64, IntError>)
        requires
            -0x1_0000_0000 <= min <= 0 <= max <= 0x1_0000_0000,
        ensures
            match r {
                Ok(v) => min <= v <= max && self@.entered_int(input@, min as int, max as int)
                    == Ok::<int, IntError>(v as int),
                Err(e) => self@.entered_int(input@, min as int, max as int) == Err::<
                    int,
                    IntError,
                >(e),
            },
    {
        let entered: String = self.entered(input);
        parse_int(entered.as_str(), 10, min, max)
    }

    /// Take in what was entered at the open question.
    pub fn answer(&mut self, input: &str) -> (reply: WizardReply)
        ensures
            final(self)@ == old(self)@.answered(input@),
            reply@ == old(self)@.reply(input@),
            agree_but_for(old(self)@.step, final(self)@.config, old(self)@.config),
    {
        match self.step {
            WizardStep::Passphrase => {
                let entered: String = self.entered(input);
                if entered.as_str().is_empty() {
                    return WizardReply::Retry(warning_text("This field is required."));
                }
                self.config.bridge.passphrase = entered;
            },
            WizardStep::Frequency => {
                let typed: String = trim(input);
                if !typed.as_str().is_empty() {
                    return WizardReply::ReadFrequency(typed);
                }
            },
            WizardStep::Bandwidth => {
                let entered: String = self.entered(input);
                self.config.radio.bandwidth = entered;
            },
            WizardStep::SpreadingFactor => match self.entered_int(input, 0, 255) {
                Ok(v) => {
                    self.config.radio.spreading_factor = v as u8;
                },
                Err(e) => {
                    let message: String = e.message();
                    return retry_with(message.as_str());
                },
            },
            WizardStep::CodingRate => match self.entered_int(input, 0, 255) {
                Ok(v) => {
                    self.config.radio.coding_rate = v as u8;
                },
                Err(e) => {
                    let message: String = e.message();
                    return retry_with(message.as_str());
                },
            },
            WizardStep::SyncWord => {
                let entered: String = self.entered(input);
                match parse_sync_word(entered.as_str()) {
                    Ok(w) => {
                        self.config.radio.sync_word = w;
                    },
                    Err(e) => {
                        return WizardReply::Abort(e);
                    },
                }
            },
            WizardStep::TxPower => match self.entered_int(input, -128, 127) {
                Ok(v) => {
                    self.config.radio.tx_power_dbm = v as i8;
                },
                Err(e) => {
                    let message: String = e.message();
                    return retry_with(message.as_str());
                },
            },
            WizardStep::Preamble => match self.entered_int(input, 0, 65535) {
                Ok(v) => {
                    self.config.radio.preamble = v as u16;
                },
                Err(e) => {
                    let message: String = e.message();
                    return retry_with(message.as_str());
                },
            },
            WizardStep::SerialPort => {
                let entered: String = self.entered(input);
                self.config.radio.port =
                if same_text(entered.as_str(), "auto") || entered.as_str().is_empty() {
                    None
                } else {
                    Some(entered)
                };
            },
            WizardStep::Done => {
                return WizardReply::Taken;
            },
        }
        self.step = self.step.next();
        WizardReply::Taken
    }

    /// Take in the frequency that was read from the text of a
    /// [`WizardReply::ReadFrequency`], or why it could not be read.
    pub fn set_frequency(&mut self, hz: Result<u32, String>) -> (reply: WizardReply)
        requires
            old(self)@.step == WizardStep::Frequency,
        ensures
            agree_but_for(WizardStep::Frequency, final(self)@.config, old(self)@.config),
            hz matches Ok(v) ==> final(self)@.config.radio.frequency == v,
            hz is Err ==> final(self)@.config.radio.frequency == old(self)@.config.radio.frequency,
            match hz {
                Ok(v) => {
                    let c = old(self)@.config;
                    &&& reply@ == WizardReplyView::Taken
                    &&& final(self)@ == old(self)@.moved(
                        ConfigView { radio: RadioSectionView { frequency: v, ..c.radio }, ..c },
                    )
                },
                Err(e) => {
                    &&& reply@ == WizardReplyView::Retry(invalid_input(e@))
                    &&& final(self)@ == old(self)@
                },
            },
    {
        match hz {
            Ok(v) => {
                self.config.radio.frequency = v;
                self.step = self.step.next();
                WizardReply::Taken
            },
            Err(e) => retry_with(e.as_str()),
        }
    }
}

/// Law: an empty answer keeps the value that is there and goes on, at every
/// question; the frequency stays to the hertz, though its text is rounded. A
/// passphrase must have been chosen, and a port must not be named like the
/// automatic choice.
pub proof fn law_empty_answer_keeps_the_value(w: WizardView, input: Seq<char>)
    requires
        text::trimmed(input).len() == 0,
        w.step == WizardStep::Passphrase ==> config::passphrase_chosen(w.config.bridge.passphrase),
        w.step == WizardStep::SerialPort ==> (w.config.radio.port matches Some(p) ==> p != "auto"@
            && p.len() > 0),
    ensures
        w.answered(input) == (WizardView { config: w.config, step: w.step.spec_next() }),
        w.reply(input) == WizardReplyView::Taken,
{
    let radio = w.config.radio;
    match w.step {
        WizardStep::SpreadingFactor => {
            number::law_decimal_reads_back(radio.spreading_factor as int, 0, 255);
        },
        WizardStep::CodingRate => {
            number::law_decimal_reads_back(radio.coding_rate as int, 0, 255);
        },
        WizardStep::SyncWord => {
            let none = Seq::<char>::empty();
            law_shown_sync_word_reads_back(radio.sync_word, none, none);
            assert(none + shown_sync_word(radio.sync_word) + none =~= shown_sync_word(
                radio.sync_word,
            ));
        },
        WizardStep::TxPower => {
            number::law_decimal_reads_back(radio.tx_power_dbm as int, -128, 127);
        },
        WizardStep::Preamble => {
            number::law_decimal_reads_back(radio.preamble as int, 0, 65535);
        },
        _ => {},
    }
}

/// Whether two configs agree in every setting but the one that a question asks for.
pub open spec fn agree_but_for(step: WizardStep, a: ConfigView, b: ConfigView) -> bool {
    &&& step != WizardStep::Passphrase ==> a.bridge.passphrase == b.bridge.passphrase
    &&& step != WizardStep::Frequency ==> a.radio.frequency == b.radio.frequency
    &&& step != WizardStep::Bandwidth ==> a.radio.bandwidth == b.radio.bandwidth
    &&& step != WizardStep::SpreadingFactor ==> a.radio.spreading_factor
        == b.radio.spreading_factor
    &&& step != WizardStep::CodingRate ==> a.radio.coding_rate == b.radio.coding_rate
    &&& step != WizardStep::SyncWord ==> a.radio.sync_word == b.radio.sync_word
    &&& step != WizardStep::TxPower ==> a.radio.tx_power_dbm == b.radio.tx_power_dbm
    &&& step != WizardStep::Preamble ==> a.radio.preamble == b.radio.preamble
    &&& step != WizardStep::SerialPort ==> a.radio.port == b.radio.port
    &&& a.bridge.dedup_window_secs == b.bridge.dedup_window_secs
    &&& a.bridge.tx_queue_size == b.bridge.tx_queue_size
    &&& a.bridge.rate_limit_pps_bits == b.bridge.rate_limit_pps_bits
    &&& a.bridge.log_file == b.bridge.log_file
    &&& a.tx.max_attempts == b.tx.max_attempts
    &&& a.tx.backoff_min_ms == b.tx.backoff_min_ms
    &&& a.tx.backoff_max_ms == b.tx.backoff_max_ms
    &&& a.tx.backoff_cap_ms == b.tx.backoff_cap_ms
    &&& a.tx.backoff_multiplier_bits == b.tx.backoff_multiplier_bits
    &&& a.tx.per_attempt_timeout_secs == b.tx.per_attempt_timeout_secs
    &&& a.tx.skip_cad == b.tx.skip_cad
}

/// Law: an answer changes nothing but the setting that was asked for: every
/// other setting of every section stays, the settings that are not asked for
/// among them, and an answer that is not taken leaves the wizard as it was.
pub proof fn law_answer_changes_one_setting(w: WizardView, input: Seq<char>)
    ensures
        w.answered(input).config.tx == w.config.tx,
        w.answered(input).config.bridge.dedup_window_secs == w.config.bridge.dedup_window_secs,
        w.answered(input).config.bridge.tx_queue_size == w.config.bridge.tx_queue_size,
        w.answered(input).config.bridge.rate_limit_pps_bits == w.config.bridge.rate_limit_pps_bits,
        w.answered(input).config.bridge.log_file == w.config.bridge.log_file,
        w.step != WizardStep::Passphrase ==> w.answered(input).config.bridge == w.config.bridge,
        w.step == WizardStep::Passphrase ==> w.answered(input).config.radio == w.config.radio,
        w.reply(input) != WizardReplyView::Taken ==> w.answered(input) == w,
        agree_but_for(w.step, w.answered(input).config, w.config),
        w.answered(input).config.radio.frequency == w.config.radio.frequency,
        ({
            let was = w.config.radio;
            let now = w.answered(input).config.radio;
            &&& now.bandwidth == was.bandwidth || w.step == WizardStep::Bandwidth
            &&& now.spreading_factor == was.spreading_factor || w.step
                == WizardStep::SpreadingFactor
            &&& now.coding_rate == was.coding_rate || w.step == WizardStep::CodingRate
            &&& now.sync_word == was.sync_word || w.step == WizardStep::SyncWord
            &&& now.tx_power_dbm == was.tx_power_dbm || w.step == WizardStep::TxPower
            &&& now.preamble == was.preamble || w.step == WizardStep::Preamble
            &&& now.port == was.port || w.step == WizardStep::SerialPort
        }),
{
}

/// Whether two configs agree in the setting that a question asks for.
pub open spec fn agree_in(step: WizardStep, a: ConfigView, b: ConfigView) -> bool {
    &&& step == WizardStep::Passphrase ==> a.bridge.passphrase == b.bridge.passphrase
    &&& step == WizardStep::Frequency ==> a.radio.frequency == b.radio.frequency
    &&& step == WizardStep::Bandwidth ==> a.radio.bandwidth == b.radio.bandwidth
    &&& step == WizardStep::SpreadingFactor ==> a.radio.spreading_factor
        == b.radio.spreading_factor
    &&& step == WizardStep::CodingRate ==> a.radio.coding_rate == b.radio.coding_rate
    &&& step == WizardStep::SyncWord ==> a.radio.sync_word == b.radio.sync_word
    &&& step == WizardStep::TxPower ==> a.radio.tx_power_dbm == b.radio.tx_power_dbm
    &&& step == WizardStep::Preamble ==> a.radio.preamble == b.radio.preamble
    &&& step == WizardStep::SerialPort ==> a.radio.port == b.radio.port
}

/// Law: over any run of answers, a setting that none of them was asked for is
/// as it was before.
pub proof fn law_unasked_setting_survives_a_run(
    w: WizardView,
    inputs: Seq<Seq<char>>,
    unasked: WizardStep,
)
    requires
        forall|i: int|
            0 <= i < inputs.len() ==> (#[trigger] after_answers(w, inputs.take(i))).step != unasked,
    ensures
        agree_in(unasked, after_answers(w, inputs).config, w.config),
    decreases inputs.len(),
{
    if inputs.len() > 0 {
        let before = inputs.drop_last();
        assert forall|i: int| 0 <= i < before.len() implies (#[trigger] after_answers(
            w,
            before.take(i),
        )).step != unasked by {
            assert(before.take(i) =~= inputs.take(i));
        }
        law_unasked_setting_survives_a_run(w, before, unasked);
        assert(inputs.take(inputs.len() - 1) =~= before);
        law_answer_changes_one_setting(after_answers(w, before), inputs.last());
    }
}

/// The wizard after a run of answers.
pub open spec fn after_answers(w: WizardView, inputs: Seq<Seq<char>>) -> WizardView
    decreases inputs.len(),
{
    if inputs.len() == 0 {
        w
    } else {
        after_answers(w, inputs.drop_last()).answered(inputs.last())
    }
}

/// Law: what is typed, without the white space around it, becomes the setting
/// that was asked for: texts as they are, numbers as they are read in the
/// range of the setting, a sync word as it is read, and `auto` as no port. A
/// number that cannot be read is asked for again; a sync word that cannot be
/// read ends the wizard; a frequency is handed out to be read.
pub proof fn law_answer_is_what_was_typed(w: WizardView, input: Seq<char>, typed: Seq<char>)
    requires
        typed == text::trimmed(input),
        typed.len() > 0,
    ensures
        ({
            let radio = w.answered(input).config.radio;
            let taken = w.reply(input) == WizardReplyView::Taken;
            &&& w.step == WizardStep::Passphrase ==> taken && w.answered(
                input,
            ).config.bridge.passphrase == typed
            &&& w.step == WizardStep::Frequency ==> w.reply(input)
                == WizardReplyView::ReadFrequency(typed)
            &&& w.step == WizardStep::Bandwidth ==> taken && radio.bandwidth == typed
            &&& w.step == WizardStep::SpreadingFactor ==> {
                &&& taken <==> number::int_value(typed, 10, 0, 255) is Ok
                &&& taken ==> number::int_value(typed, 10, 0, 255) == Ok::<int, IntError>(
                    radio.spreading_factor as int,
                )
            }
            &&& w.step == WizardStep::CodingRate ==> {
                &&& taken <==> number::int_value(typed, 10, 0, 255) is Ok
                &&& taken ==> number::int_value(typed, 10, 0, 255) == Ok::<int, IntError>(
                    radio.coding_rate as int,
                )
            }
            &&& w.step == WizardStep::SyncWord ==> {
                &&& taken || w.reply(input) is Abort
                &&& taken ==> sync_word_of(text::lowered(text::trimmed(typed))) == Ok::<
                    u16,
                    SyncWordErrorView,
                >(radio.sync_word)
            }
            &&& w.step == WizardStep::TxPower ==> {
                &&& taken <==> number::int_value(typed, 10, -128, 127) is Ok
                &&& taken ==> number::int_value(typed, 10, -128, 127) == Ok::<int, IntError>(
                    radio.tx_power_dbm as int,
                )
            }
            &&& w.step == WizardStep::Preamble ==> {
                &&& taken <==> number::int_value(typed, 10, 0, 65535) is Ok
                &&& taken ==> number::int_value(typed, 10, 0, 65535) == Ok::<int, IntError>(
                    radio.preamble as int,
                )
            }
            &&& w.step == WizardStep::SerialPort ==> {
                &&& taken
                &&& typed == "auto"@ ==> radio.port is None
                &&& typed != "auto"@ ==> radio.port == Some(typed)
            }
        }),
{
    number::law_value_in_range(typed, 10, 0, 255);
    number::law_value_in_range(typed, 10, -128, 127);
    number::law_value_in_range(typed, 10, 0, 65535);
}

/// Law: an answer that is not taken is told why. A passphrase must be entered
/// where none was chosen; a number is refused with what is wrong with it; and
/// a sync word that ends the wizard is named with what is wrong with it.
pub proof fn law_refused_answer_is_told_why(w: WizardView, input: Seq<char>, typed: Seq<char>)
    requires
        typed == text::trimmed(input),
    ensures
        w.step == WizardStep::Passphrase && typed.len() == 0 && (
        w.config.bridge.passphrase.len() == 0 || w.config.bridge.passphrase == "change-me"@)
            ==> w.reply(input) == WizardReplyView::Retry(
            "  "@ + "\x1b[33m"@ + "This field is required."@ + "\x1b[0m"@,
        ),
        ({
            let told = |e: IntError|
                WizardReplyView::Retry(
                    "  "@ + "\x1b[33m"@ + ("Invalid input: "@ + e.text()) + "\x1b[0m"@,
                );
            let byte = w.step == WizardStep::SpreadingFactor || w.step == WizardStep::CodingRate;
            &&& byte && typed.len() > 0 ==> {
                number::int_value(typed, 10, 0, 255) matches Err(e) ==> w.reply(input) == told(e)
            }
            &&& w.step == WizardStep::TxPower && typed.len() > 0 ==> {
                number::int_value(typed, 10, -128, 127) matches Err(e) ==> w.reply(input)
                    == told(e)
            }
            &&& w.step == WizardStep::Preamble && typed.len() > 0 ==> {
                number::int_value(typed, 10, 0, 65535) matches Err(e) ==> w.reply(input)
                    == told(e)
            }
        }),
        w.step == WizardStep::SyncWord && typed.len() > 0 ==> {
            sync_word_of(text::lowered(text::trimmed(typed))) matches Err(e) ==> w.reply(input)
                == WizardReplyView::Abort(e)
        },
        w.reply(input) != WizardReplyView::Taken ==> w.answered(input) == w,
{
    reveal_strlit("");
}

/// Law: an answer is taken in as [`WizardView::answered`] and
/// [`WizardView::reply`] say, and changes no setting but the one asked for.
pub proof fn law_answer_is_taken_in(w: &mut Wizard, input: &str, reply: WizardReply)
    requires
        call_ensures(Wizard::answer, (w, input), reply),
    ensures
        final(w)@ == old(w)@.answered(input@),
        reply@ == old(w)@.reply(input@),
        ({
            let was = old(w).config.radio;
            let now = final(w).config.radio;
            let step = old(w).step;
            &&& now.frequency == was.frequency
            &&& now.bandwidth@ == was.bandwidth@ || step == WizardStep::Bandwidth
            &&& now.spreading_factor == was.spreading_factor || step
                == WizardStep::SpreadingFactor
            &&& now.coding_rate == was.coding_rate || step == WizardStep::CodingRate
            &&& now.sync_word == was.sync_word || step == WizardStep::SyncWord
            &&& now.tx_power_dbm == was.tx_power_dbm || step == WizardStep::TxPower
            &&& now.preamble == was.preamble || step == WizardStep::Preamble
        }),
{
    law_answer_changes_one_setting(old(w)@, input@);
    assert(final(w)@.config.radio.bandwidth == final(w).config.radio.bandwidth@);
    assert(old(w)@.config.radio.bandwidth == old(w).config.radio.bandwidth@);
}

/// Law: a frequency that was read is set, and the bandwidth is asked for next;
/// one that could not be read is asked for again with the reason. No other
/// setting changes.
pub proof fn law_frequency_is_set(w: &mut Wizard, hz: Result<u32, String>, reply: WizardReply)
    requires
        call_ensures(Wizard::set_frequency, (w, hz), reply),
        old(w).step == WizardStep::Frequency,
    ensures
        hz matches Ok(v) ==> {
            &&& reply@ == WizardReplyView::Taken
            &&& final(w)@.step == WizardStep::Bandwidth
            &&& final(w)@.config.radio == (RadioSectionView {
                frequency: v,
                ..old(w)@.config.radio
            })
            &&& final(w)@.config.bridge == old(w)@.config.bridge
            &&& final(w)@.config.tx == old(w)@.config.tx
        },
        hz matches Err(e) ==> {
            &&& reply@ == WizardReplyView::Retry(
                "  "@ + "\x1b[33m"@ + ("Invalid input: "@ + e@) + "\x1b[0m"@,
            )
            &&& final(w)@ == old(w)@
        },
{
}

/// Law: an answer that is taken leads to the next question, in the order in
/// which they are asked, and one that is not taken to no other.
pub proof fn law_questions_follow_each_other(w: WizardView, input: Seq<char>)
    ensures
        w.reply(input) != WizardReplyView::Taken ==> w.answered(input).step == w.step,
        w.reply(input) == WizardReplyView::Taken ==> {
            let next = w.answered(input).step;
            &&& w.step == WizardStep::Passphrase <==> next == WizardStep::Frequency
            &&& w.step == WizardStep::Frequency <==> next == WizardStep::Bandwidth
            &&& w.step == WizardStep::Bandwidth <==> next == WizardStep::SpreadingFactor
            &&& w.step == WizardStep::SpreadingFactor <==> next == WizardStep::CodingRate
            &&& w.step == WizardStep::CodingRate <==> next == WizardStep::SyncWord
            &&& w.step == WizardStep::SyncWord <==> next == WizardStep::TxPower
            &&& w.step == WizardStep::TxPower <==> next == WizardStep::Preamble
            &&& w.step == WizardStep::Preamble <==> next == WizardStep::SerialPort
            &&& w.step == WizardStep::SerialPort || w.step == WizardStep::Done <==> next
                == WizardStep::Done
        },
{
}

/// Law: a question shows the setting that it asks for: numbers read back as
/// that setting, and texts are that setting. The passphrase is shown once one
/// was chosen, and no port as `auto`.
pub proof fn law_question_shows_the_setting(w: Wizard, shown: Option<String>)
    requires
        call_ensures(Wizard::default_answer, (&w,), shown),
    ensures
        shown is Some <==> {
            &&& w.step != WizardStep::Done
            &&& w.step == WizardStep::Passphrase ==> w.config.bridge.passphrase@.len() > 0
                && w.config.bridge.passphrase@ != "change-me"@
        },
        shown matches Some(s) ==> {
            let radio = w.config.radio;
            &&& w.step == WizardStep::Passphrase ==> s@ == w.config.bridge.passphrase@
            &&& w.step == WizardStep::Frequency ==> s@ == lora::mhz(radio.frequency as nat)
            &&& w.step == WizardStep::Bandwidth ==> s@ == radio.bandwidth@
            &&& w.step == WizardStep::SpreadingFactor ==> number::int_value(s@, 10, 0, 255) == Ok::<
                int,
                IntError,
            >(radio.spreading_factor as int)
            &&& w.step == WizardStep::CodingRate ==> number::int_value(s@, 10, 0, 255) == Ok::<
                int,
                IntError,
            >(radio.coding_rate as int)
            &&& w.step == WizardStep::SyncWord ==> sync_word_of(text::lowered(text::trimmed(s@)))
                == Ok::<u16, SyncWordErrorView>(radio.sync_word)
            &&& w.step == WizardStep::TxPower ==> number::int_value(s@, 10, -128, 127) == Ok::<
                int,
                IntError,
            >(radio.tx_power_dbm as int)
            &&& w.step == WizardStep::Preamble ==> number::int_value(s@, 10, 0, 65535) == Ok::<
                int,
                IntError,
            >(radio.preamble as int)
            &&& w.step == WizardStep::SerialPort ==> s@ == match radio.port {
                Some(p) => p@,
                None => "auto"@,
            }
        },
{
    let radio = w.config.radio;
    number::law_decimal_reads_back(radio.spreading_factor as int, 0, 255);
    number::law_decimal_reads_back(radio.coding_rate as int, 0, 255);
    number::law_decimal_reads_back(radio.tx_power_dbm as int, -128, 127);
    number::law_decimal_reads_back(radio.preamble as int, 0, 65535);
    let none = Seq::<char>::empty();
    law_shown_sync_word_reads_back(radio.sync_word, none, none);
    assert(none + shown_sync_word(radio.sync_word) + none =~= shown_sync_word(radio.sync_word));
}

/// Law: the wizard starts at the passphrase, from an existing config as it is,
/// or else from the recommended settings, with no passphrase and no port.
pub proof fn law_wizard_starts_from(existing: Option<Config>, w: Wizard)
    requires
        call_ensures(Wizard::new, (existing,), w),
    ensures
        w.step == WizardStep::Passphrase,
        existing matches Some(c) ==> w.config@ == c@,
        existing is None ==> {
            &&& w.config.radio.port is None
            &&& w.config.radio.frequency == 910_525_000
            &&& w.config.radio.bandwidth@ == "62.5kHz"@
            &&& w.config.radio.spreading_factor == 7
            &&& w.config.radio.coding_rate == 5
            &&& w.config.radio.sync_word == 0x1424
            &&& w.config.radio.tx_power_dbm == 20
            &&& w.config.radio.preamble == 16
            &&& w.config.bridge.passphrase@.len() == 0
            &&& w.config.bridge.dedup_window_secs == 300
            &&& w.config.bridge.tx_queue_size == 32
            &&& w.config.bridge.rate_limit_pps_bits is None
            &&& w.config.bridge.log_file is None
            &&& w.config.tx.max_attempts == 3
            &&& w.config.tx.backoff_min_ms == 20
            &&& w.config.tx.backoff_max_ms == 100
            &&& w.config.tx.backoff_cap_ms == 500
            &&& w.config.tx.per_attempt_timeout_secs == 5
            &&& !w.config.tx.skip_cad
        },
{
}

/// Law: a prompt shows the question's label and then, in brackets, what an
/// empty answer stands for.
pub proof fn law_prompt_shows_label_and_default(
    w: Wizard,
    label: String,
    shown: Option<String>,
    out: String,
)
    requires
        call_ensures(WizardStep::label, (w.step,), label),
        call_ensures(Wizard::default_answer, (&w,), shown),
        call_ensures(Wizard::prompt, (&w,), out),
    ensures
        out@.subrange(2, 2 + label@.len() as int) == label@,
        shown matches Some(d) ==> {
            let from = 2 + label@.len() as int + 6;
            &&& out@[from - 1] == '['
            &&& out@.subrange(from, from + d@.len() as int) == d@
            &&& out@[from + d@.len() as int] == ']'
        },
        shown is None ==> out@.len() == 2 + label@.len() + 2,
{
    reveal_strlit("  ");
    reveal_strlit(" ");
    reveal_strlit("[");
    reveal_strlit("]");
    reveal_strlit(": ");
    reveal_strlit("\x1b[2m");
    reveal_strlit("\x1b[0m");
    assert(out@.subrange(2, 2 + label@.len() as int) =~= label@);
    match shown {
        Some(d) => {
            let from = 2 + label@.len() as int + 6;
            assert(out@.subrange(from, from + d@.len() as int) =~= d@);
        },
        None => {},
    }
}

/// Law: the wizard never ends up with an empty passphrase.
pub proof fn law_passphrase_is_entered(w: WizardView, input: Seq<char>)
    requires
        w.step == WizardStep::Passphrase,
    ensures
        w.answered(input).step != WizardStep::Passphrase ==> w.answered(
            input,
        ).config.bridge.passphrase.len() > 0,
{
}

} // verus!
