//! What the terminal user interface shows: network status, radio
//! configuration, aggregate statistics, and a scrolling packet log, as lines
//! of styled text.

use std::collections::VecDeque;

use vstd::prelude::*;
use vstd::string::*;

use crate::activity;
use crate::activity::{less, pad_right_align, TimeSeries, NANOS_PER_SEC};
use crate::headless;
use crate::keymap::same_key;
use crate::lora;
use crate::lora::LoRaConfig;
use crate::radio::{format_bandwidth, ConfigSource};
use crate::router::{
    LogEntryView, PacketAction, PacketDirection, PacketLogEntry, RadioConfigInfo, ConfigInfoView,
    StatsSnapshot, TxRetryInfo, TxRetryState,
};
use crate::text;
use crate::text::{decimal_text, pad_left, pad_right};

verus! {

/// Time between two redraws, in nanoseconds.
pub const TICK_NANOS: u64 = 250_000_000;

/// Rows that the packet log keeps.
pub const MAX_LOG_ENTRIES: usize = 200;

/// The smallest terminal that holds the three columns.
pub const MIN_WIDTH: u16 = 80;

pub const MIN_HEIGHT: u16 = 12;

/// Widths of the three columns, borders included; the last takes what is left.
pub const LEFT_WIDTH: u16 = 30;

pub const LOG_WIDTH: u16 = 46;

pub const ACTIVITY_MIN_WIDTH: u16 = 4;

// ── Styled text ─────────────────────────────────────────────────────

/// A terminal color.
#[derive(Debug, Clone, Copy, PartialEq, Eq, Structural)]
pub enum Color {
    Black,
    Red,
    Green,
    Yellow,
    Blue,
    Magenta,
    Cyan,
    Gray,
    DarkGray,
    White,
}

pub const C_RADIO_RX: Color = Color::Green;

pub const C_RADIO_TX: Color = Color::Blue;

pub const C_NET_RX: Color = Color::Magenta;

pub const C_NET_TX: Color = Color::Cyan;

pub const C_DEDUP: Color = Color::DarkGray;

pub const C_RATE_DROP: Color = Color::Yellow;

pub const C_QUEUE_DROP: Color = Color::Red;

pub const C_SNR: Color = Color::Yellow;

pub const C_LABEL: Color = Color::DarkGray;

pub const C_VALUE: Color = Color::White;

pub const C_ACCENT: Color = Color::Cyan;

pub const C_BORDER: Color = Color::DarkGray;

pub const C_TITLE: Color = Color::White;

/// How a text is drawn.
#[derive(Debug, Clone, Copy, PartialEq, Eq, Structural)]
pub struct Style {
    pub fg: Option<Color>,
    pub bg: Option<Color>,
    pub bold: bool,
}

/// A styled text.
#[derive(Debug)]
pub struct Span {
    pub text: String,
    pub style: Style,
}

/// What a [`Span`] says.
#[verifier::ext_equal]
pub struct SpanView {
    pub text: Seq<char>,
    pub style: Style,
}

impl View for Span {
    type V = SpanView;

    open spec fn view(&self) -> SpanView {
        SpanView { text: self.text@, style: self.style }
    }
}

/// A line of styled texts.
#[derive(Debug)]
pub struct Line {
    pub spans: Vec<Span>,
}

impl View for Line {
    type V = Seq<SpanView>;

    open spec fn view(&self) -> Seq<SpanView> {
        self.spans@.map_values(|s: Span| s@)
    }
}

/// What a list of lines says.
pub open spec fn lines_view(lines: Seq<Line>) -> Seq<Seq<SpanView>> {
    lines.map_values(|l: Line| l@)
}

/// Text in the terminal's own colors.
pub open spec fn raw(text: Seq<char>) -> SpanView {
    SpanView { text, style: Style { fg: None, bg: None, bold: false } }
}

/// Text in a color.
pub open spec fn colored(text: Seq<char>, color: Color) -> SpanView {
    SpanView { text, style: Style { fg: Some(color), bg: None, bold: false } }
}

/// Bold text in a color.
pub open spec fn bold(text: Seq<char>, color: Color) -> SpanView {
    SpanView { text, style: Style { fg: Some(color), bg: None, bold: true } }
}

fn raw_span(text: String) -> (s: Span)
    ensures
        s@ == raw(text@),
{
    Span { text, style: Style { fg: None, bg: None, bold: false } }
}

fn colored_span(text: String, color: Color) -> (s: Span)
    ensures
        s@ == colored(text@, color),
{
    Span { text, style: Style { fg: Some(color), bg: None, bold: false } }
}

fn bold_span(text: String, color: Color) -> (s: Span)
    ensures
        s@ == bold(text@, color),
{
    Span { text, style: Style { fg: Some(color), bg: None, bold: true } }
}

impl Line {
    fn new() -> (l: Line)
        ensures
            l@ == Seq::<SpanView>::empty(),
    {
        let l: Line = Line { spans: Vec::new() };
        assert(l@ =~= Seq::<SpanView>::empty());
        l
    }

    fn with(self, span: Span) -> (l: Line)
        ensures
            l@ == self@.push(span@),
    {
        let ghost before = self.spans@;
        let mut spans: Vec<Span> = self.spans;
        spans.push(span);
        let l: Line = Line { spans };
        assert(l@ =~= self@.push(span@));
        l
    }
}

fn add_line(lines: &mut Vec<Line>, line: Line)
    ensures
        lines_view(final(lines)@) == lines_view(old(lines)@).push(line@),
{
    lines.push(line);
    assert(lines_view(lines@) =~= lines_view(old(lines)@).push(line@));
}

fn no_lines() -> (lines: Vec<Line>)
    ensures
        lines_view(lines@) == Seq::<Seq<SpanView>>::empty(),
{
    let lines: Vec<Line> = Vec::new();
    assert(lines_view(lines@) =~= Seq::<Seq<SpanView>>::empty());
    lines
}

// ── Shared helpers ──────────────────────────────────────────────────

/// The color of an RSSI reading.
pub open spec fn color_of_rssi(rssi: int) -> Color {
    if rssi >= -70 {
        Color::Green
    } else if rssi >= -90 {
        C_RATE_DROP
    } else {
        C_QUEUE_DROP
    }
}

/// The color of an RSSI reading.
pub fn rssi_color(rssi: i16) -> (c: Color)
    ensures
        c == color_of_rssi(rssi as int),
{
    if rssi >= -70 {
        Color::Green
    } else if rssi >= -90 {
        C_RATE_DROP
    } else {
        C_QUEUE_DROP
    }
}

/// The color of an SNR reading.
pub open spec fn color_of_snr(snr: int) -> Color {
    if snr >= 5 {
        Color::Green
    } else if snr >= 0 {
        C_RATE_DROP
    } else {
        C_QUEUE_DROP
    }
}

/// The color of an SNR reading.
pub fn snr_color(snr: i16) -> (c: Color)
    ensures
        c == color_of_snr(snr as int),
{
    if snr >= 5 {
        Color::Green
    } else if snr >= 0 {
        C_RATE_DROP
    } else {
        C_QUEUE_DROP
    }
}

/// Law: the colors of the readings. An RSSI is green from -70 dBm up, red
/// below -90 dBm and yellow between; an SNR is green from 5 dB up, red below
/// zero and yellow between.
pub proof fn law_signal_colors(rssi: i16, snr: i16, of_rssi: Color, of_snr: Color)
    requires
        call_ensures(rssi_color, (rssi,), of_rssi),
        call_ensures(snr_color, (snr,), of_snr),
    ensures
        of_rssi == Color::Green <==> rssi >= -70,
        of_rssi == Color::Yellow <==> -90 <= rssi < -70,
        of_rssi == Color::Red <==> rssi < -90,
        of_snr == Color::Green <==> snr >= 5,
        of_snr == Color::Yellow <==> 0 <= snr < 5,
        of_snr == Color::Red <==> snr < 0,
{
}

/// A text in a color and nothing else.
pub open spec fn plainly(s: SpanView, text: Seq<char>, color: Color) -> bool {
    &&& s.text == text
    &&& s.style.fg == Some(color)
    &&& s.style.bg is None
    &&& !s.style.bold
}

/// A line with a blank, a label in a column of ten, and a value in a color.
pub open spec fn shows(line: Seq<SpanView>, label: Seq<char>, value: Seq<char>, color: Color) -> bool {
    &&& line.len() == 3
    &&& line[0].text == seq![' ']
    &&& line[1].text.len() == 10
    &&& line[1].text.take(label.len() as int) == label
    &&& forall|i: int| label.len() <= i < 10 ==> #[trigger] line[1].text[i] == ' '
    &&& line[1].style == (Style { fg: Some(Color::DarkGray), bg: None, bold: false })
    &&& plainly(line[2], value, color)
}

proof fn lemma_kv(label: Seq<char>, value: Seq<char>, color: Color)
    requires
        label.len() <= 10,
    ensures
        shows(kv(label, value, color), label, value, color),
{
    reveal_strlit(" ");
    assert(" "@ =~= seq![' ']);
    assert(text::padded_right(label, 10).take(label.len() as int) =~= label);
}

/// Law: a label and a value stand on a line as given, the label in a gray
/// column of ten, the value in its color.
pub proof fn law_label_and_value(label: &str, value: &str, color: Color, line: Line)
    requires
        call_ensures(kv_line, (label, value, color), line),
        label@.len() <= 10,
    ensures
        shows(line@, label@, value@, color),
{
    lemma_kv(label@, value@, color);
}

/// A label and a value on a line.
pub open spec fn kv(label: Seq<char>, value: Seq<char>, color: Color) -> Seq<SpanView> {
    seq![raw(" "@), colored(text::padded_right(label, 10), C_LABEL), colored(value, color)]
}

/// A label and a value on a line.
pub fn kv_line(label: &str, value: &str, color: Color) -> (l: Line)
    ensures
        l@ == kv(label@, value@, color),
{
    Line::new().with(raw_span(" ".to_owned())).with(
        colored_span(pad_right(label, 10), C_LABEL),
    ).with(colored_span(value.to_owned(), color))
}

/// A duration as seconds, as minutes and seconds, or as hours and minutes.
pub open spec fn duration_text(secs: nat) -> Seq<char> {
    if secs < 60 {
        text::decimal(secs) + "s"@
    } else if secs < 3600 {
        text::decimal(secs / 60) + "m"@ + text::decimal(secs % 60) + "s"@
    } else {
        text::decimal(secs / 3600) + "h"@ + text::decimal((secs % 3600) / 60) + "m"@
    }
}

/// A duration in seconds, in its two largest units.
pub fn format_duration(secs: u64) -> (out: String)
    ensures
        out@ == duration_text(secs as nat),
{
    if secs < 60 {
        let mut s: String = decimal_text(secs);
        s.append("s");
        s
    } else if secs < 3600 {
        let mut s: String = decimal_text(secs / 60);
        s.append("m");
        text::push_decimal(&mut s, secs % 60);
        s.append("s");
        s
    } else {
        let mut s: String = decimal_text(secs / 3600);
        s.append("h");
        text::push_decimal(&mut s, (secs % 3600) / 60);
        s.append("m");
        s
    }
}

/// A duration in its largest unit, rounded down.
pub open spec fn short_duration_text(secs: nat) -> Seq<char> {
    if secs < 60 {
        text::decimal(secs) + "s"@
    } else if secs < 3600 {
        text::decimal(secs / 60) + "m"@
    } else {
        text::decimal(secs / 3600) + "h"@
    }
}

/// A duration in seconds, in its largest unit.
pub fn format_short_duration(secs: u64) -> (out: String)
    ensures
        out@ == short_duration_text(secs as nat),
{
    if secs < 60 {
        let mut s: String = decimal_text(secs);
        s.append("s");
        s
    } else if secs < 3600 {
        let mut s: String = decimal_text(secs / 60);
        s.append("m");
        s
    } else {
        let mut s: String = decimal_text(secs / 3600);
        s.append("h");
        s
    }
}

/// Law: a duration is shown in hours and minutes, or, below an hour, in
/// minutes and seconds, or, below a minute, in seconds; the short form is the
/// first of the two.
pub proof fn law_durations(
    secs: u64,
    h: int,
    m: int,
    s: int,
    long: String,
    short: String,
)
    requires
        call_ensures(format_duration, (secs,), long),
        call_ensures(format_short_duration, (secs,), short),
        secs == 3600 * h + 60 * m + s,
        h >= 0,
        0 <= m < 60,
        0 <= s < 60,
    ensures
        h == 0 && m == 0 ==> {
            &&& long@ == text::decimal(s as nat) + "s"@
            &&& short@ == text::decimal(s as nat) + "s"@
        },
        h == 0 && m > 0 ==> {
            &&& long@ == text::decimal(m as nat) + "m"@ + text::decimal(s as nat) + "s"@
            &&& short@ == text::decimal(m as nat) + "m"@
        },
        h > 0 ==> {
            &&& long@ == text::decimal(h as nat) + "h"@ + text::decimal(m as nat) + "m"@
            &&& short@ == text::decimal(h as nat) + "h"@
        },
{
    assert((secs as nat) / 3600 == h);
    assert(((secs as nat) % 3600) / 60 == m);
    assert((secs as nat) % 60 == s);
}

// ── Event loop ──────────────────────────────────────────────────────

/// The packet log with one more entry: the oldest leaves when it is full.
pub open spec fn log_with(
    log: Seq<PacketLogEntry>,
    entry: PacketLogEntry,
) -> Seq<PacketLogEntry> {
    if log.len() >= MAX_LOG_ENTRIES {
        log.skip(1).push(entry)
    } else {
        log.push(entry)
    }
}

/// Take an entry into the packet log.
pub fn push_log_entry(log: &mut VecDeque<PacketLogEntry>, entry: PacketLogEntry)
    ensures
        final(log)@ == log_with(old(log)@, entry),
{
    if log.len() >= MAX_LOG_ENTRIES {
        let _ = log.pop_front();
        assert(log@ =~= old(log)@.skip(1));
    }
    log.push_back(entry);
}

/// Law: the packet log never outgrows its limit, and always ends with the
/// entry that came last.
pub proof fn law_log_is_bounded(log: Seq<PacketLogEntry>, entry: PacketLogEntry)
    requires
        log.len() <= MAX_LOG_ENTRIES,
    ensures
        log_with(log, entry).len() <= MAX_LOG_ENTRIES,
        log_with(log, entry).last() == entry,
{
}

/// Law: the packet log keeps up to two hundred rows in the order in which they
/// came. A new one goes to the end; only then, and only of a full log, the
/// oldest leaves.
pub proof fn law_log_keeps_the_latest(log: Seq<PacketLogEntry>, entry: PacketLogEntry, i: int)
    requires
        log.len() <= 200,
        0 <= i < log.len(),
    ensures
        ({
            let after = log_with(log, entry);
            &&& log.len() < 200 ==> after.len() == log.len() + 1 && after[i] == log[i]
            &&& log.len() == 200 ==> after.len() == 200 && (i > 0 ==> after[i - 1] == log[i])
            &&& after[after.len() - 1] == entry
        }),
{
}

/// Law: an entry is taken in at the end of the log; of a log of two hundred
/// the oldest leaves.
pub proof fn law_push_log_entry(
    log: &mut VecDeque<PacketLogEntry>,
    entry: PacketLogEntry,
    i: int,
)
    requires
        call_ensures(push_log_entry, (log, entry), ()),
        0 <= i < old(log)@.len() <= 200,
    ensures
        final(log)@[final(log)@.len() - 1] == entry,
        old(log)@.len() < 200 ==> final(log)@.len() == old(log)@.len() + 1 && final(log)@[i]
            == old(log)@[i],
        old(log)@.len() == 200 ==> final(log)@.len() == 200 && (i > 0 ==> final(log)@[i - 1]
            == old(log)@[i]),
{
}

/// Whether a key press ends the program: `q`, or `c` with just the control key.
pub fn is_quit(pressed: bool, key: Option<char>, just_control: bool) -> (r: bool)
    ensures
        r == (pressed && (key == Some('q') || (key == Some('c') && just_control))),
{
    match key {
        Some(c) => pressed && (c == 'q' || (c == 'c' && just_control)),
        None => false,
    }
}

/// How long to wait for a key when the last tick was this long ago, in nanoseconds.
pub fn poll_timeout(since_tick: u64) -> (wait: u64)
    ensures
        wait == less(TICK_NANOS, since_tick),
{
    TICK_NANOS.saturating_sub(since_tick)
}

/// Law: `q` ends the program when it is pressed, `c` with just the control
/// key, and no other key and no release does; and the next tick is due a
/// quarter of a second after the last.
pub proof fn law_quit_and_tick(
    key: char,
    just_control: bool,
    down: bool,
    up: bool,
    other: bool,
    since_tick: u64,
    wait: u64,
)
    requires
        call_ensures(is_quit, (true, Some(key), just_control), down),
        call_ensures(is_quit, (false, Some(key), just_control), up),
        call_ensures(is_quit, (true, None::<char>, just_control), other),
        call_ensures(poll_timeout, (since_tick,), wait),
    ensures
        key == 'q' ==> down,
        key == 'c' ==> down == just_control,
        key != 'q' && key != 'c' ==> !down,
        !up,
        !other,
        since_tick <= 250_000_000 ==> since_tick + wait == 250_000_000,
        since_tick > 250_000_000 ==> wait == 0,
{
}

/// The message of a terminal that is too small.
pub open spec fn too_small_text(width: u16, height: u16) -> Seq<char> {
    "Terminal too small ("@ + text::decimal(width as nat) + "x"@ + text::decimal(height as nat)
        + "), need 80x12+"@
}

/// The message to show in place of the panels, if the terminal is too small.
pub fn size_warning(width: u16, height: u16) -> (r: Option<String>)
    ensures
        match r {
            Some(s) => (width < MIN_WIDTH || height < MIN_HEIGHT) && s@ == too_small_text(
                width,
                height,
            ),
            None => width >= MIN_WIDTH && height >= MIN_HEIGHT,
        },
{
    if width < MIN_WIDTH || height < MIN_HEIGHT {
        let mut s: String = "Terminal too small (".to_owned();
        text::push_decimal(&mut s, width as u64);
        s.append("x");
        text::push_decimal(&mut s, height as u64);
        s.append("), need 80x12+");
        Some(s)
    } else {
        None
    }
}

/// Law: a terminal is too small if and only if it has fewer than 80 columns or
/// fewer than 12 rows, and is told its size.
pub proof fn law_smallest_terminal(width: u16, height: u16, r: Option<String>)
    requires
        call_ensures(size_warning, (width, height), r),
    ensures
        r is None <==> width >= 80 && height >= 12,
        r matches Some(s) ==> s@ == "Terminal too small ("@ + text::decimal(width as nat) + "x"@
            + text::decimal(height as nat) + "), need 80x12+"@,
{
}

// ── Header ──────────────────────────────────────────────────────────

/// A label on a green or gray ground.
pub open spec fn pill(label: Seq<char>, ok: bool) -> SpanView {
    SpanView {
        text: " "@ + label + " "@,
        style: Style {
            fg: Some(
                if ok {
                    Color::Black
                } else {
                    Color::White
                },
            ),
            bg: Some(
                if ok {
                    Color::Green
                } else {
                    C_LABEL
                },
            ),
            bold: false,
        },
    }
}

/// A label on a green or gray ground.
pub fn status_pill(label: &str, ok: bool) -> (s: Span)
    ensures
        s@ == pill(label@, ok),
{
    let mut text: String = " ".to_owned();
    text.append(label);
    text.append(" ");
    let (fg, bg): (Color, Color) = if ok {
        (Color::Black, Color::Green)
    } else {
        (Color::White, C_LABEL)
    };
    Span { text, style: Style { fg: Some(fg), bg: Some(bg), bold: false } }
}

/// The status pills of the header.
pub fn header_line(stats: &StatsSnapshot) -> (l: Line)
    ensures
        l@ == seq![
            raw(" "@),
            pill("RADIO"@, stats.radio_connected),
            raw(" "@),
            pill("NET"@, stats.neighbor_count > 0),
        ],
{
    Line::new().with(raw_span(" ".to_owned())).with(
        status_pill("RADIO", stats.radio_connected),
    ).with(raw_span(" ".to_owned())).with(status_pill("NET", stats.neighbor_count > 0))
}

/// The clock of the header, given the time as text.
pub fn clock_line(time: &str) -> (l: Line)
    ensures
        l@ == seq![colored(time@ + " "@, C_LABEL)],
{
    let mut s: String = time.to_owned();
    s.append(" ");
    Line::new().with(colored_span(s, C_LABEL))
}

/// Law: the header shows the radio on a green ground if and only if it is
/// connected, and the network if and only if there is a neighbor; otherwise
/// the ground is gray. The clock stands as given before a blank.
pub proof fn law_header_shows_what_is_up(stats: StatsSnapshot, l: Line, time: &str, clock: Line)
    requires
        call_ensures(header_line, (&stats,), l),
        call_ensures(clock_line, (time,), clock),
    ensures
        l@.len() == 4,
        l@[0].text == seq![' '] && l@[2].text == seq![' '],
        l@[1].text == " "@ + "RADIO"@ + " "@,
        l@[3].text == " "@ + "NET"@ + " "@,
        l@[1].style == (if stats.radio_connected {
            Style { fg: Some(Color::Black), bg: Some(Color::Green), bold: false }
        } else {
            Style { fg: Some(Color::White), bg: Some(Color::DarkGray), bold: false }
        }),
        l@[3].style == (if stats.neighbor_count > 0 {
            Style { fg: Some(Color::Black), bg: Some(Color::Green), bold: false }
        } else {
            Style { fg: Some(Color::White), bg: Some(Color::DarkGray), bold: false }
        }),
        clock@.len() == 1,
        plainly(clock@[0], time@ + " "@, Color::DarkGray),
{
    reveal_strlit(" ");
    assert(" "@ =~= seq![' ']);
}

// ── Network panel ───────────────────────────────────────────────────

/// How the distributed hash table is doing.
#[derive(Debug, Clone, Copy, PartialEq, Eq, Structural)]
pub enum DhtStatus {
    Ready,
    Bootstrapping,
    PublishFailed,
}

/// State of the swarm, for the network panel.
#[derive(Debug)]
pub struct SwarmState {
    /// Short id of the swarm.
    pub topic_hash: String,
    pub neighbor_count: usize,
    pub dht_status: DhtStatus,
    /// The status in words.
    pub dht_text: String,
    /// Seconds since this bridge was last published.
    pub published_secs_ago: Option<u64>,
}

/// The color of a status.
pub open spec fn dht_color(status: DhtStatus) -> Color {
    match status {
        DhtStatus::Ready => Color::Green,
        DhtStatus::Bootstrapping => C_RATE_DROP,
        DhtStatus::PublishFailed => C_QUEUE_DROP,
    }
}

/// When this bridge was last published.
pub open spec fn published_text(secs_ago: Option<u64>) -> Seq<char> {
    match secs_ago {
        Some(n) => text::decimal(n as nat) + "s ago"@,
        None => "-"@,
    }
}

/// The lines of the network panel.
pub fn network_lines(state: &SwarmState) -> (lines: Vec<Line>)
    ensures
        lines_view(lines@) == seq![
            kv("ID"@, state.topic_hash@, C_ACCENT),
            kv(
                "Peers"@,
                text::decimal(state.neighbor_count as nat),
                if state.neighbor_count > 0 {
                    Color::Green
                } else {
                    C_RATE_DROP
                },
            ),
            kv("DHT"@, state.dht_text@, dht_color(state.dht_status)),
            kv("Published"@, published_text(state.published_secs_ago), C_LABEL),
        ],
{
    let dht: Color = match state.dht_status {
        DhtStatus::Ready => Color::Green,
        DhtStatus::Bootstrapping => C_RATE_DROP,
        DhtStatus::PublishFailed => C_QUEUE_DROP,
    };
    let neighbors: Color = if state.neighbor_count > 0 {
        Color::Green
    } else {
        C_RATE_DROP
    };
    let published: String = match state.published_secs_ago {
        Some(n) => {
            let mut s: String = decimal_text(n);
            s.append("s ago");
            s
        },
        None => "-".to_owned(),
    };
    let count: String = decimal_text(state.neighbor_count as u64);
    let mut lines: Vec<Line> = no_lines();
    add_line(&mut lines, kv_line("ID", state.topic_hash.as_str(), C_ACCENT));
    add_line(&mut lines, kv_line("Peers", count.as_str(), neighbors));
    add_line(&mut lines, kv_line("DHT", state.dht_text.as_str(), dht));
    add_line(&mut lines, kv_line("Published", published.as_str(), C_LABEL));
    lines
}

/// Law: the network panel shows the swarm's id, its neighbors (green where
/// there are any, else yellow), the state of the hash table (green when ready,
/// yellow while it starts, red when publishing failed) and when the bridge was
/// published.
pub proof fn law_network_panel(state: SwarmState, lines: Vec<Line>, count: String)
    requires
        call_ensures(network_lines, (&state,), lines),
        call_ensures(decimal_text, (state.neighbor_count as u64,), count),
    ensures
        ({
            let v = lines_view(lines@);
            &&& v.len() == 4
            &&& shows(v[0], "ID"@, state.topic_hash@, Color::Cyan)
            &&& state.neighbor_count > 0 ==> shows(v[1], "Peers"@, count@, Color::Green)
            &&& state.neighbor_count == 0 ==> shows(v[1], "Peers"@, count@, Color::Yellow)
            &&& state.dht_status == DhtStatus::Ready ==> shows(
                v[2],
                "DHT"@,
                state.dht_text@,
                Color::Green,
            )
            &&& state.dht_status == DhtStatus::Bootstrapping ==> shows(
                v[2],
                "DHT"@,
                state.dht_text@,
                Color::Yellow,
            )
            &&& state.dht_status == DhtStatus::PublishFailed ==> shows(
                v[2],
                "DHT"@,
                state.dht_text@,
                Color::Red,
            )
            &&& state.published_secs_ago is None ==> shows(
                v[3],
                "Published"@,
                "-"@,
                Color::DarkGray,
            )
            &&& state.published_secs_ago matches Some(n) ==> shows(
                v[3],
                "Published"@,
                text::decimal(n as nat) + "s ago"@,
                Color::DarkGray,
            )
        }),
{
    reveal_strlit("ID");
    reveal_strlit("Peers");
    reveal_strlit("DHT");
    reveal_strlit("Published");
    let v = lines_view(lines@);
    lemma_kv("ID"@, state.topic_hash@, C_ACCENT);
    lemma_kv("Peers"@, count@, v[1][2].style.fg->Some_0);
    lemma_kv("DHT"@, state.dht_text@, dht_color(state.dht_status));
    lemma_kv("Published"@, published_text(state.published_secs_ago), C_LABEL);
}

// ── Radio panel ─────────────────────────────────────────────────────

/// The radio panel.
#[derive(Debug)]
pub struct RadioPanel {
    pub title: String,
    pub border: Color,
    pub lines: Vec<Line>,
}

/// The border of the radio panel.
pub open spec fn radio_border(info: ConfigInfoView) -> Color {
    if !info.connected {
        C_QUEUE_DROP
    } else if info.source == ConfigSource::Mux {
        C_RATE_DROP
    } else {
        C_BORDER
    }
}

/// The title of the radio panel.
pub open spec fn radio_title(info: ConfigInfoView) -> Seq<char> {
    if !info.connected {
        " Radio (disconnected) "@
    } else if info.source == ConfigSource::Mux {
        " Radio (mux) "@
    } else {
        " Radio "@
    }
}

/// The mux holds a setting that is not the one asked for.
pub open spec fn mismatch(info: ConfigInfoView, same: bool) -> bool {
    info.connected && info.source == ConfigSource::Mux && !same
}

/// A setting on a line: dim while disconnected, and marked where the mux
/// holds another value than was asked for.
pub open spec fn setting(
    info: ConfigInfoView,
    label: Seq<char>,
    value: Seq<char>,
    same: bool,
) -> Seq<SpanView> {
    kv(
        label,
        if mismatch(info, same) {
            value + " !"@
        } else {
            value
        },
        if !info.connected {
            C_LABEL
        } else if mismatch(info, same) {
            C_RATE_DROP
        } else {
            C_ACCENT
        },
    )
}

/// The lines of the radio panel.
pub open spec fn radio_lines(info: ConfigInfoView) -> Seq<Seq<SpanView>> {
    let a = info.active;
    let r = info.requested;
    seq![
        kv(
            "Device"@,
            if info.device.len() == 0 {
                "-"@
            } else {
                info.device
            },
            if info.connected {
                C_ACCENT
            } else {
                C_LABEL
            },
        ),
        setting(info, "Freq"@, lora::mhz(a.freq_hz as nat) + " MHz"@, a.freq_hz == r.freq_hz),
        setting(info, "BW"@, a.bw.text(), a.bw == r.bw),
        setting(info, "SF"@, text::decimal(a.sf as nat), a.sf == r.sf),
        setting(
            info,
            "CR"@,
            "4/"@ + text::decimal(a.cr.spec_denominator() as nat),
            a.cr == r.cr,
        ),
        setting(
            info,
            "Sync"@,
            "0x"@ + text::hex_word(a.sync_word as int),
            a.sync_word == r.sync_word,
        ),
        setting(
            info,
            "TX"@,
            text::decimal_signed(a.tx_power_dbm as int) + " dBm"@,
            a.tx_power_dbm == r.tx_power_dbm,
        ),
        setting(
            info,
            "Preamble"@,
            text::decimal(
                if a.preamble_len == 0 {
                    16
                } else {
                    a.preamble_len as nat
                },
            ),
            a.preamble_len == r.preamble_len,
        ),
    ]
}

fn setting_line(info: &RadioConfigInfo, label: &str, value: String, same: bool) -> (l: Line)
    ensures
        l@ == setting(info@, label@, value@, same),
{
    let marked: bool = info.connected && info.source == ConfigSource::Mux && !same;
    let color: Color = if !info.connected {
        C_LABEL
    } else if marked {
        C_RATE_DROP
    } else {
        C_ACCENT
    };
    let mut text: String = value;
    if marked {
        text.append(" !");
    }
    kv_line(label, text.as_str(), color)
}

fn joined(head: String, tail: &str) -> (out: String)
    ensures
        out@ == head@ + tail@,
{
    let mut s: String = head;
    s.append(tail);
    s
}

fn coding_rate_text(a: &LoRaConfig) -> (out: String)
    ensures
        out@ == "4/"@ + text::decimal(a.cr.spec_denominator() as nat),
{
    let mut s: String = "4/".to_owned();
    text::push_decimal(&mut s, a.cr.denominator() as u64);
    s
}

fn sync_text(a: &LoRaConfig) -> (out: String)
    ensures
        out@ == "0x"@ + text::hex_word(a.sync_word as int),
{
    let mut s: String = "0x".to_owned();
    text::push_hex_word(&mut s, a.sync_word);
    s
}

fn preamble_text(a: &LoRaConfig) -> (out: String)
    ensures
        out@ == text::decimal(
            if a.preamble_len == 0 {
                16
            } else {
                a.preamble_len as nat
            },
        ),
{
    if a.preamble_len == 0 {
        decimal_text(16)
    } else {
        decimal_text(a.preamble_len as u64)
    }
}

fn device_line(info: &RadioConfigInfo) -> (l: Line)
    ensures
        l@ == radio_lines(info@)[0],
{
    let color: Color = if info.connected {
        C_ACCENT
    } else {
        C_LABEL
    };
    if info.device.as_str().is_empty() {
        kv_line("Device", "-", color)
    } else {
        kv_line("Device", info.device.as_str(), color)
    }
}

fn setting_lines(info: &RadioConfigInfo) -> (lines: Vec<Line>)
    ensures
        lines_view(lines@) == radio_lines(info@),
{
    let a: &LoRaConfig = &info.active;
    let r: &LoRaConfig = &info.requested;
    let freq: Line = setting_line(
        info,
        "Freq",
        joined(lora::mhz_text(a.freq_hz), " MHz"),
        a.freq_hz == r.freq_hz,
    );
    let bw: Line = setting_line(info, "BW", format_bandwidth(a.bw).to_owned(), a.bw == r.bw);
    let sf: Line = setting_line(info, "SF", decimal_text(a.sf as u64), a.sf == r.sf);
    let cr: Line = setting_line(info, "CR", coding_rate_text(a), a.cr == r.cr);
    let sync: Line = setting_line(info, "Sync", sync_text(a), a.sync_word == r.sync_word);
    let power: Line = setting_line(
        info,
        "TX",
        joined(text::signed_text(a.tx_power_dbm as i64), " dBm"),
        a.tx_power_dbm == r.tx_power_dbm,
    );
    let preamble: Line = setting_line(
        info,
        "Preamble",
        preamble_text(a),
        a.preamble_len == r.preamble_len,
    );
    let mut lines: Vec<Line> = no_lines();
    add_line(&mut lines, device_line(info));
    add_line(&mut lines, freq);
    add_line(&mut lines, bw);
    add_line(&mut lines, sf);
    add_line(&mut lines, cr);
    add_line(&mut lines, sync);
    add_line(&mut lines, power);
    add_line(&mut lines, preamble);
    lines
}

/// The radio panel for the active config.
pub fn radio_panel(info: &RadioConfigInfo) -> (p: RadioPanel)
    ensures
        p.title@ == radio_title(info@),
        p.border == radio_border(info@),
        lines_view(p.lines@) == radio_lines(info@),
{
    let is_mux: bool = info.source == ConfigSource::Mux;
    let border: Color = if !info.connected {
        C_QUEUE_DROP
    } else if is_mux {
        C_RATE_DROP
    } else {
        C_BORDER
    };
    let title: String = if !info.connected {
        " Radio (disconnected) ".to_owned()
    } else if is_mux {
        " Radio (mux) ".to_owned()
    } else {
        " Radio ".to_owned()
    };
    RadioPanel { title, border, lines: setting_lines(info) }
}

/// Law: the radio panel marks a setting exactly where the bridge is connected
/// through a mux whose value differs from the one asked for.
pub proof fn law_marks_show_mux_mismatches(
    info: ConfigInfoView,
    label: Seq<char>,
    value: Seq<char>,
    same: bool,
)
    ensures
        setting(info, label, value, same)[2].text == value <==> !(info.connected && info.source
            == ConfigSource::Mux && !same),
{
    reveal_strlit(" !");
    assert((value + " !"@).len() != value.len());
}

/// A setting as the radio panel shows it: in gray while disconnected; with a
/// mark and in yellow where a mux holds another value than was asked for; else
/// in cyan.
pub open spec fn shows_setting(
    line: Seq<SpanView>,
    info: RadioConfigInfo,
    label: Seq<char>,
    value: Seq<char>,
    as_asked: bool,
) -> bool {
    &&& !info.connected ==> shows(line, label, value, Color::DarkGray)
    &&& info.connected && info.source == ConfigSource::Mux && !as_asked ==> shows(
        line,
        label,
        value + seq![' ', '!'],
        Color::Yellow,
    )
    &&& info.connected && (info.source != ConfigSource::Mux || as_asked) ==> shows(
        line,
        label,
        value,
        Color::Cyan,
    )
}

proof fn lemma_setting(info: RadioConfigInfo, label: Seq<char>, value: Seq<char>, same: bool)
    requires
        label.len() <= 10,
    ensures
        shows_setting(setting(info@, label, value, same), info, label, value, same),
{
    reveal_strlit(" !");
    assert(" !"@ =~= seq![' ', '!']);
    lemma_kv(label, value, C_LABEL);
    lemma_kv(label, value, C_ACCENT);
    lemma_kv(label, value + " !"@, C_RATE_DROP);
}

/// Law: the radio panel shows, one below the other, the device and each
/// setting that is active, a preamble of zero as 16. A setting is marked on
/// account of the setting asked for that it belongs to and of no other. The
/// title and the border tell whether there is a connection and, if so, whether
/// it is through a mux.
pub proof fn law_radio_panel(
    info: RadioConfigInfo,
    p: RadioPanel,
    mhz: String,
    bw: &'static str,
    cr: u8,
)
    requires
        call_ensures(radio_panel, (&info,), p),
        call_ensures(lora::mhz_text, (info.active.freq_hz,), mhz),
        call_ensures(format_bandwidth, (info.active.bw,), bw),
        call_ensures(lora::LoRaCodingRate::denominator, (info.active.cr,), cr),
    ensures
        p.title@ == (if !info.connected {
            " Radio (disconnected) "@
        } else if info.source == ConfigSource::Mux {
            " Radio (mux) "@
        } else {
            " Radio "@
        }),
        p.border == Color::Red <==> !info.connected,
        p.border == Color::Yellow <==> info.connected && info.source == ConfigSource::Mux,
        p.border == Color::DarkGray <==> info.connected && info.source != ConfigSource::Mux,
        ({
            let v = lines_view(p.lines@);
            let a = info.active;
            let r = info.requested;
            let device = if info.device@.len() == 0 {
                "-"@
            } else {
                info.device@
            };
            let preamble = if a.preamble_len == 0 {
                16
            } else {
                a.preamble_len as nat
            };
            &&& v.len() == 8
            &&& info.connected ==> shows(v[0], "Device"@, device, Color::Cyan)
            &&& !info.connected ==> shows(v[0], "Device"@, device, Color::DarkGray)
            &&& shows_setting(v[1], info, "Freq"@, mhz@ + " MHz"@, a.freq_hz == r.freq_hz)
            &&& shows_setting(v[2], info, "BW"@, bw@, a.bw == r.bw)
            &&& shows_setting(v[3], info, "SF"@, text::decimal(a.sf as nat), a.sf == r.sf)
            &&& shows_setting(
                v[4],
                info,
                "CR"@,
                "4/"@ + text::decimal(cr as nat),
                a.cr == r.cr,
            )
            &&& shows_setting(
                v[5],
                info,
                "Sync"@,
                "0x"@ + text::hex_word(a.sync_word as int),
                a.sync_word == r.sync_word,
            )
            &&& shows_setting(
                v[6],
                info,
                "TX"@,
                text::decimal_signed(a.tx_power_dbm as int) + " dBm"@,
                a.tx_power_dbm == r.tx_power_dbm,
            )
            &&& shows_setting(
                v[7],
                info,
                "Preamble"@,
                text::decimal(preamble),
                a.preamble_len == r.preamble_len,
            )
        }),
{
    reveal_strlit("Device");
    reveal_strlit("Freq");
    reveal_strlit("BW");
    reveal_strlit("SF");
    reveal_strlit("CR");
    reveal_strlit("Sync");
    reveal_strlit("TX");
    reveal_strlit("Preamble");
    let a = info.active;
    let r = info.requested;
    let device = if info.device@.len() == 0 {
        "-"@
    } else {
        info.device@
    };
    let preamble = if a.preamble_len == 0 {
        16
    } else {
        a.preamble_len as nat
    };
    lemma_kv("Device"@, device, C_ACCENT);
    lemma_kv("Device"@, device, C_LABEL);
    lemma_setting(info, "Freq"@, mhz@ + " MHz"@, a.freq_hz == r.freq_hz);
    lemma_setting(info, "BW"@, bw@, a.bw == r.bw);
    lemma_setting(info, "SF"@, text::decimal(a.sf as nat), a.sf == r.sf);
    lemma_setting(info, "CR"@, "4/"@ + text::decimal(cr as nat), a.cr == r.cr);
    lemma_setting(
        info,
        "Sync"@,
        "0x"@ + text::hex_word(a.sync_word as int),
        a.sync_word == r.sync_word,
    );
    lemma_setting(
        info,
        "TX"@,
        text::decimal_signed(a.tx_power_dbm as int) + " dBm"@,
        a.tx_power_dbm == r.tx_power_dbm,
    );
    lemma_setting(
        info,
        "Preamble"@,
        text::decimal(preamble),
        a.preamble_len == r.preamble_len,
    );
}

// ── Stats panel ─────────────────────────────────────────────────────

/// A counter on a line.
pub open spec fn counter_line(label: Seq<char>, value: Seq<char>, color: Color) -> Seq<SpanView> {
    seq![
        raw(" "@),
        colored(text::padded_right(label, 9), C_LABEL),
        colored(text::padded_left(value, 6), color),
    ]
}

fn stat_line(label: &str, value: &str, color: Color) -> (l: Line)
    ensures
        l@ == counter_line(label@, value@, color),
{
    Line::new().with(raw_span(" ".to_owned())).with(
        colored_span(pad_right(label, 9), C_LABEL),
    ).with(colored_span(pad_left(value, 6), color))
}

fn count_line(label: &str, value: u64, color: Color) -> (l: Line)
    ensures
        l@ == counter_line(label@, text::decimal(value as nat), color),
{
    let text: String = decimal_text(value);
    stat_line(label, text.as_str(), color)
}

/// The lines of the stats panel.
pub fn stats_lines(stats: &StatsSnapshot, uptime_secs: u64) -> (lines: Vec<Line>)
    ensures
        lines_view(lines@) == seq![
            counter_line("Uptime"@, duration_text(uptime_secs as nat), C_VALUE),
            counter_line("RF RX"@, text::decimal(stats.radio_rx as nat), C_RADIO_RX),
            counter_line("RF TX"@, text::decimal(stats.radio_tx as nat), C_RADIO_TX),
            counter_line("Net RX"@, text::decimal(stats.gossip_rx as nat), C_NET_RX),
            counter_line("Net TX"@, text::decimal(stats.gossip_tx as nat), C_NET_TX),
            counter_line("Deduped"@, text::decimal(stats.dedup_hits as nat), C_DEDUP),
            counter_line("Rate lim"@, text::decimal(stats.rate_limit_drops as nat), C_RATE_DROP),
            counter_line("Q drop"@, text::decimal(stats.dropped_queue as nat), C_QUEUE_DROP),
        ],
{
    let uptime: String = format_duration(uptime_secs);
    let mut lines: Vec<Line> = no_lines();
    add_line(&mut lines, stat_line("Uptime", uptime.as_str(), C_VALUE));
    add_line(&mut lines, count_line("RF RX", stats.radio_rx, C_RADIO_RX));
    add_line(&mut lines, count_line("RF TX", stats.radio_tx, C_RADIO_TX));
    add_line(&mut lines, count_line("Net RX", stats.gossip_rx, C_NET_RX));
    add_line(&mut lines, count_line("Net TX", stats.gossip_tx, C_NET_TX));
    add_line(&mut lines, count_line("Deduped", stats.dedup_hits, C_DEDUP));
    add_line(&mut lines, count_line("Rate lim", stats.rate_limit_drops, C_RATE_DROP));
    add_line(&mut lines, count_line("Q drop", stats.dropped_queue, C_QUEUE_DROP));
    lines
}

/// A line with a blank, a label in a column of nine, and a value at the right
/// of a column of six.
pub open spec fn counts(line: Seq<SpanView>, label: Seq<char>, value: Seq<char>, color: Color) -> bool {
    &&& line.len() == 3
    &&& line[0].text == seq![' ']
    &&& line[1].text.len() == 9
    &&& line[1].text.take(label.len() as int) == label
    &&& forall|i: int| label.len() <= i < 9 ==> #[trigger] line[1].text[i] == ' '
    &&& line[1].style == (Style { fg: Some(Color::DarkGray), bg: None, bold: false })
    &&& value.len() >= 6 ==> line[2].text == value
    &&& value.len() < 6 ==> {
        &&& line[2].text.len() == 6
        &&& line[2].text.skip(6 - value.len()) == value
        &&& forall|i: int| 0 <= i < 6 - value.len() ==> #[trigger] line[2].text[i] == ' '
    }
    &&& line[2].style == (Style { fg: Some(color), bg: None, bold: false })
}

proof fn lemma_counter_line(label: Seq<char>, value: Seq<char>, color: Color)
    requires
        label.len() <= 9,
    ensures
        counts(counter_line(label, value, color), label, value, color),
{
    reveal_strlit(" ");
    assert(" "@ =~= seq![' ']);
    assert(text::padded_right(label, 9).take(label.len() as int) =~= label);
    if value.len() >= 6 {
        assert(text::padded_left(value, 6) =~= value);
    } else {
        assert(text::padded_left(value, 6).skip(6 - value.len()) =~= value);
    }
}

/// Law: the stats panel shows how long the bridge is up and every counter
/// under its label and in its color, one below the other.
pub proof fn law_stats_panel(
    stats: StatsSnapshot,
    uptime_secs: u64,
    lines: Vec<Line>,
    uptime: String,
)
    requires
        call_ensures(stats_lines, (&stats, uptime_secs), lines),
        call_ensures(format_duration, (uptime_secs,), uptime),
    ensures
        ({
            let v = lines_view(lines@);
            let d = |n: u64| text::decimal(n as nat);
            &&& v.len() == 8
            &&& counts(v[0], "Uptime"@, uptime@, Color::White)
            &&& counts(v[1], "RF RX"@, d(stats.radio_rx), Color::Green)
            &&& counts(v[2], "RF TX"@, d(stats.radio_tx), Color::Blue)
            &&& counts(v[3], "Net RX"@, d(stats.gossip_rx), Color::Magenta)
            &&& counts(v[4], "Net TX"@, d(stats.gossip_tx), Color::Cyan)
            &&& counts(v[5], "Deduped"@, d(stats.dedup_hits), Color::DarkGray)
            &&& counts(v[6], "Rate lim"@, d(stats.rate_limit_drops), Color::Yellow)
            &&& counts(v[7], "Q drop"@, d(stats.dropped_queue), Color::Red)
        }),
{
    reveal_strlit("Uptime");
    reveal_strlit("RF RX");
    reveal_strlit("RF TX");
    reveal_strlit("Net RX");
    reveal_strlit("Net TX");
    reveal_strlit("Deduped");
    reveal_strlit("Rate lim");
    reveal_strlit("Q drop");
    let d = |n: u64| text::decimal(n as nat);
    lemma_counter_line("Uptime"@, uptime@, C_VALUE);
    lemma_counter_line("RF RX"@, d(stats.radio_rx), C_RADIO_RX);
    lemma_counter_line("RF TX"@, d(stats.radio_tx), C_RADIO_TX);
    lemma_counter_line("Net RX"@, d(stats.gossip_rx), C_NET_RX);
    lemma_counter_line("Net TX"@, d(stats.gossip_tx), C_NET_TX);
    lemma_counter_line("Deduped"@, d(stats.dedup_hits), C_DEDUP);
    lemma_counter_line("Rate lim"@, d(stats.rate_limit_drops), C_RATE_DROP);
    lemma_counter_line("Q drop"@, d(stats.dropped_queue), C_QUEUE_DROP);
}

// ── Packet log ──────────────────────────────────────────────────────

/// The header of the packet log. Every row uses the same widths.
pub open spec fn log_header() -> Seq<SpanView> {
    seq![
        bold(text::padded_left("Age"@, 5), Color::Gray),
        bold(text::padded_left("Hash"@, 8), Color::Gray),
        bold(text::padded_left("RF"@, 4), Color::Gray),
        bold(text::padded_left("Net"@, 4), Color::Gray),
        bold(text::padded_left("Size"@, 6), Color::Gray),
        bold(text::padded_left("RSSI"@, 6), Color::Gray),
        bold(text::padded_left("SNR"@, 5), Color::Gray),
        bold(text::padded_left("Act"@, 5), Color::Gray),
    ]
}

/// The hash column: the first three bytes, or dots where the row above shows
/// the same hash.
pub open spec fn hash_column(hash: Seq<u8>, above: Option<Seq<u8>>) -> SpanView {
    if above == Some(hash) {
        colored(text::padded_left("··"@, 8), C_BORDER)
    } else {
        colored(text::padded_left(text::hex_bytes(hash.take(3)), 8), C_LABEL)
    }
}

/// The radio column: lit where the packet came or went by radio.
pub open spec fn rf_column(direction: PacketDirection, bridged: bool) -> SpanView {
    match direction {
        PacketDirection::RadioIn => colored(text::padded_left("RX"@, 4), C_RADIO_RX),
        PacketDirection::GossipIn => if bridged {
            colored(text::padded_left("TX"@, 4), C_RADIO_TX)
        } else {
            colored(text::padded_left("──"@, 4), C_BORDER)
        },
    }
}

/// The network column: lit where the packet came or went through the swarm.
pub open spec fn net_column(direction: PacketDirection, bridged: bool) -> SpanView {
    match direction {
        PacketDirection::GossipIn => colored(text::padded_left("RX"@, 4), C_NET_RX),
        PacketDirection::RadioIn => if bridged {
            colored(text::padded_left("TX"@, 4), C_NET_TX)
        } else {
            colored(text::padded_left("──"@, 4), C_BORDER)
        },
    }
}

/// The RSSI column.
pub open spec fn rssi_column(rssi: Option<i16>) -> SpanView {
    match rssi {
        Some(r) => colored(
            text::padded_left(text::decimal_signed(r as int), 6),
            color_of_rssi(r as int),
        ),
        None => colored(text::padded_left("-"@, 6), C_LABEL),
    }
}

/// The SNR column.
pub open spec fn snr_column(snr: Option<i16>) -> SpanView {
    match snr {
        Some(s) => colored(
            text::padded_left(text::decimal_signed(s as int), 5),
            color_of_snr(s as int),
        ),
        None => colored(text::padded_left("-"@, 5), C_LABEL),
    }
}

/// The action column: a retry in yellow with its attempt counter, a final
/// failure in red, a success after retries with its attempt counter, and
/// otherwise why the packet was dropped, if it was.
pub open spec fn action_column(action: PacketAction, tx_retry: Option<TxRetryInfo>) -> SpanView {
    let plain = colored(
        " "@ + text::padded_left(action.text(), 4),
        match action {
            PacketAction::Bridged => C_LABEL,
            PacketAction::DroppedDedup => C_DEDUP,
            PacketAction::DroppedQueueFull => C_QUEUE_DROP,
            PacketAction::DroppedRateLimit => C_RATE_DROP,
        },
    );
    match tx_retry {
        None => plain,
        Some(r) => match r.state {
            TxRetryState::InFlight => plain,
            TxRetryState::Retrying(_) => colored(
                text::padded_left("↻ "@ + headless::counter(r.attempt, r.total_attempts), 5),
                C_RATE_DROP,
            ),
            TxRetryState::Succeeded => colored(
                text::padded_left("OK "@ + headless::counter(r.attempt, r.total_attempts), 5),
                C_LABEL,
            ),
            TxRetryState::Failed => colored(text::padded_left("✗"@, 5), C_QUEUE_DROP),
        },
    }
}

/// A row of the packet log, under a row with hash `above`.
pub open spec fn log_row(e: LogEntryView, above: Option<Seq<u8>>, now: u64) -> Seq<SpanView> {
    let bridged = e.action == PacketAction::Bridged;
    seq![
        colored(
            text::padded_left(
                short_duration_text((less(now, e.timestamp) / NANOS_PER_SEC) as nat),
                5,
            ),
            C_LABEL,
        ),
        hash_column(e.hash, above),
        rf_column(e.direction, bridged),
        net_column(e.direction, bridged),
        colored(text::padded_left(text::decimal(e.size) + "B"@, 6), C_VALUE),
        rssi_column(e.rssi),
        snr_column(e.snr),
        action_column(e.action, e.tx_retry),
    ]
}

/// The first entry that a log panel of the given height shows: borders and
/// header take three rows.
pub open spec fn first_visible(len: nat, height: u16) -> int {
    let room = if height > 3 {
        height - 3
    } else {
        0
    };
    if len > room {
        len - room
    } else {
        0
    }
}

/// The rows of the packet log from entry `from` on.
pub open spec fn log_rows(entries: Seq<PacketLogEntry>, from: int, now: u64) -> Seq<Seq<SpanView>> {
    Seq::new(
        (entries.len() - from) as nat,
        |i: int|
            log_row(
                entries[from + i]@,
                if i == 0 {
                    None
                } else {
                    Some(entries[from + i - 1]@.hash)
                },
                now,
            ),
    )
}

fn age_span(timestamp: u64, now: u64) -> (s: Span)
    ensures
        s@ == colored(
            text::padded_left(
                short_duration_text((less(now, timestamp) / NANOS_PER_SEC) as nat),
                5,
            ),
            C_LABEL,
        ),
{
    let age: String = format_short_duration(now.saturating_sub(timestamp) / NANOS_PER_SEC);
    colored_span(pad_left(age.as_str(), 5), C_LABEL)
}

fn hash_span(hash: &[u8; 32], above: &Option<[u8; 32]>) -> (s: Span)
    ensures
        s@ == hash_column(
            hash@,
            match *above {
                Some(h) => Some(h@),
                None => None,
            },
        ),
{
    let repeated: bool = match above {
        Some(h) => same_key(h, hash),
        None => false,
    };
    if repeated {
        colored_span(pad_left("··", 8), C_BORDER)
    } else {
        let bytes: &[u8] = hash.as_slice();
        let short: &[u8] = &bytes[0..3];
        assert(short@ =~= hash@.take(3));
        let hex: String = text::hex_encode(short);
        colored_span(pad_left(hex.as_str(), 8), C_LABEL)
    }
}

fn rf_span(direction: PacketDirection, bridged: bool) -> (s: Span)
    ensures
        s@ == rf_column(direction, bridged),
{
    match direction {
        PacketDirection::RadioIn => colored_span(pad_left("RX", 4), C_RADIO_RX),
        PacketDirection::GossipIn => if bridged {
            colored_span(pad_left("TX", 4), C_RADIO_TX)
        } else {
            colored_span(pad_left("──", 4), C_BORDER)
        },
    }
}

fn net_span(direction: PacketDirection, bridged: bool) -> (s: Span)
    ensures
        s@ == net_column(direction, bridged),
{
    match direction {
        PacketDirection::GossipIn => colored_span(pad_left("RX", 4), C_NET_RX),
        PacketDirection::RadioIn => if bridged {
            colored_span(pad_left("TX", 4), C_NET_TX)
        } else {
            colored_span(pad_left("──", 4), C_BORDER)
        },
    }
}

fn size_span(size: usize) -> (s: Span)
    ensures
        s@ == colored(text::padded_left(text::decimal(size as nat) + "B"@, 6), C_VALUE),
{
    let mut text: String = decimal_text(size as u64);
    text.append("B");
    colored_span(pad_left(text.as_str(), 6), C_VALUE)
}

fn rssi_span(rssi: Option<i16>) -> (s: Span)
    ensures
        s@ == rssi_column(rssi),
{
    match rssi {
        Some(r) => {
            let text: String = text::signed_text(r as i64);
            colored_span(pad_left(text.as_str(), 6), rssi_color(r))
        },
        None => colored_span(pad_left("-", 6), C_LABEL),
    }
}

fn snr_span(snr: Option<i16>) -> (s: Span)
    ensures
        s@ == snr_column(snr),
{
    match snr {
        Some(v) => {
            let text: String = text::signed_text(v as i64);
            colored_span(pad_left(text.as_str(), 5), snr_color(v))
        },
        None => colored_span(pad_left("-", 5), C_LABEL),
    }
}

fn counted(prefix: &str, r: TxRetryInfo) -> (out: String)
    ensures
        out@ == text::padded_left(prefix@ + headless::counter(r.attempt, r.total_attempts), 5),
{
    let mut s: String = prefix.to_owned();
    headless::push_counter(&mut s, r.attempt, r.total_attempts);
    pad_left(s.as_str(), 5)
}

fn action_span(action: PacketAction, tx_retry: Option<TxRetryInfo>) -> (s: Span)
    ensures
        s@ == action_column(action, tx_retry),
{
    match tx_retry {
        Some(r) => match r.state {
            TxRetryState::InFlight => {},
            TxRetryState::Retrying(_) => {
                return colored_span(counted("↻ ", r), C_RATE_DROP);
            },
            TxRetryState::Succeeded => {
                return colored_span(counted("OK ", r), C_LABEL);
            },
            TxRetryState::Failed => {
                return colored_span(pad_left("✗", 5), C_QUEUE_DROP);
            },
        },
        None => {},
    }
    let color: Color = match action {
        PacketAction::Bridged => C_LABEL,
        PacketAction::DroppedDedup => C_DEDUP,
        PacketAction::DroppedQueueFull => C_QUEUE_DROP,
        PacketAction::DroppedRateLimit => C_RATE_DROP,
    };
    let label: String = action.label();
    let padded: String = pad_left(label.as_str(), 4);
    let mut text: String = " ".to_owned();
    text.append(padded.as_str());
    colored_span(text, color)
}

fn header_row() -> (l: Line)
    ensures
        l@ == log_header(),
{
    Line::new().with(bold_span(pad_left("Age", 5), Color::Gray)).with(
        bold_span(pad_left("Hash", 8), Color::Gray),
    ).with(bold_span(pad_left("RF", 4), Color::Gray)).with(
        bold_span(pad_left("Net", 4), Color::Gray),
    ).with(bold_span(pad_left("Size", 6), Color::Gray)).with(
        bold_span(pad_left("RSSI", 6), Color::Gray),
    ).with(bold_span(pad_left("SNR", 5), Color::Gray)).with(
        bold_span(pad_left("Act", 5), Color::Gray),
    )
}

fn entry_row(e: &PacketLogEntry, above: &Option<[u8; 32]>, now: u64) -> (l: Line)
    ensures
        l@ == log_row(
            e@,
            match *above {
                Some(h) => Some(h@),
                None => None,
            },
            now,
        ),
{
    let bridged: bool = e.action == PacketAction::Bridged;
    Line::new().with(age_span(e.timestamp, now)).with(hash_span(&e.hash, above)).with(
        rf_span(e.direction, bridged),
    ).with(net_span(e.direction, bridged)).with(size_span(e.size)).with(rssi_span(e.rssi)).with(
        snr_span(e.snr),
    ).with(action_span(e.action, e.tx_retry))
}

/// The lines of a packet log panel of the given height at time `now`: the
/// header, then the latest entries that fit.
pub fn log_lines(entries: &[PacketLogEntry], height: u16, now: u64) -> (lines: Vec<Line>)
    ensures
        lines_view(lines@) == seq![log_header()] + log_rows(
            entries@,
            first_visible(entries@.len(), height),
            now,
        ),
{
    let room: usize = height.saturating_sub(3) as usize;
    let from: usize = entries.len().saturating_sub(room);
    let mut lines: Vec<Line> = no_lines();
    add_line(&mut lines, header_row());
    let mut above: Option<[u8; 32]> = None;
    let mut i: usize = from;
    let ghost all = log_rows(entries@, from as int, now);
    assert(all.take(0) =~= Seq::<Seq<SpanView>>::empty());
    assert(lines_view(lines@) =~= seq![log_header()] + all.take(0));
    while i < entries.len()
        invariant
            from <= i <= entries@.len(),
            all == log_rows(entries@, from as int, now),
            match above {
                Some(h) => i > from && h@ == entries@[i - 1]@.hash,
                None => i == from,
            },
            lines_view(lines@) == seq![log_header()] + all.take(i - from),
        decreases entries@.len() - i,
    {
        let e: &PacketLogEntry = &entries[i];
        add_line(&mut lines, entry_row(e, &above, now));
        above = Some(e.hash);
        proof {
            assert(all[i - from] == log_row(
                entries@[i as int]@,
                if i == from {
                    None
                } else {
                    Some(entries@[i - 1]@.hash)
                },
                now,
            ));
            assert(all.take(i + 1 - from) =~= all.take(i - from).push(all[i - from]));
            assert(lines_view(lines@) =~= seq![log_header()] + all.take(i + 1 - from));
        }
        i = i + 1;
    }
    assert(all.take(i - from) =~= all);
    lines
}

/// Law: the log panel shows as many of the latest entries as fit between its
/// borders, and never more lines than that.
pub proof fn law_log_fits_its_panel(entries: Seq<PacketLogEntry>, height: u16, now: u64)
    requires
        height >= 3,
    ensures
        ({
            let rows = log_rows(entries, first_visible(entries.len(), height), now);
            &&& 1 + rows.len() <= height - 2
            &&& rows.len() == entries.len() || 1 + rows.len() == height - 2
        }),
{
}

/// A text at the right of a column, in a color.
pub open spec fn at_right(s: SpanView, text: Seq<char>, width: int, color: Color) -> bool {
    &&& s.style == (Style { fg: Some(color), bg: None, bold: false })
    &&& text.len() >= width ==> s.text == text
    &&& text.len() < width ==> {
        &&& s.text.len() == width
        &&& s.text.skip(width - text.len()) == text
        &&& forall|i: int| 0 <= i < width - text.len() ==> #[trigger] s.text[i] == ' '
    }
}

proof fn lemma_at_right(text: Seq<char>, width: int, color: Color)
    requires
        width >= 0,
    ensures
        at_right(colored(text::padded_left(text, width), color), text, width, color),
{
    if text.len() >= width {
        assert(text::padded_left(text, width) =~= text);
    } else {
        assert(text::padded_left(text, width).skip(width - text.len()) =~= text);
    }
}

/// Law: under its header the log panel shows the latest entries, as many as
/// there is room for, oldest first; entry by entry it shows the row of that
/// entry below the row before it.
pub proof fn law_log_panel_shows_the_latest(
    entries: &[PacketLogEntry],
    height: u16,
    now: u64,
    lines: Vec<Line>,
    k: int,
)
    requires
        call_ensures(log_lines, (entries, height, now), lines),
        0 <= k < lines@.len() - 1,
    ensures
        ({
            let n = lines@.len() - 1;
            let e = entries@[entries@.len() - n + k];
            let v = lines_view(lines@);
            &&& n <= entries@.len()
            &&& v[0] == log_header()
            &&& k == 0 ==> v[1] == log_row(e@, None, now)
            &&& k > 0 ==> v[1 + k] == log_row(
                e@,
                Some(entries@[entries@.len() - n + k - 1].hash@),
                now,
            )
        }),
{
    let from = first_visible(entries@.len(), height);
    let rows = log_rows(entries@, from, now);
    let v = lines_view(lines@);
    assert(v.len() == lines@.len());
    assert(rows.len() == entries@.len() - from);
    assert(v[1 + k] == rows[k]);
}

/// Law: the header of the packet log names its columns in bold gray, and below
/// it there is a row for every entry, or for as many as fit between the borders.
pub proof fn law_log_header_names_the_columns(
    entries: &[PacketLogEntry],
    height: u16,
    now: u64,
    lines: Vec<Line>,
    i: int,
)
    requires
        call_ensures(log_lines, (entries, height, now), lines),
        0 <= i < 8,
    ensures
        ({
            let header = lines_view(lines@)[0];
            &&& header.len() == 8
            &&& entries@.len() + 3 <= height ==> lines@.len() == 1 + entries@.len()
            &&& 3 <= height < entries@.len() + 3 ==> lines@.len() == height - 2
            &&& height < 3 ==> lines@.len() == 1
            &&& header[0].text == "  Age"@
            &&& header[1].text == "    Hash"@
            &&& header[2].text == "  RF"@
            &&& header[3].text == " Net"@
            &&& header[4].text == "  Size"@
            &&& header[5].text == "  RSSI"@
            &&& header[6].text == "  SNR"@
            &&& header[7].text == "  Act"@
            &&& header[i].style == (Style { fg: Some(Color::Gray), bg: None, bold: true })
        }),
{
    reveal_strlit("Age");
    reveal_strlit("Hash");
    reveal_strlit("RF");
    reveal_strlit("Net");
    reveal_strlit("Size");
    reveal_strlit("RSSI");
    reveal_strlit("SNR");
    reveal_strlit("Act");
    reveal_strlit("  Age");
    reveal_strlit("    Hash");
    reveal_strlit("  RF");
    reveal_strlit(" Net");
    reveal_strlit("  Size");
    reveal_strlit("  RSSI");
    reveal_strlit("  SNR");
    reveal_strlit("  Act");
    let header = log_header();
    assert(lines_view(lines@).len() == lines@.len());
    assert(lines_view(lines@)[0] == header);
    assert(header[0].text =~= "  Age"@);
    assert(header[1].text =~= "    Hash"@);
    assert(header[2].text =~= "  RF"@);
    assert(header[3].text =~= " Net"@);
    assert(header[4].text =~= "  Size"@);
    assert(header[5].text =~= "  RSSI"@);
    assert(header[6].text =~= "  SNR"@);
    assert(header[7].text =~= "  Act"@);
}

/// Law: a row shows the age of its packet in whole seconds, minutes or hours,
/// its size, and its readings in their colors, a dash where there is none.
pub proof fn law_row_shows_age_size_and_readings(
    e: LogEntryView,
    above: Option<Seq<u8>>,
    now: u64,
    secs: u64,
    age: String,
)
    requires
        call_ensures(format_short_duration, (secs,), age),
        e.timestamp <= now ==> secs * 1_000_000_000 <= now - e.timestamp < (secs + 1)
            * 1_000_000_000,
        e.timestamp > now ==> secs == 0,
    ensures
        ({
            let row = log_row(e, above, now);
            &&& row.len() == 8
            &&& at_right(row[0], age@, 5, Color::DarkGray)
            &&& at_right(row[4], text::decimal(e.size) + "B"@, 6, Color::White)
            &&& e.rssi is None ==> at_right(row[5], "-"@, 6, Color::DarkGray)
            &&& e.snr is None ==> at_right(row[6], "-"@, 5, Color::DarkGray)
            &&& e.rssi matches Some(r) ==> at_right(
                row[5],
                text::decimal_signed(r as int),
                6,
                if r >= -70 {
                    Color::Green
                } else if r >= -90 {
                    Color::Yellow
                } else {
                    Color::Red
                },
            )
            &&& e.snr matches Some(s) ==> at_right(
                row[6],
                text::decimal_signed(s as int),
                5,
                if s >= 5 {
                    Color::Green
                } else if s >= 0 {
                    Color::Yellow
                } else {
                    Color::Red
                },
            )
        }),
{
    assert(less(now, e.timestamp) / NANOS_PER_SEC == secs);
    lemma_at_right(age@, 5, C_LABEL);
    lemma_at_right(text::decimal(e.size) + "B"@, 6, C_VALUE);
    lemma_at_right("-"@, 6, C_LABEL);
    lemma_at_right("-"@, 5, C_LABEL);
    if let Some(r) = e.rssi {
        lemma_at_right(text::decimal_signed(r as int), 6, color_of_rssi(r as int));
    }
    if let Some(s) = e.snr {
        lemma_at_right(text::decimal_signed(s as int), 5, color_of_snr(s as int));
    }
}

/// Law: a row shows the first three bytes of the hash, or dots below a row
/// with the same hash. The side that the packet came from shows `RX`; the
/// other side shows `TX` if and only if the packet was bridged, and a dash
/// otherwise; each side and way has its color.
pub proof fn law_row_shows_where_the_packet_went(
    e: LogEntryView,
    above: Option<Seq<u8>>,
    now: u64,
)
    ensures
        ({
            let row = log_row(e, above, now);
            let bridged = e.action == PacketAction::Bridged;
            let by_radio = e.direction == PacketDirection::RadioIn;
            &&& above == Some(e.hash) ==> at_right(row[1], "··"@, 8, Color::DarkGray)
            &&& above != Some(e.hash) ==> at_right(
                row[1],
                text::hex_bytes(e.hash.take(3)),
                8,
                Color::DarkGray,
            )
            &&& by_radio ==> at_right(row[2], "RX"@, 4, Color::Green)
            &&& by_radio && bridged ==> at_right(row[3], "TX"@, 4, Color::Cyan)
            &&& by_radio && !bridged ==> at_right(row[3], "──"@, 4, Color::DarkGray)
            &&& !by_radio ==> at_right(row[3], "RX"@, 4, Color::Magenta)
            &&& !by_radio && bridged ==> at_right(row[2], "TX"@, 4, Color::Blue)
            &&& !by_radio && !bridged ==> at_right(row[2], "──"@, 4, Color::DarkGray)
        }),
{
    lemma_at_right("··"@, 8, C_BORDER);
    lemma_at_right(text::hex_bytes(e.hash.take(3)), 8, C_LABEL);
    lemma_at_right("RX"@, 4, C_RADIO_RX);
    lemma_at_right("RX"@, 4, C_NET_RX);
    lemma_at_right("TX"@, 4, C_RADIO_TX);
    lemma_at_right("TX"@, 4, C_NET_TX);
    lemma_at_right("──"@, 4, C_BORDER);
}

/// Law: the last column of a row. A retry is yellow and a success after
/// retries gray, each with how many attempts were used; a failure is a red
/// cross; any other row tells why the packet was dropped, if it was, in the
/// color of that drop's counter.
pub proof fn law_row_shows_what_became_of_the_packet(
    e: LogEntryView,
    above: Option<Seq<u8>>,
    now: u64,
    label: String,
)
    requires
        call_ensures(PacketAction::label, (e.action,), label),
    ensures
        ({
            let last = log_row(e, above, now)[7];
            let plain = match e.tx_retry {
                None => true,
                Some(r) => r.state is InFlight,
            };
            &&& plain ==> last.style == (Style {
                fg: Some(
                    match e.action {
                        PacketAction::Bridged => Color::DarkGray,
                        PacketAction::DroppedDedup => Color::DarkGray,
                        PacketAction::DroppedRateLimit => Color::Yellow,
                        PacketAction::DroppedQueueFull => Color::Red,
                    },
                ),
                bg: None,
                bold: false,
            })
            &&& plain && label@.len() <= 4 ==> {
                &&& last.text.len() == 5
                &&& last.text.skip(5 - label@.len()) == label@
                &&& forall|i: int| 0 <= i < 5 - label@.len() ==> #[trigger] last.text[i] == ' '
            }
            &&& e.tx_retry matches Some(r) ==> {
                let used = text::decimal(r.attempt as nat) + "/"@ + text::decimal(
                    r.total_attempts as nat,
                );
                &&& r.state is Retrying ==> at_right(last, "↻ "@ + used, 5, Color::Yellow)
                &&& r.state is Succeeded ==> at_right(last, "OK "@ + used, 5, Color::DarkGray)
                &&& r.state is Failed ==> at_right(last, "✗"@, 5, Color::Red)
            }
        }),
{
    reveal_strlit(" ");
    let last = log_row(e, above, now)[7];
    match e.tx_retry {
        Some(r) => {
            let used = text::decimal(r.attempt as nat) + "/"@ + text::decimal(
                r.total_attempts as nat,
            );
            lemma_at_right("↻ "@ + used, 5, C_RATE_DROP);
            lemma_at_right("OK "@ + used, 5, C_LABEL);
            lemma_at_right("✗"@, 5, C_QUEUE_DROP);
        },
        None => {},
    }
    let padded = text::padded_left(label@, 4);
    if label@.len() <= 4 && last.text == " "@ + padded {
        assert(last.text.skip(5 - label@.len()) =~= label@);
    }
}

/// The numbers of a row fit their columns: an age below 10,000 hours, a size
/// below 100,000 bytes, an SNR of at most four digits, and no more than nine
/// attempts.
pub open spec fn row_fits(e: LogEntryView, now: u64) -> bool {
    &&& e.hash.len() == 32
    &&& less(now, e.timestamp) / NANOS_PER_SEC < 36_000_000
    &&& e.size < 100_000
    &&& e.snr matches Some(s) ==> -9999 <= s <= 9999
    &&& e.tx_retry matches Some(r) ==> r.attempt <= 9 && r.total_attempts <= 9
}

/// A row of a success after retries, whose counter takes a column more.
pub open spec fn retried_success(e: LogEntryView) -> bool {
    e.tx_retry matches Some(r) && r.state == TxRetryState::Succeeded
}

/// Law: the columns of a row are as wide as those of the header, except that
/// the last column of a success after retries is one wider.
pub proof fn law_columns_line_up(e: LogEntryView, above: Option<Seq<u8>>, now: u64, i: int)
    requires
        0 <= i < 8,
        row_fits(e, now),
    ensures
        i < 7 || !retried_success(e) ==> log_row(e, above, now)[i].text.len()
            == log_header()[i].text.len(),
        retried_success(e) ==> log_row(e, above, now)[7].text.len() == log_header()[7].text.len()
            + 1,
{
    reveal_strlit("Age");
    reveal_strlit("Hash");
    reveal_strlit("RF");
    reveal_strlit("Net");
    reveal_strlit("Size");
    reveal_strlit("RSSI");
    reveal_strlit("SNR");
    reveal_strlit("Act");
    reveal_strlit("··");
    reveal_strlit("──");
    reveal_strlit("RX");
    reveal_strlit("TX");
    reveal_strlit("-");
    reveal_strlit("B");
    reveal_strlit("s");
    reveal_strlit("m");
    reveal_strlit("h");
    reveal_strlit(" ");
    reveal_strlit("");
    reveal_strlit("/");
    reveal_strlit("DUP");
    reveal_strlit("FULL");
    reveal_strlit("RATE");
    reveal_strlit("↻ ");
    reveal_strlit("OK ");
    reveal_strlit("✗");
    let secs = (less(now, e.timestamp) / NANOS_PER_SEC) as nat;
    lemma_decimal_len(secs, 2);
    lemma_decimal_len(secs / 60, 2);
    lemma_decimal_len(secs / 3600, 4);
    lemma_decimal_len(e.size, 5);
    match e.rssi {
        Some(r) => {
            lemma_decimal_len(
                if r < 0 {
                    (-r) as nat
                } else {
                    r as nat
                },
                5,
            );
        },
        None => {},
    }
    match e.snr {
        Some(s) => {
            lemma_decimal_len(
                if s < 0 {
                    (-s) as nat
                } else {
                    s as nat
                },
                4,
            );
        },
        None => {},
    }
    match e.tx_retry {
        Some(r) => {
            lemma_decimal_len(r.attempt as nat, 1);
            lemma_decimal_len(r.total_attempts as nat, 1);
        },
        None => {},
    }
}

/// The columns that a line takes.
pub open spec fn line_width(line: Seq<SpanView>) -> nat
    decreases line.len(),
{
    if line.len() == 0 {
        0
    } else {
        line_width(line.drop_last()) + line.last().text.len()
    }
}

/// Law: the three columns fit the smallest terminal, and a row of the packet
/// log fits between the borders of its column.
pub proof fn law_log_row_fits_its_column(e: LogEntryView, above: Option<Seq<u8>>, now: u64)
    requires
        row_fits(e, now),
    ensures
        LEFT_WIDTH + LOG_WIDTH + ACTIVITY_MIN_WIDTH == MIN_WIDTH,
        line_width(log_row(e, above, now)) <= LOG_WIDTH - 2,
{
    let row = log_row(e, above, now);
    assert forall|i: int| 0 <= i < 7 implies #[trigger] row[i].text.len()
        == log_header()[i].text.len() by {
        law_columns_line_up(e, above, now, i);
    }
    law_columns_line_up(e, above, now, 7);
    reveal_strlit("Age");
    reveal_strlit("Hash");
    reveal_strlit("RF");
    reveal_strlit("Net");
    reveal_strlit("Size");
    reveal_strlit("RSSI");
    reveal_strlit("SNR");
    reveal_strlit("Act");
    assert(row[0].text.len() == 5);
    assert(row[1].text.len() == 8);
    assert(row[2].text.len() == 4);
    assert(row[3].text.len() == 4);
    assert(row[4].text.len() == 6);
    assert(row[5].text.len() == 6);
    assert(row[6].text.len() == 5);
    assert(row[7].text.len() <= 6);
    reveal_with_fuel(line_width, 9);
}

spec fn ten_to(n: nat) -> nat
    decreases n,
{
    if n == 0 {
        1
    } else {
        10 * ten_to((n - 1) as nat)
    }
}

proof fn lemma_decimal_len(n: nat, digits: nat)
    requires
        digits >= 1,
    ensures
        text::decimal(n).len() >= 1,
        n < ten_to(digits) ==> text::decimal(n).len() <= digits,
        ten_to(1) == 10,
        ten_to(2) == 100,
        ten_to(4) == 10_000,
        ten_to(5) == 100_000,
    decreases digits,
{
    reveal_with_fuel(ten_to, 6);
    if n >= 10 && digits >= 2 {
        lemma_decimal_len(n / 10, (digits - 1) as nat);
    }
}

// ── Activity panel ──────────────────────────────────────────────────

/// A sparkline under its label.
#[derive(Debug)]
pub struct SparkSection {
    pub label: Line,
    pub data: Vec<u64>,
    pub color: Color,
}

/// The sparklines of the activity panel.
#[derive(Debug)]
pub struct ActivityPanel {
    pub rx: SparkSection,
    pub tx: SparkSection,
    pub snr: SparkSection,
}

/// The label of a sparkline.
pub open spec fn spark_label(label: Seq<char>, detail: Seq<char>, color: Color) -> Seq<SpanView> {
    seq![bold(" "@ + label + " "@, color), colored(detail, C_LABEL)]
}

/// What stands beside the SNR label.
pub open spec fn snr_detail(mean: Option<int>) -> Seq<char> {
    match mean {
        Some(s) => text::decimal_signed(s) + "dB"@,
        None => "-"@,
    }
}

fn spark_section(label: &str, detail: &str, data: Vec<u64>, color: Color) -> (s: SparkSection)
    ensures
        s.label@ == spark_label(label@, detail@, color),
        s.data@ == data@,
        s.color == color,
{
    let mut text: String = " ".to_owned();
    text.append(label);
    text.append(" ");
    let line: Line = Line::new().with(bold_span(text, color)).with(
        colored_span(detail.to_owned(), C_LABEL),
    );
    SparkSection { label: line, data, color }
}

fn peak_text(peak: u64) -> (out: String)
    ensures
        out@ == "pk:"@ + text::decimal(peak as nat),
{
    let mut s: String = "pk:".to_owned();
    text::push_decimal(&mut s, peak);
    s
}

/// The activity panel, if there is room for it within its borders.
pub fn activity_panel(series: &TimeSeries, width: u16, height: u16) -> (r: Option<ActivityPanel>)
    requires
        forall|i: int|
            0 <= i < series@.buckets.len() ==> (#[trigger] series@.buckets[i]).level_fits(),
    ensures
        ({
            let buckets = series@.buckets;
            let rx = buckets.map_values(|b: activity::Bucket| b.radio_rx);
            let tx = buckets.map_values(|b: activity::Bucket| b.radio_tx);
            let snr = buckets.map_values(|b: activity::Bucket| b.snr_level());
            match r {
                Some(p) => {
                    &&& width >= 6 && height >= 6
                    &&& p.rx.label@ == spark_label(
                        "RX"@,
                        "pk:"@ + text::decimal(activity::max_of(rx) as nat),
                        C_RADIO_RX,
                    )
                    &&& p.tx.label@ == spark_label(
                        "TX"@,
                        "pk:"@ + text::decimal(activity::max_of(tx) as nat),
                        C_RADIO_TX,
                    )
                    &&& p.snr.label@ == spark_label(
                        "SNR"@,
                        snr_detail(activity::last_mean_snr(buckets)),
                        C_SNR,
                    )
                    &&& p.rx.data@ == activity::right_aligned(rx, width as nat)
                    &&& p.tx.data@ == activity::right_aligned(tx, width as nat)
                    &&& p.snr.data@ == activity::right_aligned(snr, width as nat)
                    &&& p.rx.color == C_RADIO_RX
                    &&& p.tx.color == C_RADIO_TX
                    &&& p.snr.color == C_SNR
                },
                None => width < 6 || height < 6,
            }
        }),
{
    if width < 6 || height < 6 {
        return None;
    }
    let columns: usize = width as usize;
    let rx: Vec<u64> = series.radio_rx();
    let tx: Vec<u64> = series.radio_tx();
    let levels: Vec<u64> = series.avg_snr();
    let rx_peak: String = peak_text(series.peak_rx());
    let tx_peak: String = peak_text(series.peak_tx());
    proof {
        assert forall|i: int| 0 <= i < series@.buckets.len() implies (
        #[trigger] series@.buckets[i]).mean_fits() by {
            assert(series@.buckets[i].level_fits());
        }
    }
    let mean: String = match series.latest_avg_snr() {
        Some(s) => {
            let mut text: String = text::signed_text(s);
            text.append("dB");
            text
        },
        None => "-".to_owned(),
    };
    Some(
        ActivityPanel {
            rx: spark_section(
                "RX",
                rx_peak.as_str(),
                pad_right_align(rx.as_slice(), columns),
                C_RADIO_RX,
            ),
            tx: spark_section(
                "TX",
                tx_peak.as_str(),
                pad_right_align(tx.as_slice(), columns),
                C_RADIO_TX,
            ),
            snr: spark_section(
                "SNR",
                mean.as_str(),
                pad_right_align(levels.as_slice(), columns),
                C_SNR,
            ),
        },
    )
}

/// Law: the activity panel shows up if and only if there is room of six by
/// six. From the right it draws the latest counts received and transmitted and
/// the latest average SNR, thirty decibels up, with zeros beyond the first;
/// beside the labels stand the peaks and the latest average.
pub proof fn law_activity_panel(
    series: TimeSeries,
    width: u16,
    height: u16,
    r: Option<ActivityPanel>,
    rx: u64,
    tx: u64,
    mean: Option<i64>,
    snr: Vec<u64>,
    k: int,
)
    requires
        call_ensures(activity_panel, (&series, width, height), r),
        call_ensures(TimeSeries::peak_rx, (&series,), rx),
        call_ensures(TimeSeries::peak_tx, (&series,), tx),
        call_ensures(TimeSeries::latest_avg_snr, (&series,), mean),
        call_ensures(TimeSeries::avg_snr, (&series,), snr),
        1 <= k <= width,
    ensures
        r is None <==> width < 6 || height < 6,
        r matches Some(p) ==> {
            let n = series.buckets@.len();
            &&& p.rx.data@.len() == width && p.tx.data@.len() == width && p.snr.data@.len() == width
            &&& k <= n ==> {
                &&& p.rx.data@[width - k] == series.buckets@[n - k].radio_rx
                &&& p.tx.data@[width - k] == series.buckets@[n - k].radio_tx
                &&& p.snr.data@[width - k] == snr@[n - k]
            }
            &&& k > n ==> {
                &&& p.rx.data@[width - k] == 0
                &&& p.tx.data@[width - k] == 0
                &&& p.snr.data@[width - k] == 0
            }
            &&& p.rx.color == Color::Green
            &&& p.tx.color == Color::Blue
            &&& p.snr.color == Color::Yellow
            &&& labelled(p.rx.label@, "RX"@, "pk:"@ + text::decimal(rx as nat), Color::Green)
            &&& labelled(p.tx.label@, "TX"@, "pk:"@ + text::decimal(tx as nat), Color::Blue)
            &&& labelled(
                p.snr.label@,
                "SNR"@,
                match mean {
                    Some(s) => text::decimal_signed(s as int) + "dB"@,
                    None => "-"@,
                },
                Color::Yellow,
            )
        },
{
}

/// A label in bold between blanks, and a detail in gray.
pub open spec fn labelled(
    line: Seq<SpanView>,
    label: Seq<char>,
    detail: Seq<char>,
    color: Color,
) -> bool {
    &&& line.len() == 2
    &&& line[0].text == " "@ + label + " "@
    &&& line[0].style == (Style { fg: Some(color), bg: None, bold: true })
    &&& plainly(line[1], detail, Color::DarkGray)
}

/// Whether a section has room for its label and its sparkline.
pub fn section_fits(width: u16, height: u16) -> (r: bool)
    ensures
        r == (width >= 4 && height >= 2),
{
    width >= 4 && height >= 2
}

// ── Shutdown overlay ────────────────────────────────────────────────

/// A rectangle on the terminal.
#[derive(Debug, Clone, Copy, PartialEq, Eq, Structural)]
pub struct Area {
    pub x: u16,
    pub y: u16,
    pub width: u16,
    pub height: u16,
}

impl Area {
    /// The area ends on the terminal.
    pub open spec fn wf(self) -> bool {
        self.x + self.width <= u16::MAX && self.y + self.height <= u16::MAX
    }
}

/// A popup of the given size, or as much of it as fits, in the middle of an area.
pub open spec fn centered(area: Area, width: u16, height: u16) -> Area {
    Area {
        x: if area.width > width {
            (area.x + (area.width - width) / 2) as u16
        } else {
            area.x
        },
        y: if area.height > height {
            (area.y + (area.height - height) / 2) as u16
        } else {
            area.y
        },
        width: if area.width < width {
            area.width
        } else {
            width
        },
        height: if area.height < height {
            area.height
        } else {
            height
        },
    }
}

/// Where the shutdown popup goes.
pub fn shutdown_popup(area: Area) -> (p: Area)
    requires
        area.wf(),
    ensures
        p == centered(area, 36, 3),
{
    let w: u16 = 36;
    let h: u16 = 3;
    Area {
        x: area.x + area.width.saturating_sub(w) / 2,
        y: area.y + area.height.saturating_sub(h) / 2,
        width: if area.width < w {
            area.width
        } else {
            w
        },
        height: if area.height < h {
            area.height
        } else {
            h
        },
    }
}

/// Law: a popup stays within its area, in the middle of it to within a cell.
pub proof fn law_popup_is_centered(area: Area, width: u16, height: u16)
    requires
        area.wf(),
    ensures
        ({
            let p = centered(area, width, height);
            let left = p.x - area.x;
            let right = area.x + area.width - (p.x + p.width);
            let above = p.y - area.y;
            let below = area.y + area.height - (p.y + p.height);
            &&& 0 <= left <= right <= left + 1
            &&& 0 <= above <= below <= above + 1
        }),
{
}

/// Law: the shutdown popup is 36 by 3, or as large as its area, in the middle
/// of it to within a cell; a section has room from 4 by 2 on.
pub proof fn law_shutdown_popup(area: Area, p: Area, width: u16, height: u16, fits: bool)
    requires
        area.wf(),
        call_ensures(shutdown_popup, (area,), p),
        call_ensures(section_fits, (width, height), fits),
    ensures
        p.width <= 36 && p.width <= area.width && (p.width == 36 || p.width == area.width),
        p.height <= 3 && p.height <= area.height && (p.height == 3 || p.height == area.height),
        0 <= p.x - area.x <= (area.x + area.width) - (p.x + p.width) <= p.x - area.x + 1,
        0 <= p.y - area.y <= (area.y + area.height) - (p.y + p.height) <= p.y - area.y + 1,
        fits <==> !(width < 4 || height < 2),
{
    law_popup_is_centered(area, 36, 3);
}

/// Law: the shutdown popup says in yellow that the program shuts down, and in
/// gray what it waits for.
pub proof fn law_shutdown_message(l: Line)
    requires
        call_ensures(shutdown_line, (), l),
    ensures
        l@.len() == 2,
        plainly(l@[0], " Shutting down"@, Color::Yellow),
        plainly(l@[1], " — updating DHT..."@, Color::DarkGray),
{
}

/// The message of the shutdown popup.
pub fn shutdown_line() -> (l: Line)
    ensures
        l@ == seq![
            colored(" Shutting down"@, C_RATE_DROP),
            colored(" — updating DHT..."@, C_LABEL),
        ],
{
    Line::new().with(colored_span(" Shutting down".to_owned(), C_RATE_DROP)).with(
        colored_span(" — updating DHT...".to_owned(), C_LABEL),
    )
}

} // verus!
