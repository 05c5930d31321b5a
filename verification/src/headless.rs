//! Headless mode: the packet log as lines of text.

use vstd::prelude::*;
use vstd::string::*;

use crate::gossip::GossipEventView;
use crate::radio::{RadioEventView, TxRetryReason};
use crate::router::{
    LogEntryView, PacketAction, PacketDirection, PacketLogEntry, RouterView, TxRetryInfo,
    TxRetryState,
};
use crate::text;

verus! {

/// How loud a line is.
#[derive(Debug, Clone, Copy, PartialEq, Eq, Structural)]
pub enum LogLevel {
    Info,
    Warn,
}

/// One line of the headless packet log.
#[derive(Debug)]
pub struct LogLine {
    pub level: LogLevel,
    pub text: String,
}

/// What a [`LogLine`] says.
#[verifier::ext_equal]
pub struct LogLineView {
    pub level: LogLevel,
    pub text: Seq<char>,
}

impl View for LogLine {
    type V = LogLineView;

    open spec fn view(&self) -> LogLineView {
        LogLineView { level: self.level, text: self.text@ }
    }
}

impl PacketDirection {
    /// The direction as an arrow.
    pub open spec fn arrow(self) -> Seq<char> {
        match self {
            PacketDirection::RadioIn => "RF→NET"@,
            PacketDirection::GossipIn => "NET→RF"@,
        }
    }
}

/// A reading, or a dash.
pub open spec fn reading(v: Option<i16>) -> Seq<char> {
    match v {
        Some(n) => text::decimal_signed(n as int),
        None => "-"@,
    }
}

/// The start of a line: direction, verb, and the first four bytes of the hash.
pub open spec fn line_head(e: LogEntryView, verb: Seq<char>) -> Seq<char> {
    e.direction.arrow() + verb + text::hex_bytes(e.hash.take(4))
}

/// The size field of a line.
pub open spec fn size_field(e: LogEntryView) -> Seq<char> {
    " size="@ + text::decimal(e.size) + "B"@
}

/// An attempt counter such as `2/3`.
pub open spec fn counter(attempt: u8, total: u8) -> Seq<char> {
    text::decimal(attempt as nat) + "/"@ + text::decimal(total as nat)
}

/// The signal fields of a line.
pub open spec fn signal_fields(e: LogEntryView) -> Seq<char> {
    " rssi="@ + reading(e.rssi) + " snr="@ + reading(e.snr)
}

/// The line of a log entry, if it has one. The retry lifecycle of a
/// transmission wins over the plain action label.
pub open spec fn line_of(e: LogEntryView) -> Option<LogLineView> {
    match e.tx_retry {
        Some(r) => match r.state {
            TxRetryState::Retrying(reason) => Some(
                LogLineView {
                    level: LogLevel::Info,
                    text: line_head(e, " retry  hash="@) + " attempt="@ + counter(
                        r.attempt,
                        r.total_attempts,
                    ) + " reason="@ + reason.text(),
                },
            ),
            TxRetryState::Succeeded => if r.attempt > 1 {
                Some(
                    LogLineView {
                        level: LogLevel::Info,
                        text: line_head(e, " sent   hash="@) + size_field(e) + " attempts="@
                            + counter(r.attempt, r.total_attempts),
                    },
                )
            } else {
                None
            },
            TxRetryState::Failed => Some(
                LogLineView {
                    level: LogLevel::Warn,
                    text: line_head(e, " FAILED hash="@) + size_field(e) + " attempts="@ + counter(
                        r.attempt,
                        r.total_attempts,
                    ),
                },
            ),
            TxRetryState::InFlight => None,
        },
        None => Some(
            match e.action {
                PacketAction::Bridged => LogLineView {
                    level: LogLevel::Info,
                    text: line_head(e, " bridged hash="@) + size_field(e) + signal_fields(e),
                },
                PacketAction::DroppedDedup => LogLineView {
                    level: LogLevel::Info,
                    text: line_head(e, " dedup   hash="@) + size_field(e) + signal_fields(e),
                },
                PacketAction::DroppedRateLimit => LogLineView {
                    level: LogLevel::Warn,
                    text: line_head(e, " ratelim hash="@) + size_field(e),
                },
                PacketAction::DroppedQueueFull => LogLineView {
                    level: LogLevel::Warn,
                    text: line_head(e, " QFULL   hash="@) + size_field(e),
                },
            },
        ),
    }
}

fn push_reading(s: &mut String, v: Option<i16>)
    ensures
        final(s)@ == old(s)@ + reading(v),
{
    match v {
        Some(n) => {
            text::push_signed(s, n as i64);
        },
        None => {
            s.append("-");
        },
    }
}

/// Append an attempt counter.
pub fn push_counter(s: &mut String, attempt: u8, total: u8)
    ensures
        final(s)@ == old(s)@ + counter(attempt, total),
{
    text::push_decimal(s, attempt as u64);
    s.append("/");
    text::push_decimal(s, total as u64);
    assert(s@ =~= old(s)@ + counter(attempt, total));
}

fn start_line(e: &PacketLogEntry, verb: &str) -> (s: String)
    ensures
        s@ == line_head(e@, verb@),
{
    let mut s: String = match e.direction {
        PacketDirection::RadioIn => "RF→NET".to_owned(),
        PacketDirection::GossipIn => "NET→RF".to_owned(),
    };
    s.append(verb);
    let hash: &[u8] = e.hash.as_slice();
    let short: &[u8] = &hash[0..4];
    assert(short@ =~= e.hash@.take(4));
    let hex: String = text::hex_encode(short);
    s.append(hex.as_str());
    s
}

fn push_size(s: &mut String, e: &PacketLogEntry)
    ensures
        final(s)@ == old(s)@ + size_field(e@),
{
    s.append(" size=");
    text::push_decimal(s, e.size as u64);
    s.append("B");
    assert(s@ =~= old(s)@ + size_field(e@));
}

fn push_signal(s: &mut String, e: &PacketLogEntry)
    ensures
        final(s)@ == old(s)@ + signal_fields(e@),
{
    s.append(" rssi=");
    push_reading(s, e.rssi);
    s.append(" snr=");
    push_reading(s, e.snr);
    assert(s@ =~= old(s)@ + signal_fields(e@));
}

/// The line that headless mode prints for a log entry, if any.
pub fn headless_line(e: &PacketLogEntry) -> (r: Option<LogLine>)
    ensures
        match r {
            Some(line) => line_of(e@) == Some(line@),
            None => line_of(e@) is None,
        },
{
    match e.tx_retry {
        Some(r) => match r.state {
            TxRetryState::Retrying(reason) => {
                let mut s: String = start_line(e, " retry  hash=");
                s.append(" attempt=");
                push_counter(&mut s, r.attempt, r.total_attempts);
                s.append(" reason=");
                let why: String = reason.label();
                s.append(why.as_str());
                Some(LogLine { level: LogLevel::Info, text: s })
            },
            TxRetryState::Succeeded => {
                if r.attempt > 1 {
                    let mut s: String = start_line(e, " sent   hash=");
                    push_size(&mut s, e);
                    s.append(" attempts=");
                    push_counter(&mut s, r.attempt, r.total_attempts);
                    Some(LogLine { level: LogLevel::Info, text: s })
                } else {
                    None
                }
            },
            TxRetryState::Failed => {
                let mut s: String = start_line(e, " FAILED hash=");
                push_size(&mut s, e);
                s.append(" attempts=");
                push_counter(&mut s, r.attempt, r.total_attempts);
                Some(LogLine { level: LogLevel::Warn, text: s })
            },
            TxRetryState::InFlight => None,
        },
        None => match e.action {
            PacketAction::Bridged => {
                let mut s: String = start_line(e, " bridged hash=");
                push_size(&mut s, e);
                push_signal(&mut s, e);
                Some(LogLine { level: LogLevel::Info, text: s })
            },
            PacketAction::DroppedDedup => {
                let mut s: String = start_line(e, " dedup   hash=");
                push_size(&mut s, e);
                push_signal(&mut s, e);
                Some(LogLine { level: LogLevel::Info, text: s })
            },
            PacketAction::DroppedRateLimit => {
                let mut s: String = start_line(e, " ratelim hash=");
                push_size(&mut s, e);
                Some(LogLine { level: LogLevel::Warn, text: s })
            },
            PacketAction::DroppedQueueFull => {
                let mut s: String = start_line(e, " QFULL   hash=");
                push_size(&mut s, e);
                Some(LogLine { level: LogLevel::Warn, text: s })
            },
        },
    }
}

/// Law: an attempt counter is the attempt, a slash, and how many there are.
pub proof fn law_counter(
    s: &mut String,
    attempt: u8,
    total: u8,
    first: String,
    second: String,
)
    requires
        call_ensures(push_counter, (s, attempt, total), ()),
        call_ensures(text::decimal_text, (attempt as u64,), first),
        call_ensures(text::decimal_text, (total as u64,), second),
    ensures
        final(s)@ == old(s)@ + (first@ + "/"@ + second@),
{
}

/// Law: a line warns if and only if a packet was lost to the rate limit or a
/// full queue, or its transmission failed for good. A row has no line if and
/// only if it tells of a transmission that is under way or went well at once.
pub proof fn law_loud_and_silent_rows(e: PacketLogEntry, r: Option<LogLine>)
    requires
        call_ensures(headless_line, (&e,), r),
    ensures
        r is None <==> {
            &&& e.tx_retry matches Some(t)
            &&& t.state == TxRetryState::InFlight || (t.state == TxRetryState::Succeeded
                && t.attempt <= 1)
        },
        r matches Some(line) ==> {
            line.level == LogLevel::Warn <==> match e.tx_retry {
                Some(t) => t.state == TxRetryState::Failed,
                None => e.action == PacketAction::DroppedRateLimit || e.action
                    == PacketAction::DroppedQueueFull,
            }
        },
{
}

/// Law: a line starts with the way the packet went and what became of it, and
/// then names the packet by the first four bytes of its hash, two digits each.
pub proof fn law_line_names_the_packet(e: PacketLogEntry, line: LogLine, i: int)
    requires
        call_ensures(headless_line, (&e,), Some(line)),
        0 <= i < 4,
    ensures
        e.direction == PacketDirection::RadioIn ==> line.text@.take(6) == "RF→NET"@,
        e.direction == PacketDirection::GossipIn ==> line.text@.take(6) == "NET→RF"@,
        e.tx_retry is None ==> {
            &&& line.text@.len() >= 28
            &&& e.hash@[i] == 16 * text::hex_value(line.text@[20 + 2 * i]) + text::hex_value(
                line.text@[21 + 2 * i],
            )
            &&& line.text@.subrange(6, 20) == match e.action {
                PacketAction::Bridged => " bridged hash="@,
                PacketAction::DroppedDedup => " dedup   hash="@,
                PacketAction::DroppedRateLimit => " ratelim hash="@,
                PacketAction::DroppedQueueFull => " QFULL   hash="@,
            }
        },
        e.tx_retry matches Some(t) ==> {
            &&& line.text@.len() >= 27
            &&& e.hash@[i] == 16 * text::hex_value(line.text@[19 + 2 * i]) + text::hex_value(
                line.text@[20 + 2 * i],
            )
            &&& t.state is Retrying ==> line.text@.subrange(6, 19) == " retry  hash="@
            &&& t.state is Succeeded ==> line.text@.subrange(6, 19) == " sent   hash="@
            &&& t.state is Failed ==> line.text@.subrange(6, 19) == " FAILED hash="@
        },
{
    reveal_line_heads();
    let t = line.text@;
    let short = e.hash@.take(4);
    text::law_hex_byte_is_its_value(short, i);
    assert(short[i] == e.hash@[i]);
    let hex = text::hex_bytes(short);
    let arrow = e.direction.arrow();
    assert(arrow.len() == 6);
    assert(t.take(6) =~= arrow);
    match e.tx_retry {
        None => {
            let verb = match e.action {
                PacketAction::Bridged => " bridged hash="@,
                PacketAction::DroppedDedup => " dedup   hash="@,
                PacketAction::DroppedRateLimit => " ratelim hash="@,
                PacketAction::DroppedQueueFull => " QFULL   hash="@,
            };
            assert(t.subrange(6, 20) =~= verb);
            assert(t.subrange(20, 28) =~= hex);
            assert(t[20 + 2 * i] == t.subrange(20, 28)[2 * i]);
            assert(t[21 + 2 * i] == t.subrange(20, 28)[2 * i + 1]);
        },
        Some(r) => {
            let verb = match r.state {
                TxRetryState::Retrying(_) => " retry  hash="@,
                TxRetryState::Succeeded => " sent   hash="@,
                TxRetryState::Failed => " FAILED hash="@,
                TxRetryState::InFlight => ""@,
            };
            assert(t.subrange(6, 19) =~= verb);
            assert(t.subrange(19, 27) =~= hex);
            assert(t[19 + 2 * i] == t.subrange(19, 27)[2 * i]);
            assert(t[20 + 2 * i] == t.subrange(19, 27)[2 * i + 1]);
        },
    }
}

proof fn reveal_line_heads()
    ensures
        "RF→NET"@.len() == 6,
        "NET→RF"@.len() == 6,
        " bridged hash="@.len() == 14,
        " dedup   hash="@.len() == 14,
        " ratelim hash="@.len() == 14,
        " QFULL   hash="@.len() == 14,
        " retry  hash="@.len() == 13,
        " sent   hash="@.len() == 13,
        " FAILED hash="@.len() == 13,
{
    reveal_strlit("RF→NET");
    reveal_strlit("NET→RF");
    reveal_strlit(" bridged hash=");
    reveal_strlit(" dedup   hash=");
    reveal_strlit(" ratelim hash=");
    reveal_strlit(" QFULL   hash=");
    reveal_strlit(" retry  hash=");
    reveal_strlit(" sent   hash=");
    reveal_strlit(" FAILED hash=");
}

/// Law: behind the name, the line of a packet ends with its size, and, unless
/// it was lost to the rate limit or a full queue, with its RSSI and its SNR,
/// each a dash where there is none.
pub proof fn law_line_ends_with_the_readings(
    e: PacketLogEntry,
    line: LogLine,
    size: String,
    rssi: String,
    snr: String,
)
    requires
        call_ensures(headless_line, (&e,), Some(line)),
        e.tx_retry is None,
        call_ensures(text::decimal_text, (e.size as u64,), size),
        match e.rssi {
            Some(n) => call_ensures(text::signed_text, (n as i64,), rssi),
            None => rssi@ == "-"@,
        },
        match e.snr {
            Some(n) => call_ensures(text::signed_text, (n as i64,), snr),
            None => snr@ == "-"@,
        },
    ensures
        e.action == PacketAction::Bridged || e.action == PacketAction::DroppedDedup
            ==> line.text@.skip(28) == " size="@ + size@ + "B"@ + " rssi="@ + rssi@ + " snr="@
            + snr@,
        e.action == PacketAction::DroppedRateLimit || e.action == PacketAction::DroppedQueueFull
            ==> line.text@.skip(28) == " size="@ + size@ + "B"@,
{
    reveal_line_heads();
    let head = line_head(
        e@,
        match e.action {
            PacketAction::Bridged => " bridged hash="@,
            PacketAction::DroppedDedup => " dedup   hash="@,
            PacketAction::DroppedRateLimit => " ratelim hash="@,
            PacketAction::DroppedQueueFull => " QFULL   hash="@,
        },
    );
    assert(head.len() == 28);
    if e.action == PacketAction::Bridged || e.action == PacketAction::DroppedDedup {
        assert(line.text@.skip(28) =~= " size="@ + size@ + "B"@ + " rssi="@ + rssi@ + " snr="@
            + snr@);
    } else {
        assert(line.text@.skip(28) =~= " size="@ + size@ + "B"@);
    }
}

/// Law: behind the name, the line of a transmission ends with how many of its
/// attempts were used: after the size where it is over, and before the reason
/// where it goes on.
pub proof fn law_line_ends_with_the_attempts(
    e: PacketLogEntry,
    t: TxRetryInfo,
    line: LogLine,
    size: String,
    used: String,
    total: String,
)
    requires
        call_ensures(headless_line, (&e,), Some(line)),
        e.tx_retry == Some(t),
        call_ensures(text::decimal_text, (e.size as u64,), size),
        call_ensures(text::decimal_text, (t.attempt as u64,), used),
        call_ensures(text::decimal_text, (t.total_attempts as u64,), total),
    ensures
        t.state is Retrying ==> line.text@.skip(27) == " attempt="@ + used@ + "/"@ + total@
            + " reason="@ + match t.state->Retrying_0 {
            TxRetryReason::ChannelBusy => "channel_busy"@,
            TxRetryReason::QueueFull => "queue_full"@,
            TxRetryReason::Other => "other"@,
        },
        t.state is Succeeded || t.state is Failed ==> line.text@.skip(27) == " size="@ + size@
            + "B"@ + " attempts="@ + used@ + "/"@ + total@,
{
    reveal_line_heads();
    let head = line_head(
        e@,
        match t.state {
            TxRetryState::Retrying(_) => " retry  hash="@,
            TxRetryState::Succeeded => " sent   hash="@,
            TxRetryState::Failed => " FAILED hash="@,
            TxRetryState::InFlight => ""@,
        },
    );
    match t.state {
        TxRetryState::Retrying(reason) => {
            assert(head.len() == 27);
            let why = match reason {
                TxRetryReason::ChannelBusy => "channel_busy"@,
                TxRetryReason::QueueFull => "queue_full"@,
                TxRetryReason::Other => "other"@,
            };
            assert(line.text@.skip(27) =~= " attempt="@ + used@ + "/"@ + total@ + " reason="@
                + why);
        },
        TxRetryState::InFlight => {},
        _ => {
            assert(head.len() == 27);
            assert(line.text@.skip(27) =~= " size="@ + size@ + "B"@ + " attempts="@ + used@
                + "/"@ + total@);
        },
    }
}

/// Law: headless mode shows every packet that is bridged, dropped or retried:
/// no row that the router logs is without a line.
pub proof fn law_every_row_has_a_line(
    v: RouterView,
    radio: RadioEventView,
    gossip: GossipEventView,
    now: u64,
)
    ensures
        v.radio_output(radio, now).log matches Some(row) ==> line_of(row) is Some,
        v.gossip_output(gossip, now).log matches Some(row) ==> line_of(row) is Some,
{
}

} // verus!
