use std::collections::VecDeque;

use donglora_bridge::activity::{Bucket, TimeSeries};
use donglora_bridge::lora::{LoRaBandwidth, LoRaCodingRate, LoRaConfig, LoRaHeaderMode};
use donglora_bridge::radio::{ConfigSource, TxRetryReason};
use donglora_bridge::router::{
    PacketAction, PacketDirection, PacketLogEntry, RadioConfigInfo, Stats, TxRetryInfo,
    TxRetryState,
};
use donglora_bridge::tui::{
    activity_panel, clock_line, format_duration, format_short_duration, header_line, is_quit,
    kv_line, log_lines, network_lines, poll_timeout, push_log_entry, radio_panel, rssi_color,
    section_fits, shutdown_line, shutdown_popup, size_warning, snr_color, stats_lines, Area, Color,
    DhtStatus, Line, SwarmState, C_ACCENT, C_BORDER, C_LABEL, C_NET_RX, C_NET_TX, C_QUEUE_DROP,
    C_RADIO_RX, C_RADIO_TX, C_RATE_DROP, C_VALUE,
};

const SEC: u64 = 1_000_000_000;

fn texts(line: &Line) -> Vec<&str> {
    line.spans.iter().map(|s| s.text.as_str()).collect()
}

fn whole(line: &Line) -> String {
    texts(line).concat()
}

fn color(line: &Line, i: usize) -> Option<Color> {
    line.spans[i].style.fg
}

fn config() -> LoRaConfig {
    LoRaConfig {
        freq_hz: 910_525_000,
        bw: LoRaBandwidth::Khz62,
        sf: 7,
        cr: LoRaCodingRate::Cr4_5,
        sync_word: 0x1424,
        tx_power_dbm: 20,
        preamble_len: 0,
        header_mode: LoRaHeaderMode::Explicit,
        payload_crc: true,
        iq_invert: false,
    }
}

fn info(connected: bool, source: ConfigSource) -> RadioConfigInfo {
    RadioConfigInfo {
        active: config(),
        requested: config(),
        source,
        device: "dongle".to_string(),
        connected,
    }
}

fn entry(hash: u8, action: PacketAction) -> PacketLogEntry {
    PacketLogEntry {
        timestamp: 100 * SEC,
        hash: [hash; 32],
        direction: PacketDirection::RadioIn,
        size: 42,
        snr: Some(5),
        rssi: Some(-71),
        action,
        tx_retry: None,
    }
}

#[test]
fn format_duration_seconds() {
    assert_eq!(format_duration(45), "45s");
}

#[test]
fn format_duration_minutes() {
    assert_eq!(format_duration(125), "2m5s");
}

#[test]
fn format_duration_hours() {
    assert_eq!(format_duration(7500), "2h5m");
}

#[test]
fn format_duration_zero() {
    assert_eq!(format_duration(0), "0s");
}

#[test]
fn format_duration_boundary_59s() {
    assert_eq!(format_duration(59), "59s");
}

#[test]
fn format_duration_boundary_60s() {
    assert_eq!(format_duration(60), "1m0s");
}

#[test]
fn format_duration_boundary_3599s() {
    assert_eq!(format_duration(3599), "59m59s");
}

#[test]
fn format_duration_boundary_3600s() {
    assert_eq!(format_duration(3600), "1h0m");
}

#[test]
fn format_short_duration_rounds() {
    assert_eq!(format_short_duration(30), "30s");
    assert_eq!(format_short_duration(90), "1m");
    assert_eq!(format_short_duration(7500), "2h");
}

#[test]
fn format_short_duration_boundary_59s() {
    assert_eq!(format_short_duration(59), "59s");
}

#[test]
fn format_short_duration_boundary_60s() {
    assert_eq!(format_short_duration(60), "1m");
}

#[test]
fn format_short_duration_boundary_3599s() {
    assert_eq!(format_short_duration(3599), "59m");
}

#[test]
fn format_short_duration_boundary_3600s() {
    assert_eq!(format_short_duration(3600), "1h");
}

#[test]
fn rssi_color_green_at_minus_70() {
    assert_eq!(rssi_color(-70), Color::Green);
}

#[test]
fn rssi_color_yellow_at_minus_71() {
    assert_eq!(rssi_color(-71), C_RATE_DROP);
}

#[test]
fn rssi_color_yellow_at_minus_90() {
    assert_eq!(rssi_color(-90), C_RATE_DROP);
}

#[test]
fn rssi_color_red_at_minus_91() {
    assert_eq!(rssi_color(-91), C_QUEUE_DROP);
}

#[test]
fn rssi_color_green_at_zero() {
    assert_eq!(rssi_color(0), Color::Green);
}

#[test]
fn snr_color_green_at_5() {
    assert_eq!(snr_color(5), Color::Green);
}

#[test]
fn snr_color_yellow_at_4() {
    assert_eq!(snr_color(4), C_RATE_DROP);
}

#[test]
fn snr_color_yellow_at_0() {
    assert_eq!(snr_color(0), C_RATE_DROP);
}

#[test]
fn snr_color_red_at_minus_1() {
    assert_eq!(snr_color(-1), C_QUEUE_DROP);
}

#[test]
fn snr_color_green_at_high_value() {
    assert_eq!(snr_color(20), Color::Green);
}

#[test]
fn small_terminals_are_told() {
    assert_eq!(size_warning(79, 12).unwrap(), "Terminal too small (79x12), need 80x12+");
    assert_eq!(size_warning(80, 11).unwrap(), "Terminal too small (80x11), need 80x12+");
    assert!(size_warning(80, 12).is_none());
}

#[test]
fn quit_keys() {
    assert!(is_quit(true, Some('q'), false));
    assert!(is_quit(true, Some('q'), true));
    assert!(is_quit(true, Some('c'), true));
    assert!(!is_quit(true, Some('c'), false));
    assert!(!is_quit(false, Some('q'), false));
    assert!(!is_quit(true, Some('x'), true));
    assert!(!is_quit(true, None, true));
}

#[test]
fn poll_timeouts() {
    assert_eq!(poll_timeout(0), SEC / 4);
    assert_eq!(poll_timeout(SEC / 5), SEC / 20);
    assert_eq!(poll_timeout(SEC), 0);
}

#[test]
fn log_is_bounded() {
    let mut log = VecDeque::new();
    for i in 0..250u64 {
        let mut e = entry(0, PacketAction::Bridged);
        e.timestamp = i;
        push_log_entry(&mut log, e);
    }
    assert_eq!(log.len(), 200);
    assert_eq!(log.front().unwrap().timestamp, 50);
    assert_eq!(log.back().unwrap().timestamp, 249);
}

#[test]
fn header_pills() {
    let mut stats = Stats::default();
    let line = header_line(&stats.snapshot());
    assert_eq!(texts(&line), vec![" ", " RADIO ", " ", " NET "]);
    assert_eq!(line.spans[0].style.fg, None);
    assert_eq!(line.spans[1].style.fg, Some(Color::White));
    assert_eq!(line.spans[1].style.bg, Some(C_LABEL));
    stats.radio_connected = 1;
    stats.neighbor_count = 2;
    let line = header_line(&stats.snapshot());
    for i in [1, 3] {
        assert_eq!(line.spans[i].style.fg, Some(Color::Black));
        assert_eq!(line.spans[i].style.bg, Some(Color::Green));
    }
    assert_eq!(texts(&clock_line("12:00:00 UTC")), vec!["12:00:00 UTC "]);
}

#[test]
fn kv_lines() {
    let line = kv_line("BW", "125 kHz", C_ACCENT);
    assert_eq!(texts(&line), vec![" ", "BW        ", "125 kHz"]);
    assert_eq!(color(&line, 1), Some(C_LABEL));
    assert_eq!(color(&line, 2), Some(C_ACCENT));
}

#[test]
fn network_panel() {
    let mut state = SwarmState {
        topic_hash: "ab12".to_string(),
        neighbor_count: 0,
        dht_status: DhtStatus::Bootstrapping,
        dht_text: "bootstrapping".to_string(),
        published_secs_ago: None,
    };
    let lines = network_lines(&state);
    let shown: Vec<String> = lines.iter().map(whole).collect();
    assert_eq!(
        shown,
        vec![" ID        ab12", " Peers     0", " DHT       bootstrapping", " Published -"]
    );
    assert_eq!(color(&lines[1], 2), Some(C_RATE_DROP));
    assert_eq!(color(&lines[2], 2), Some(C_RATE_DROP));
    state.neighbor_count = 3;
    state.dht_status = DhtStatus::Ready;
    state.published_secs_ago = Some(61);
    let lines = network_lines(&state);
    assert_eq!(whole(&lines[1]), " Peers     3");
    assert_eq!(whole(&lines[3]), " Published 61s ago");
    assert_eq!(color(&lines[1], 2), Some(Color::Green));
    assert_eq!(color(&lines[2], 2), Some(Color::Green));
    state.dht_status = DhtStatus::PublishFailed;
    assert_eq!(color(&network_lines(&state)[2], 2), Some(C_QUEUE_DROP));
}

#[test]
fn radio_panel_of_our_config() {
    let p = radio_panel(&info(true, ConfigSource::Ours));
    assert_eq!(p.title, " Radio ");
    assert_eq!(p.border, C_BORDER);
    let shown: Vec<String> = p.lines.iter().map(whole).collect();
    assert_eq!(
        shown,
        vec![
            " Device    dongle",
            " Freq      910.525 MHz",
            " BW        62.5 kHz",
            " SF        7",
            " CR        4/5",
            " Sync      0x1424",
            " TX        20 dBm",
            " Preamble  16",
        ]
    );
    assert!(p.lines.iter().all(|l| color(l, 2) == Some(C_ACCENT)));
}

#[test]
fn radio_panel_marks_mux_mismatches() {
    let mut i = info(true, ConfigSource::Mux);
    i.active.sf = 12;
    i.active.tx_power_dbm = -4;
    let p = radio_panel(&i);
    assert_eq!(p.title, " Radio (mux) ");
    assert_eq!(p.border, C_RATE_DROP);
    assert_eq!(whole(&p.lines[3]), " SF        12 !");
    assert_eq!(color(&p.lines[3], 2), Some(C_RATE_DROP));
    assert_eq!(whole(&p.lines[6]), " TX        -4 dBm !");
    assert_eq!(whole(&p.lines[4]), " CR        4/5");
    assert_eq!(color(&p.lines[4], 2), Some(C_ACCENT));
}

#[test]
fn radio_panel_while_disconnected() {
    let mut i = info(false, ConfigSource::Mux);
    i.active.sf = 12;
    i.device = String::new();
    let p = radio_panel(&i);
    assert_eq!(p.title, " Radio (disconnected) ");
    assert_eq!(p.border, C_QUEUE_DROP);
    assert_eq!(whole(&p.lines[0]), " Device    -");
    assert_eq!(whole(&p.lines[3]), " SF        12");
    assert!(p.lines.iter().all(|l| color(l, 2) == Some(C_LABEL)));
}

#[test]
fn stats_panel() {
    let mut stats = Stats::default();
    stats.radio_rx = 1;
    stats.radio_tx = 22;
    stats.gossip_rx = 333;
    stats.gossip_tx = 4444;
    stats.dedup_hits = 5;
    stats.rate_limit_drops = 6;
    stats.dropped_queue = 7_777_777;
    let lines = stats_lines(&stats.snapshot(), 125);
    let shown: Vec<String> = lines.iter().map(whole).collect();
    assert_eq!(
        shown,
        vec![
            " Uptime     2m5s",
            " RF RX         1",
            " RF TX        22",
            " Net RX      333",
            " Net TX     4444",
            " Deduped       5",
            " Rate lim      6",
            " Q drop   7777777",
        ]
    );
    assert_eq!(color(&lines[0], 2), Some(C_VALUE));
    assert_eq!(color(&lines[1], 2), Some(C_RADIO_RX));
}

#[test]
fn log_rows_line_up() {
    let now = 100 * SEC + 61 * SEC;
    let entries = vec![entry(0xAB, PacketAction::Bridged), entry(0xAB, PacketAction::DroppedDedup)];
    let lines = log_lines(&entries, 20, now);
    assert_eq!(lines.len(), 3);
    assert_eq!(whole(&lines[0]), "  Age    Hash  RF Net  Size  RSSI  SNR  Act");
    assert_eq!(whole(&lines[1]), "   1m  ababab  RX  TX   42B   -71    5     ");
    assert_eq!(whole(&lines[2]), "   1m      ··  RX  ──   42B   -71    5  DUP");
    for l in &lines {
        assert_eq!(whole(l).chars().count(), 43);
    }
    assert!(lines[0].spans.iter().all(|s| s.style.bold));
    assert_eq!(color(&lines[1], 2), Some(C_RADIO_RX));
    assert_eq!(color(&lines[1], 3), Some(C_NET_TX));
    assert_eq!(color(&lines[1], 5), Some(C_RATE_DROP));
    assert_eq!(color(&lines[1], 6), Some(Color::Green));
    assert_eq!(color(&lines[2], 1), Some(C_BORDER));
    assert_eq!(color(&lines[2], 3), Some(C_BORDER));
}

#[test]
fn log_rows_from_the_swarm() {
    let mut e = entry(1, PacketAction::Bridged);
    e.direction = PacketDirection::GossipIn;
    e.rssi = None;
    e.snr = None;
    let mut full = entry(2, PacketAction::DroppedQueueFull);
    full.direction = PacketDirection::GossipIn;
    let lines = log_lines(&[e, full], 20, 0);
    assert_eq!(whole(&lines[1]), "   0s  010101  TX  RX   42B     -    -     ");
    assert_eq!(whole(&lines[2]), "   0s  020202  ──  RX   42B   -71    5 FULL");
    assert_eq!(color(&lines[1], 2), Some(C_RADIO_TX));
    assert_eq!(color(&lines[1], 3), Some(C_NET_RX));
    assert_eq!(color(&lines[2], 7), Some(C_QUEUE_DROP));
}

#[test]
fn log_rows_of_retries() {
    let retry = |attempt, state| PacketLogEntry {
        tx_retry: Some(TxRetryInfo { attempt, total_attempts: 3, state }),
        ..entry(1, PacketAction::Bridged)
    };
    let entries = [
        retry(2, TxRetryState::Retrying(TxRetryReason::ChannelBusy)),
        retry(3, TxRetryState::Failed),
        retry(2, TxRetryState::Succeeded),
        retry(1, TxRetryState::InFlight),
    ];
    let lines = log_lines(&entries, 20, 0);
    let action = |i: usize| (lines[i].spans[7].text.as_str(), color(&lines[i], 7));
    assert_eq!(action(1), ("↻ 2/3", Some(Color::Yellow)));
    assert_eq!(action(2), ("    ✗", Some(Color::Red)));
    assert_eq!(action(3), ("OK 2/3", Some(C_LABEL)));
    assert_eq!(action(4), ("     ", Some(C_LABEL)));
    let widths: Vec<usize> = lines.iter().map(|l| whole(l).chars().count()).collect();
    assert_eq!(widths, vec![43, 43, 43, 44, 43]);
}

#[test]
fn log_shows_the_latest_entries_that_fit() {
    let entries: Vec<PacketLogEntry> = (0..10).map(|i| entry(i, PacketAction::Bridged)).collect();
    let lines = log_lines(&entries, 7, 0);
    assert_eq!(lines.len(), 5);
    assert_eq!(lines[1].spans[1].text, "  060606");
    assert_eq!(lines[4].spans[1].text, "  090909");
    assert_eq!(log_lines(&entries, 3, 0).len(), 1);
    assert_eq!(log_lines(&entries, 0, 0).len(), 1);
}

#[test]
fn activity_sparklines() {
    let mut ts = TimeSeries::new(&Stats::default().snapshot(), 0);
    ts.buckets.push_back(Bucket { radio_rx: 3, radio_tx: 1, snr_sum: -10, snr_count: 2 });
    let p = activity_panel(&ts, 8, 6).unwrap();
    assert_eq!(p.rx.data, vec![0, 0, 0, 0, 0, 0, 0, 3]);
    assert_eq!(p.tx.data, vec![0, 0, 0, 0, 0, 0, 0, 1]);
    assert_eq!(p.snr.data, vec![0, 0, 0, 0, 0, 0, 0, 25]);
    assert_eq!(texts(&p.rx.label), vec![" RX ", "pk:3"]);
    assert_eq!(texts(&p.tx.label), vec![" TX ", "pk:1"]);
    assert_eq!(texts(&p.snr.label), vec![" SNR ", "-5dB"]);
    assert!(p.rx.label.spans[0].style.bold);
    assert!(activity_panel(&ts, 5, 6).is_none());
    assert!(activity_panel(&ts, 6, 5).is_none());
    let idle = TimeSeries::new(&Stats::default().snapshot(), 0);
    assert_eq!(texts(&activity_panel(&idle, 6, 6).unwrap().snr.label), vec![" SNR ", "-"]);
    assert!(section_fits(4, 2) && !section_fits(3, 2) && !section_fits(4, 1));
}

#[test]
fn shutdown_popup_is_centered() {
    let area = |x, y, width, height| Area { x, y, width, height };
    assert_eq!(shutdown_popup(area(0, 0, 80, 24)), area(22, 10, 36, 3));
    assert_eq!(shutdown_popup(area(2, 1, 37, 4)), area(2, 1, 36, 3));
    assert_eq!(shutdown_popup(area(5, 5, 10, 2)), area(5, 5, 10, 2));
    assert_eq!(texts(&shutdown_line()), vec![" Shutting down", " — updating DHT..."]);
}
