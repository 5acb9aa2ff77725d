use rf_telemetry::codec::{decode_espnow, decode_frame};
use rf_telemetry::config::{check_ingest_source, mtls_paths, secure_ingest_config, sidecar_transport, IngestFrameRequest};
use rf_telemetry::control::{process_frame, store_key, FrameDisposition};
use rf_telemetry::firmware_config::{parse_data_bits, plan_firmware_config, FirmwareConfigRequest};
use rf_telemetry::frame::{Payload, TelemetryFrame};
use rf_telemetry::live::{make_frame_event, payload_label, LiveLog};
use rf_telemetry::mac::parse_mac;
use rf_telemetry::pipeline::{
    guard_trigger, pattern_bits, bit_error_indices, bits_to_string, clock_string, count_packet, judge_trigger, keep_newest,
    mode_label, next_trigger_seq, parse_bits, record_publish, settle_trigger, PacketCounters, TransmissionMode, MAX_EVENTS,
};
use rf_telemetry::replay::ReplayGuard;
use rf_telemetry::rules::{evaluate, RuleOutcome};
use rf_telemetry::sim_tools::{
    esp32_tx_bytes, esp32s3_gateway_bytes, gateway_control_line, tx_bool_frame, tx_boot_frame, write_frame_bytes, BoardRole,
};

fn frame_payload(frame: &TelemetryFrame) -> Vec<u8> {
    match frame.payload {
        Payload::BoolCmd(b) => postcard::to_allocvec(&(frame.seq, frame.timestamp_ms, frame.node_id, 0u32, b)).unwrap(),
        Payload::ByteCmd(v) => postcard::to_allocvec(&(frame.seq, frame.timestamp_ms, frame.node_id, 1u32, v)).unwrap(),
    }
}

fn frame_from_payload(bytes: &[u8]) -> TelemetryFrame {
    let (seq, timestamp_ms, node_id, variant, rest): (u32, u64, u8, u32, u8) = postcard::from_bytes(bytes).unwrap();
    let payload = match variant {
        0 => Payload::BoolCmd(rest == 1),
        _ => Payload::ByteCmd(rest),
    };
    TelemetryFrame { seq, timestamp_ms, node_id, payload }
}

#[test]
fn true_triggers_action() {
    let frame = TelemetryFrame { seq: 1, timestamp_ms: 0, node_id: 1, payload: Payload::BoolCmd(true) };
    assert_eq!(evaluate(&frame), RuleOutcome::ActionTriggered);
}

#[test]
fn false_only_logs() {
    let frame = TelemetryFrame { seq: 1, timestamp_ms: 0, node_id: 1, payload: Payload::BoolCmd(false) };
    assert_eq!(evaluate(&frame), RuleOutcome::Logged);
}

#[test]
fn boot_byte_press_triggers_action() {
    let frame = TelemetryFrame { seq: 2, timestamp_ms: 0, node_id: 1, payload: Payload::ByteCmd(0xB2) };
    assert_eq!(evaluate(&frame), RuleOutcome::ActionTriggered);
}

#[test]
fn parses_colon_separated_mac() {
    assert_eq!(parse_mac("14:C1:9F:CB:51:B4"), [0x14, 0xC1, 0x9F, 0xCB, 0x51, 0xB4]);
}

#[test]
fn parses_lowercase_mac() {
    assert_eq!(parse_mac("cc:7b:5c:25:9e:20"), [0xCC, 0x7B, 0x5C, 0x25, 0x9E, 0x20]);
}

#[test]
fn parse_mac_skips_separators_and_pads_short_input() {
    assert_eq!(parse_mac("0011-2233-4455"), [0x00, 0x11, 0x22, 0x33, 0x44, 0x55]);
    assert_eq!(parse_mac("AB:C"), [0xAB, 0x00, 0x00, 0x00, 0x00, 0x00]);
    assert_eq!(parse_mac("01:02:03:04:05:06:07"), [1, 2, 3, 4, 5, 6]);
}

#[test]
fn tx_node_bytes_roundtrip() {
    let frame = tx_bool_frame(7, 1, 1234, true);
    let bytes = esp32_tx_bytes(&frame_payload(&frame));
    let decoded = frame_from_payload(&decode_espnow(&bytes).unwrap());
    assert_eq!(frame, decoded);
}

#[test]
fn gateway_uart_bytes_roundtrip() {
    let frame = tx_boot_frame(11, 1, 99, 0xB2);
    let bytes = esp32s3_gateway_bytes(&frame_payload(&frame));
    let decoded = frame_from_payload(&decode_frame(&bytes).unwrap());
    assert_eq!(frame, decoded);
}

#[test]
fn control_line_matches_gateway_protocol() {
    assert_eq!(gateway_control_line(1, 10, 0xB2), "SDRCTL,1,10,178\n");
}

#[test]
fn control_line_with_negative_power() {
    assert_eq!(gateway_control_line(0, -128, 0), "SDRCTL,0,-128,0\n");
}

#[test]
fn write_frame_bytes_picks_the_board_framing() {
    let frame = tx_bool_frame(3, 2, 5, false);
    let payload = frame_payload(&frame);
    assert_eq!(write_frame_bytes(&payload, BoardRole::Esp32TxNode), esp32_tx_bytes(&payload));
    assert_eq!(write_frame_bytes(&payload, BoardRole::Esp32S3Gateway), esp32s3_gateway_bytes(&payload));
    assert_ne!(esp32_tx_bytes(&payload), esp32s3_gateway_bytes(&payload));
}

#[test]
fn records_action_event() {
    let mut bus = LiveLog::new();
    let frame = TelemetryFrame { seq: 11, timestamp_ms: 0, node_id: 1, payload: Payload::BoolCmd(true) };
    bus.record_frame(&frame, RuleOutcome::ActionTriggered, false, 0);
    let events = bus.recent();
    assert_eq!(events.len(), 1);
    assert_eq!(events[0].level, "action");
    assert!(events[0].message.contains("ACTION_TRIGGERED"));
}

#[test]
fn live_log_messages_and_last_action() {
    let mut log = LiveLog::new();
    let frame = TelemetryFrame { seq: 4, timestamp_ms: 0, node_id: 2, payload: Payload::ByteCmd(0x0A) };
    let e = log.record_frame(&frame, RuleOutcome::ActionTriggered, false, 77);
    assert_eq!(e.message, "ACTION_TRIGGERED: ByteCmd(0x0A) node=2 seq=4");
    assert_eq!(e.ts_ms, 77);
    assert_eq!(log.last_action(), Some((2, 4)));
    let w = log.record_frame(&frame, RuleOutcome::ActionTriggered, true, 78);
    assert_eq!(w.level, "warn");
    assert_eq!(w.message, "rejected replayed frame node_id=2 seq=4");
    let i = make_frame_event(&tx_bool_frame(9, 3, 0, false), RuleOutcome::Logged, false, 1);
    assert_eq!(i.level, "info");
    assert_eq!(i.message, "telemetry node=3 seq=9 payload=BoolCmd(false)");
    assert_eq!(log.last_action(), Some((2, 4)));
    let events = log.recent();
    assert_eq!(events.len(), 2);
    assert_eq!(events[0].level, "warn");
    assert_eq!(events[1].level, "action");
}

#[test]
fn live_log_keeps_the_newest_two_hundred() {
    let mut log = LiveLog::new();
    for seq in 0..205u32 {
        log.record_frame(&tx_bool_frame(seq, 1, 0, false), RuleOutcome::Logged, false, 0);
    }
    let events = log.recent();
    assert_eq!(events.len(), 200);
    assert_eq!(log.event_count(), 200);
    assert_eq!(events[0].seq, Some(204));
    assert_eq!(events[199].seq, Some(5));
    assert_eq!(log.last_action(), None);
}

#[test]
fn payload_labels() {
    assert_eq!(payload_label(&Payload::BoolCmd(true)), "BoolCmd(true)");
    assert_eq!(payload_label(&Payload::BoolCmd(false)), "BoolCmd(false)");
    assert_eq!(payload_label(&Payload::ByteCmd(0xB2)), "ByteCmd(0xB2)");
    assert_eq!(payload_label(&Payload::ByteCmd(7)), "ByteCmd(0x07)");
}

#[test]
fn process_frame_accepts_once() {
    let mut guard = ReplayGuard::new();
    let frame = tx_bool_frame(1, 1, 0, true);
    let first = process_frame(&frame, &mut guard);
    assert_eq!(first, FrameDisposition::Accepted(RuleOutcome::ActionTriggered));
    assert!(first.persists());
    let again = process_frame(&frame, &mut guard);
    assert_eq!(again, FrameDisposition::ReplayRejected);
    assert!(!again.persists());
    let logged = process_frame(&tx_bool_frame(2, 1, 0, false), &mut guard);
    assert_eq!(logged, FrameDisposition::Accepted(RuleOutcome::Logged));
    assert!(!logged.persists());
    assert_eq!(store_key(1, 2), "1:2");
    assert_eq!(store_key(255, 4294967295), "255:4294967295");
}

#[test]
fn mtls_paths_all_or_nothing() {
    let s = |v: &str| Some(v.to_string());
    let ok = mtls_paths(&s("c.pem"), &s("k.pem"), &s("ca.pem"), false).unwrap().unwrap();
    assert_eq!(ok.server_cert, "c.pem");
    assert_eq!(ok.server_key, "k.pem");
    assert_eq!(ok.client_ca, "ca.pem");
    assert!(mtls_paths(&None, &None, &None, false).unwrap().is_none());
    let err = mtls_paths(&None, &None, &None, true).unwrap_err();
    assert_eq!(err.message, "mTLS ingest requires CONTROL_PLANE_TLS_CERT, CONTROL_PLANE_TLS_KEY, and CONTROL_PLANE_CLIENT_CA");
    assert!(mtls_paths(&s("c.pem"), &None, &s("ca.pem"), false).is_err());
}

#[test]
fn secure_ingest_config_all_or_nothing() {
    let s = |v: &str| Some(v.to_string());
    let cfg = secure_ingest_config(&s("https://x"), &s("c"), &s("k"), &s("ca")).unwrap();
    assert_eq!(sidecar_transport(&cfg), "tls13_mtls");
    assert_eq!(cfg.unwrap().url, "https://x");
    let none = secure_ingest_config(&None, &None, &None, &None).unwrap();
    assert_eq!(sidecar_transport(&none), "zmq");
    let err = secure_ingest_config(&s("https://x"), &None, &None, &None).unwrap_err();
    assert_eq!(err.message, "secure ingest requires SECURE_INGEST_URL, HIL_SIM_TLS_CERT, HIL_SIM_TLS_KEY, and HIL_SIM_SERVER_CA");
}

#[test]
fn ingest_source_check() {
    let frame = tx_bool_frame(1, 1, 0, true);
    assert!(check_ingest_source(&IngestFrameRequest { source: None, frame }).is_ok());
    assert!(check_ingest_source(&IngestFrameRequest { source: Some("  software-sim \n".to_string()), frame }).is_ok());
    let err = check_ingest_source(&IngestFrameRequest { source: Some("hardware".to_string()), frame }).unwrap_err();
    assert_eq!(err.message, "unsupported ingest source");
}

#[test]
fn data_bits_parse() {
    assert_eq!(parse_data_bits("10110010"), Some(0xB2));
    assert_eq!(parse_data_bits("00000000"), Some(0));
    assert_eq!(parse_data_bits("11111111"), Some(255));
    assert_eq!(parse_data_bits("1011001"), None);
    assert_eq!(parse_data_bits("1011001x"), None);
    assert_eq!(parse_data_bits("101100101"), None);
}

#[test]
fn firmware_config_plan() {
    let req = FirmwareConfigRequest {
        node_id: Some(3),
        tx_power_dbm: Some(-5),
        data_bits: Some("00000001".to_string()),
        mode: Some("Ook433Mhz".to_string()),
        snr_db_given: true,
        noise_level_given: false,
        filter_bw_mhz_given: false,
        threshold_given: true,
        replay_guard: Some(true),
    };
    let (line, resp) = plan_firmware_config(&req);
    assert_eq!(line, "SDRCTL,3,-5,1\n");
    assert!(resp.ok);
    assert_eq!(resp.command, "SDRCTL,3,-5,1");
    assert_eq!(resp.applied, vec!["node_id", "tx_power_dbm", "data_bits"]);
    assert_eq!(resp.unsupported, vec!["mode_non_esp_now", "snr_db", "threshold", "replay_guard"]);

    let empty = FirmwareConfigRequest {
        node_id: None,
        tx_power_dbm: None,
        data_bits: Some("bogus".to_string()),
        mode: Some("EspNow".to_string()),
        snr_db_given: false,
        noise_level_given: false,
        filter_bw_mhz_given: false,
        threshold_given: false,
        replay_guard: None,
    };
    let (line, resp) = plan_firmware_config(&empty);
    assert_eq!(line, "SDRCTL,0,-128,178\n");
    assert_eq!(resp.applied, vec!["data_bits"]);
    assert!(resp.unsupported.is_empty());
}

#[test]
fn transmission_mode_labels() {
    assert_eq!(mode_label(TransmissionMode::EspNow), "ESP-NOW");
    assert_eq!(mode_label(TransmissionMode::BleAdvertisement), "BLE Advertisement");
    assert_eq!(mode_label(TransmissionMode::Ook433Mhz), "433MHz OOK");
    assert_eq!(TransmissionMode::default(), TransmissionMode::EspNow);
}

#[test]
fn bit_patterns() {
    let bits = parse_bits("1011 0010");
    assert_eq!(bits, vec![true, false, true, true, false, false, true, false]);
    assert_eq!(bits_to_string(&bits), "10110010");
    assert_eq!(bits_to_string(&parse_bits("x1y0")), "10");
    assert_eq!(bit_error_indices(&[true, false, true], &[true, true]), vec![1usize, 2]);
    assert!(bit_error_indices(&bits, &bits).is_empty());
}

#[test]
fn trigger_verdicts() {
    let good = judge_trigger(true, true, true, true, Some(3), 4, 0);
    assert!(good.packet_ok);
    assert!(!good.replay_rejected);
    assert_eq!(good.latency_ms, 25);
    assert_eq!(good.status, "封包完整");
    assert!(!good.zmq_published);

    let replay = judge_trigger(true, true, true, true, Some(4), 4, 0);
    assert!(!replay.packet_ok);
    assert!(replay.replay_rejected);
    assert_eq!(replay.status, "重放拒絕");

    let unguarded = judge_trigger(true, true, true, false, Some(9), 4, 0);
    assert!(unguarded.packet_ok);

    let corrupt = judge_trigger(false, false, true, true, None, 1, 3);
    assert!(!corrupt.packet_ok);
    assert_eq!(corrupt.latency_ms, 65);
    assert_eq!(corrupt.status, "封包損壞 (CRC Error)");

    let flipped = judge_trigger(false, true, true, true, None, 1, 40);
    assert_eq!(flipped.latency_ms, 120);
    assert_eq!(flipped.status, "位元錯誤");
}

#[test]
fn packet_counting() {
    let mut c = PacketCounters { packets_sent: 0, packets_ok: 0, security_alerts: 0, latency_ms: 25, last_bool: false };
    count_packet(&mut c, &judge_trigger(true, true, true, true, None, 1, 0), true);
    assert_eq!(c, PacketCounters { packets_sent: 1, packets_ok: 1, security_alerts: 0, latency_ms: 25, last_bool: true });
    count_packet(&mut c, &judge_trigger(true, true, true, true, Some(4), 4, 0), false);
    count_packet(&mut c, &judge_trigger(false, true, true, true, None, 5, 3), true);
    assert_eq!(c, PacketCounters { packets_sent: 3, packets_ok: 1, security_alerts: 1, latency_ms: 65, last_bool: true });
}

#[test]
fn trigger_settling() {
    let mut c = PacketCounters { packets_sent: 1, packets_ok: 1, security_alerts: 0, latency_ms: 25, last_bool: true };
    let mut v = judge_trigger(true, true, true, true, None, 1, 0);
    assert!(settle_trigger(&mut v, &mut c, false));
    assert!(v.packet_ok);
    assert_eq!(c.security_alerts, 0);
    record_publish(&mut v, true);
    assert!(v.zmq_published);

    let mut r = judge_trigger(true, true, true, true, None, 1, 0);
    assert!(!settle_trigger(&mut r, &mut c, true));
    assert!(r.replay_rejected);
    assert!(!r.packet_ok);
    assert_eq!(r.status, "重放拒絕");
    assert_eq!(c, PacketCounters { packets_sent: 1, packets_ok: 1, security_alerts: 1, latency_ms: 25, last_bool: true });
    record_publish(&mut r, true);
    assert!(!r.zmq_published);
}

#[test]
fn newest_events_kept() {
    let mut events: Vec<u32> = Vec::new();
    for i in 0..5u32 {
        keep_newest(&mut events, i, 3);
    }
    assert_eq!(events, vec![4, 3, 2]);
    keep_newest(&mut events, 9, 50);
    assert_eq!(events, vec![9, 4, 3, 2]);
}

#[test]
fn clock_strings() {
    assert_eq!(clock_string(0, 0), "00:00:00.000");
    assert_eq!(clock_string(86_400 + 3_723, 45), "01:02:03.045");
    assert_eq!(clock_string(86_399, 999), "23:59:59.999");
}

#[test]
fn trigger_pattern_defaults() {
    assert_eq!(pattern_bits("0101"), vec![false, true, false, true]);
    assert_eq!(pattern_bits(""), parse_bits("10110010"));
    assert_eq!(pattern_bits("xyz"), vec![true, false, true, true, false, false, true, false]);
}

#[test]
fn trigger_replay_check() {
    let mut guard = ReplayGuard::new();
    assert!(!guard_trigger(&mut guard, true, 1, 5));
    assert!(guard_trigger(&mut guard, true, 1, 5));
    assert!(!guard_trigger(&mut guard, false, 1, 5));
    assert_eq!(guard.last_seq(1), Some(5));
    assert!(!guard_trigger(&mut guard, false, 1, 1));
    assert_eq!(guard.last_seq(1), Some(5));
}

fn sample_frame(seq: u32, value: bool) -> TelemetryFrame {
    TelemetryFrame { seq, timestamp_ms: 1, node_id: 1, payload: Payload::BoolCmd(value) }
}

#[test]
fn sim_pipeline_replay_protection_logic() {
    let mut stored: Vec<String> = Vec::new();
    let mut replay = ReplayGuard::new();
    let mut actions = 0u32;

    for frame in [sample_frame(1, true), sample_frame(2, true), sample_frame(2, true)] {
        if !replay.accept(frame.node_id, frame.seq) {
            continue;
        }
        if evaluate(&frame) == RuleOutcome::ActionTriggered {
            stored.push(store_key(frame.node_id, frame.seq));
            actions += 1;
        }
    }

    assert_eq!(actions, 2);
    assert!(stored.contains(&"1:1".to_string()));
    assert!(stored.contains(&"1:2".to_string()));
}

#[test]
fn process_frame_unit() {
    let mut replay = ReplayGuard::new();
    let frame = sample_frame(9, true);
    let disposition = process_frame(&frame, &mut replay);
    assert!(disposition.persists());
    assert_eq!(store_key(frame.node_id, frame.seq), "1:9");
}

#[test]
fn bit_text_round_trips() {
    let bits = vec![true, false, true, true, false, false, true, false];
    assert_eq!(parse_bits(&bits_to_string(&bits)), bits);
    assert_eq!(parse_bits(&bits_to_string(&[])), Vec::<bool>::new());
    assert_eq!(bits_to_string(&parse_bits("1x0 1-0\n")), "1010");
    assert_eq!(bits_to_string(&parse_bits("abc")), "");
}

#[test]
fn trigger_steps_compose() {
    let mut events: Vec<u32> = (0..50u32).collect();
    let seq = next_trigger_seq(7);
    assert_eq!(seq, 8);
    let mut c = PacketCounters { packets_sent: 3, packets_ok: 2, security_alerts: 0, latency_ms: 25, last_bool: false };
    let mut v = judge_trigger(true, true, true, true, Some(7), seq, 0);
    let publish = settle_trigger(&mut v, &mut c, true);
    assert!(!publish);
    record_publish(&mut v, true);
    assert!(v.replay_rejected && !v.packet_ok && !v.zmq_published);
    assert_eq!(v.status, "重放拒絕");
    assert_eq!(c.security_alerts, 1);
    keep_newest(&mut events, 99, MAX_EVENTS);
    assert_eq!(events.len(), 50);
    assert_eq!(events[0], 99);
    assert_eq!(events[1], 0);
    assert_eq!(events[49], 48);

    let mut ok = judge_trigger(true, true, true, true, Some(7), next_trigger_seq(seq), 0);
    assert!(settle_trigger(&mut ok, &mut c, false));
    record_publish(&mut ok, false);
    assert!(!ok.zmq_published);
    record_publish(&mut ok, true);
    assert!(ok.zmq_published);
}
