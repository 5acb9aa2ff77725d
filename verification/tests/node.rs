use rf_telemetry::device_gateway::{deauth_reply, echo_frame, Gateway, GatewayAction};
use rf_telemetry::frame::{DecodeError, Payload, TelemetryFrame};
use rf_telemetry::gwlink::{GwMsg, WifiMode};
use rf_telemetry::inbox::{
    enqueue, enqueue_rx, feed_command_bytes, line_new, next_node_packet, next_rx, node_inbox_new, rx_inbox_new,
};
use rf_telemetry::sim_node::{format_inbound, parse_node_command, sim_send_step, NodeCommand};

#[test]
fn node_commands_parse() {
    match parse_node_command("  GW,HEALTH \r\n") {
        NodeCommand::Gw(GwMsg::HealthReq) => {}
        other => panic!("unexpected {:?}", other),
    }
    match parse_node_command("GW,SNMP_SET,1.3.6.1.4.1.custom.relay,on") {
        NodeCommand::Gw(GwMsg::SnmpSetReq { oid, value }) => {
            assert_eq!(oid, "1.3.6.1.4.1.custom.relay");
            assert_eq!(value, "on");
        }
        other => panic!("unexpected {:?}", other),
    }
    match parse_node_command("GW,SNMP_GET") {
        NodeCommand::Gw(GwMsg::SnmpGetReq { oid }) => assert_eq!(oid, ""),
        other => panic!("unexpected {:?}", other),
    }
    match parse_node_command("GW,ENROLL,dev-1,AA:BB:CC:00:00:01") {
        NodeCommand::Gw(GwMsg::EnrollReq { device_id, mac }) => {
            assert_eq!(device_id, "dev-1");
            assert_eq!(mac, "AA:BB:CC:00:00:01");
        }
        other => panic!("unexpected {:?}", other),
    }
    assert!(matches!(parse_node_command("SIM,SEND,1"), NodeCommand::SimSend(true)));
    assert!(matches!(parse_node_command("SIM,SEND,true"), NodeCommand::SimSend(true)));
    assert!(matches!(parse_node_command("SIM,SEND,0"), NodeCommand::SimSend(false)));
    assert!(matches!(parse_node_command("SIM,SEND"), NodeCommand::SimSend(false)));
    match parse_node_command(" HELLO ") {
        NodeCommand::Reject(msg) => assert_eq!(msg, "ERR unknown command: HELLO"),
        other => panic!("unexpected {:?}", other),
    }
    match parse_node_command("GW,NOPE") {
        NodeCommand::Reject(msg) => assert_eq!(msg, "ERR unknown command: GW,NOPE"),
        other => panic!("unexpected {:?}", other),
    }
}

#[test]
fn inbound_lines() {
    let frame = TelemetryFrame { seq: 5, timestamp_ms: 0, node_id: 2, payload: Payload::ByteCmd(172) };
    assert_eq!(format_inbound(Some(frame), Err(DecodeError::VendorMismatch)), "SIMRECV node=2 seq=5 payload=ByteCmd(172)");
    let health = GwMsg::HealthResp { free_heap: 180224, uptime_ms: 42000, rx_count: 7, wifi_mode: WifiMode::ApSta };
    assert_eq!(
        format_inbound(None, Ok(health)),
        "GWRESP HEALTH free_heap=180224 uptime_ms=42000 rx_count=7 wifi_mode=ApSta"
    );
    assert_eq!(
        format_inbound(None, Ok(GwMsg::ToggleResp { downstream_online: false, wifi_mode: WifiMode::Sta })),
        "GWRESP TOGGLE downstream_online=false wifi_mode=Sta"
    );
    assert_eq!(format_inbound(None, Ok(GwMsg::DeauthResp { kicked: 1 })), "GWRESP DEAUTH kicked=1");
    assert_eq!(format_inbound(None, Ok(GwMsg::StaListResp { count: 3 })), "GWRESP STALIST count=3");
    assert_eq!(
        format_inbound(None, Ok(GwMsg::SnmpResp { oid: "1.2".to_string(), value: None, ok: false })),
        "GWRESP SNMP oid=1.2 value=<none> ok=false"
    );
    assert_eq!(
        format_inbound(
            None,
            Ok(GwMsg::ProvisionResp {
                device_id: "dev-1".to_string(),
                state: "pending".to_string(),
                fingerprint: String::new(),
                version: 1,
                ok: true
            })
        ),
        "GWRESP PROVISION device_id=dev-1 state=pending fingerprint=<none> version=1 ok=true"
    );
    assert!(format_inbound(None, Ok(GwMsg::HealthReq)).starts_with("GWRESP other="));
    assert_eq!(format_inbound(None, Err(DecodeError::CrcMismatch)), "ERR undecodable inbound: CRC mismatch");
}

#[test]
fn decode_error_messages() {
    assert_eq!(DecodeError::Cobs.message(), "COBS decode error");
    assert_eq!(DecodeError::TooShort.message(), "Frame too short for CRC");
    assert_eq!(DecodeError::Postcard.message(), "Postcard deserialization error");
    assert_eq!(DecodeError::VendorMismatch.message(), "ESP-NOW vendor ID mismatch");
}

fn reply(a: GatewayAction) -> GwMsg {
    match a {
        GatewayAction::Reply(m) => m,
        GatewayAction::ApplyWifiThenReply(m) => m,
        other => panic!("no reply: {:?}", other),
    }
}

#[test]
fn device_gateway_toggle_and_snmp() {
    let mut gw = Gateway::new();
    assert_eq!(gw.wifi_mode(), WifiMode::ApSta);
    assert!(matches!(gw.handle_msg(GwMsg::HealthReq), GatewayAction::ReportHealth));
    assert!(matches!(gw.handle_msg(GwMsg::DeauthReq), GatewayAction::Deauthenticate));
    assert!(matches!(gw.handle_msg(GwMsg::StaListReq), GatewayAction::CountStations));
    assert!(matches!(gw.handle_msg(GwMsg::StaListResp { count: 1 }), GatewayAction::Ignore));
    match gw.handle_msg(GwMsg::SnmpGetReq { oid: "1.3.6.1.4.1.custom.relay".to_string() }) {
        GatewayAction::Reply(GwMsg::SnmpResp { value, ok, .. }) => {
            assert_eq!(value.as_deref(), Some("off"));
            assert!(ok);
        }
        other => panic!("unexpected {:?}", other),
    }
    match gw.handle_msg(GwMsg::ToggleReq) {
        GatewayAction::ApplyWifiThenReply(GwMsg::ToggleResp { downstream_online, wifi_mode }) => {
            assert!(!downstream_online);
            assert_eq!(wifi_mode, WifiMode::Sta);
        }
        other => panic!("unexpected {:?}", other),
    }
    assert!(!gw.downstream_online());
    match reply(gw.handle_msg(GwMsg::SnmpSetReq { oid: "x".to_string(), value: "1".to_string() })) {
        GwMsg::SnmpResp { value, ok, .. } => {
            assert_eq!(value, None);
            assert!(!ok);
        }
        other => panic!("unexpected {:?}", other),
    }
    match gw.sta_list_reply(Some(4)) {
        GwMsg::StaListResp { count } => assert_eq!(count, 0),
        other => panic!("unexpected {:?}", other),
    }
    gw.handle_msg(GwMsg::ToggleReq);
    match gw.sta_list_reply(Some(4)) {
        GwMsg::StaListResp { count } => assert_eq!(count, 4),
        other => panic!("unexpected {:?}", other),
    }
    match gw.health_reply(1000, 2, 3) {
        GwMsg::HealthResp { free_heap, uptime_ms, rx_count, wifi_mode } => {
            assert_eq!((free_heap, uptime_ms, rx_count, wifi_mode), (1000, 2, 3, WifiMode::ApSta));
        }
        other => panic!("unexpected {:?}", other),
    }
    match reply(gw.handle_msg(GwMsg::SnmpSetReq { oid: "x".to_string(), value: "1".to_string() })) {
        GwMsg::SnmpResp { value, ok, .. } => {
            assert_eq!(value.as_deref(), Some("1"));
            assert!(ok);
        }
        other => panic!("unexpected {:?}", other),
    }
    match reply(gw.handle_msg(GwMsg::SnmpGetReq { oid: "x".to_string() })) {
        GwMsg::SnmpResp { value, .. } => assert_eq!(value.as_deref(), Some("1")),
        other => panic!("unexpected {:?}", other),
    }
}

#[test]
fn device_gateway_provisioning() {
    let mut gw = Gateway::new();
    match reply(gw.handle_msg(GwMsg::EnrollReq { device_id: "dev-1".to_string(), mac: "AA:BB:CC:00:00:01".to_string() })) {
        GwMsg::ProvisionResp { state, fingerprint, version, ok, .. } => {
            assert_eq!(state, "pending");
            assert_eq!(fingerprint, "cred-6084a7b08a5e4787");
            assert_eq!(version, 1);
            assert!(ok);
        }
        other => panic!("unexpected {:?}", other),
    }
    match reply(gw.handle_msg(GwMsg::EnrollReq { device_id: "dev-1".to_string(), mac: "x".to_string() })) {
        GwMsg::ProvisionResp { ok, version, .. } => {
            assert!(!ok);
            assert_eq!(version, 1);
        }
        other => panic!("unexpected {:?}", other),
    }
    match reply(gw.handle_msg(GwMsg::ClaimReq { device_id: "dev-1".to_string() })) {
        GwMsg::ProvisionResp { state, ok, .. } => {
            assert_eq!(state, "active");
            assert!(ok);
        }
        other => panic!("unexpected {:?}", other),
    }
    match reply(gw.handle_msg(GwMsg::RotateReq { device_id: "dev-1".to_string() })) {
        GwMsg::ProvisionResp { fingerprint, version, ok, .. } => {
            assert_eq!(fingerprint, "cred-8094a39787bd11d4");
            assert_eq!(version, 2);
            assert!(ok);
        }
        other => panic!("unexpected {:?}", other),
    }
    match reply(gw.handle_msg(GwMsg::RevokeReq { device_id: "dev-1".to_string() })) {
        GwMsg::ProvisionResp { state, ok, .. } => {
            assert_eq!(state, "revoked");
            assert!(ok);
        }
        other => panic!("unexpected {:?}", other),
    }
    match reply(gw.handle_msg(GwMsg::RotateReq { device_id: "dev-1".to_string() })) {
        GwMsg::ProvisionResp { ok, .. } => assert!(!ok),
        other => panic!("unexpected {:?}", other),
    }
    match reply(gw.handle_msg(GwMsg::ClaimReq { device_id: "ghost".to_string() })) {
        GwMsg::ProvisionResp { state, fingerprint, version, ok, .. } => {
            assert_eq!(state, "unknown");
            assert_eq!(fingerprint, "");
            assert_eq!(version, 0);
            assert!(!ok);
        }
        other => panic!("unexpected {:?}", other),
    }
}

#[test]
fn deauth_and_echo() {
    assert!(matches!(deauth_reply(0), GwMsg::DeauthResp { kicked: 1 }));
    assert!(matches!(deauth_reply(-1), GwMsg::DeauthResp { kicked: 0 }));
    let f = TelemetryFrame { seq: 9, timestamp_ms: 1, node_id: 4, payload: Payload::BoolCmd(true) };
    assert_eq!(echo_frame(&f, 500), TelemetryFrame { seq: 9, timestamp_ms: 500, node_id: 4, payload: Payload::ByteCmd(0xAC) });
}

#[test]
fn rx_inbox_is_bounded_fifo() {
    let mut inbox = rx_inbox_new();
    assert_eq!(next_rx(&mut inbox), None);
    enqueue_rx(&mut inbox, &[1, 2, 3]);
    enqueue_rx(&mut inbox, &[0u8; 251]);
    enqueue_rx(&mut inbox, &[0u8; 250]);
    for i in 0..10u8 {
        enqueue_rx(&mut inbox, &[i]);
    }
    assert_eq!(next_rx(&mut inbox), Some(vec![1, 2, 3]));
    assert_eq!(next_rx(&mut inbox), Some(vec![0u8; 250]));
    for i in 0..6u8 {
        assert_eq!(next_rx(&mut inbox), Some(vec![i]));
    }
    assert_eq!(next_rx(&mut inbox), None);
}

#[test]
fn node_inbox_keeps_sources() {
    let mut inbox = node_inbox_new();
    let a = [1u8, 2, 3, 4, 5, 6];
    let b = [9u8; 6];
    enqueue(&mut inbox, a, &[7]);
    enqueue(&mut inbox, b, &[0u8; 300]);
    enqueue(&mut inbox, b, &[8, 9]);
    assert_eq!(next_node_packet(&mut inbox), Some((a, vec![7])));
    assert_eq!(next_node_packet(&mut inbox), Some((b, vec![8, 9])));
    assert_eq!(next_node_packet(&mut inbox), None);
}

#[test]
fn command_lines_assemble() {
    let mut line = line_new();
    let cmds = feed_command_bytes(&mut line, b"GW,HEA");
    assert!(cmds.is_empty());
    let cmds = feed_command_bytes(&mut line, b"LTH\r\n\nSIM,SEND,1\n\xff\xfe\nGW,TOG");
    assert_eq!(cmds, vec!["GW,HEALTH".to_string(), "SIM,SEND,1".to_string()]);
    let cmds = feed_command_bytes(&mut line, b"GLE\n");
    assert_eq!(cmds, vec!["GW,TOGGLE".to_string()]);
}

#[test]
fn overlong_command_line_is_dropped() {
    let mut line = line_new();
    let mut bytes = vec![b'A'; 161];
    bytes.extend_from_slice(b"XY\n");
    let cmds = feed_command_bytes(&mut line, &bytes);
    assert_eq!(cmds, vec!["XY".to_string()]);
    let mut exact = vec![b'B'; 160];
    exact.push(b'\n');
    let cmds = feed_command_bytes(&mut line, &exact);
    assert_eq!(cmds, vec!["B".repeat(160)]);
}

#[test]
fn sim_send_reply() {
    let (frame, line) = sim_send_step(41, true);
    assert_eq!(frame, TelemetryFrame { seq: 42, timestamp_ms: 0, node_id: 1, payload: Payload::BoolCmd(true) });
    assert_eq!(line, "SIMSENT ok");
    let (frame, _) = sim_send_step(0, false);
    assert_eq!(frame.seq, 1);
    assert_eq!(frame.payload, Payload::BoolCmd(false));
}

#[test]
fn inbound_other_messages() {
    assert_eq!(format_inbound(None, Ok(GwMsg::HealthReq)), "GWRESP other=HealthReq");
    assert_eq!(
        format_inbound(None, Ok(GwMsg::SnmpGetReq { oid: "1.3".to_string() })),
        "GWRESP other=SnmpGetReq { oid: \"1.3\" }"
    );
    assert_eq!(
        format_inbound(None, Ok(GwMsg::EnrollReq { device_id: "d\"1".to_string(), mac: "AA".to_string() })),
        "GWRESP other=EnrollReq { device_id: \"d\\\"1\", mac: \"AA\" }"
    );
    let snmp_set = GwMsg::SnmpSetReq { oid: "x".to_string(), value: "on".to_string() };
    assert_eq!(format_inbound(None, Ok(snmp_set.clone())), format!("GWRESP other={:?}", snmp_set));
}
