use rf_telemetry::device_gateway::{Gateway, GatewayAction};
use rf_telemetry::gateway::{GatewayCommand, GatewaySnapshot, ProvisioningState, WifiMode};
use rf_telemetry::gwlink::{GwMsg, WifiMode as LinkWifiMode};
use rf_telemetry::sim_node::{format_inbound, parse_node_command, NodeCommand};
use rf_telemetry::hw_backend::{
    pick_gateway_port, hw_response, apply_line, command_to_line, default_hw_snapshot, extract_snmp, kv_lookup, kv_u32, parse_kv, parse_u32_text,
    set_wifi_mode, split_words, upsert_oid,
};

#[test]
fn command_lines_for_the_s3_node() {
    assert_eq!(command_to_line(&GatewayCommand::NetToggleDownstream).as_deref(), Some("GW,TOGGLE"));
    assert_eq!(
        command_to_line(&GatewayCommand::SnmpSet { oid: "1.3".to_string(), value: "on".to_string() }).as_deref(),
        Some("GW,SNMP_SET,1.3,on")
    );
    assert_eq!(command_to_line(&GatewayCommand::SnmpGet { oid: "1.3".to_string() }).as_deref(), Some("GW,SNMP_GET,1.3"));
    assert_eq!(command_to_line(&GatewayCommand::DeauthSta { mac: "x".to_string() }).as_deref(), Some("GW,DEAUTH"));
    assert_eq!(command_to_line(&GatewayCommand::SysHealth).as_deref(), Some("GW,HEALTH"));
    assert_eq!(command_to_line(&GatewayCommand::StaList).as_deref(), Some("GW,STALIST"));
    assert_eq!(
        command_to_line(&GatewayCommand::EnrollDevice { device_id: "d".to_string(), mac: "m".to_string() }).as_deref(),
        Some("GW,ENROLL,d,m")
    );
    assert_eq!(command_to_line(&GatewayCommand::ClaimDevice { device_id: "d".to_string() }).as_deref(), Some("GW,CLAIM,d"));
    assert_eq!(
        command_to_line(&GatewayCommand::RotateCredential { device_id: "d".to_string() }).as_deref(),
        Some("GW,ROTATE,d")
    );
    assert_eq!(command_to_line(&GatewayCommand::RevokeDevice { device_id: "d".to_string() }).as_deref(), Some("GW,REVOKE,d"));
    assert_eq!(command_to_line(&GatewayCommand::RegisterNode { mac: "m".to_string(), ip: "i".to_string() }), None);
}

#[test]
fn words_and_pairs() {
    let ws = split_words("  GWRESP  HEALTH free_heap=1 =x a=b=c\tnoeq ");
    let texts: Vec<String> = ws.iter().map(|w| w.iter().collect()).collect();
    assert_eq!(texts, vec!["GWRESP", "HEALTH", "free_heap=1", "=x", "a=b=c", "noeq"]);
    let kv = parse_kv(&ws);
    assert_eq!(
        kv,
        vec![
            ("free_heap".to_string(), "1".to_string()),
            ("".to_string(), "x".to_string()),
            ("a".to_string(), "b=c".to_string())
        ]
    );
    assert_eq!(kv_lookup(&kv, "a"), Some("b=c".to_string()));
    assert_eq!(kv_lookup(&kv, "zz"), None);
    assert_eq!(kv_u32(&kv, "free_heap"), Some(1));
    assert_eq!(kv_u32(&kv, "a"), None);
}

#[test]
fn u32_parsing() {
    assert_eq!(parse_u32_text("0"), Some(0));
    assert_eq!(parse_u32_text("4294967295"), Some(u32::MAX));
    assert_eq!(parse_u32_text("4294967296"), None);
    assert_eq!(parse_u32_text(""), None);
    assert_eq!(parse_u32_text("12a"), None);
    assert_eq!(parse_u32_text("-1"), None);
    assert_eq!(parse_u32_text("+7"), Some(7));
}

#[test]
fn health_and_toggle_lines_update_snapshot() {
    let mut s = default_hw_snapshot();
    assert_eq!(s.free_heap_bytes, 0);
    assert_eq!(s.wifi_mode, WifiMode::ApSta);
    apply_line(&mut s, "GWRESP HEALTH free_heap=180224 uptime_ms=42000 rx_count=7 wifi_mode=Sta");
    assert_eq!(s.free_heap_bytes, 180224);
    assert_eq!(s.wifi_mode, WifiMode::Sta);
    assert!(!s.downstream_online);
    assert_eq!(s.command_count, 1);
    apply_line(&mut s, "GWRESP TOGGLE downstream_online=true wifi_mode=ApSta");
    assert!(s.downstream_online);
    assert_eq!(s.wifi_mode, WifiMode::ApSta);
    apply_line(&mut s, "SIMRECV node=1 seq=2 payload=ByteCmd(172)");
    assert_eq!(s.command_count, 3);
    assert_eq!(s.command_log[0], "SIMRECV node=1 seq=2 payload=ByteCmd(172)");
    assert_eq!(s.command_log[2], "GWRESP HEALTH free_heap=180224 uptime_ms=42000 rx_count=7 wifi_mode=Sta");
}

#[test]
fn command_log_keeps_twenty_lines() {
    let mut s = default_hw_snapshot();
    for i in 0..25 {
        apply_line(&mut s, &format!("line {}", i));
    }
    assert_eq!(s.command_count, 25);
    assert_eq!(s.command_log.len(), 20);
    assert_eq!(s.command_log[0], "line 24");
    assert_eq!(s.command_log[19], "line 5");
}

#[test]
fn snmp_lines_fill_the_mib() {
    let mut s = default_hw_snapshot();
    apply_line(&mut s, "GWRESP SNMP oid=1.3.6.1.4.1.custom.relay value=on ok=true");
    apply_line(&mut s, "GWRESP SNMP oid=1.3.6.1.4.1.custom.isolate value=<none> ok=false");
    assert_eq!(s.oids.len(), 1);
    assert_eq!(s.oids[0].oid, "1.3.6.1.4.1.custom.relay");
    assert_eq!(s.oids[0].value, "on");
    apply_line(&mut s, "GWRESP SNMP oid=1.3.6.1.4.1.custom.relay value=off ok=true");
    assert_eq!(s.oids.len(), 1);
    assert_eq!(s.oids[0].value, "off");

    let get = extract_snmp(&GatewayCommand::SnmpGet { oid: "1.3.6.1.4.1.custom.relay".to_string() }, &s).unwrap();
    assert!(get.ok);
    assert_eq!(get.operation, "get");
    assert_eq!(get.value.as_deref(), Some("off"));
    assert_eq!(get.message, "hardware");
    let missing = extract_snmp(&GatewayCommand::SnmpSet { oid: "9".to_string(), value: "1".to_string() }, &s).unwrap();
    assert!(!missing.ok);
    assert_eq!(missing.operation, "set");
    assert_eq!(missing.value, None);
    assert!(extract_snmp(&GatewayCommand::SysHealth, &s).is_none());
}

#[test]
fn provision_lines_track_devices() {
    let mut s = default_hw_snapshot();
    apply_line(
        &mut s,
        "GWRESP PROVISION device_id=dev-1 state=pending fingerprint=cred-abc version=1 ok=true mac=AA:BB",
    );
    assert_eq!(s.devices.len(), 1);
    assert_eq!(s.devices[0].device_id, "dev-1");
    assert_eq!(s.devices[0].mac, "AA:BB");
    assert_eq!(s.devices[0].state, ProvisioningState::Pending);
    assert_eq!(s.devices[0].credential_fingerprint, "cred-abc");
    assert_eq!(s.devices[0].credential_version, 1);
    apply_line(&mut s, "GWRESP PROVISION device_id=dev-1 state=active fingerprint=<none> version=1 ok=true");
    assert_eq!(s.devices[0].state, ProvisioningState::Active);
    assert_eq!(s.devices[0].credential_fingerprint, "cred-abc");
    apply_line(&mut s, "GWRESP PROVISION device_id=ghost state=unknown fingerprint=<none> version=0 ok=false");
    assert_eq!(s.devices.len(), 1);
}

#[test]
fn wifi_mode_and_oid_setters() {
    let mut s = default_hw_snapshot();
    set_wifi_mode(&mut s, "sta");
    assert_eq!(s.wifi_mode, WifiMode::Sta);
    assert!(!s.downstream_online);
    set_wifi_mode(&mut s, "bogus");
    assert_eq!(s.wifi_mode, WifiMode::Sta);
    set_wifi_mode(&mut s, "ap_sta");
    assert!(s.downstream_online);
    upsert_oid(&mut s, "a", "1");
    upsert_oid(&mut s, "b", "2");
    upsert_oid(&mut s, "a", "3");
    assert_eq!(s.oids.len(), 2);
    assert_eq!(s.oids[0].value, "3");
    assert_eq!(s.oids[1].value, "2");
}

#[test]
fn hardware_responses() {
    let mut s = default_hw_snapshot();
    apply_line(&mut s, "GWRESP SNMP oid=1.3 value=on ok=true");
    let get = GatewayCommand::SnmpGet { oid: "1.3".to_string() };
    let r = hw_response(&get, Some("GWRESP SNMP oid=1.3 value=on ok=true".to_string()), s.clone());
    assert!(r.ok);
    assert_eq!(r.command, "CMD_SNMP_GET");
    assert_eq!(r.message, "GWRESP SNMP oid=1.3 value=on ok=true");
    assert_eq!(r.snmp.unwrap().value.as_deref(), Some("on"));
    let err = hw_response(&GatewayCommand::SysHealth, Some("ERR unknown command: X".to_string()), s.clone());
    assert!(!err.ok);
    assert!(err.snmp.is_none());
    let reg = GatewayCommand::RegisterNode { mac: "m".to_string(), ip: "i".to_string() };
    let none = hw_response(&reg, None, s);
    assert!(!none.ok);
    assert_eq!(none.message, "CMD_REGISTER_NODE is simulation-only; not supported on hardware");
}

#[test]
fn gateway_port_detection() {
    let paths: Vec<String> = ["/dev/null", "/dev/ttyACM1", "/dev/cu.usbmodem1101", "/dev/ttyACM0", "/dev/cu.usbserial-1"]
        .iter()
        .map(|s| s.to_string())
        .collect();
    assert_eq!(pick_gateway_port(&paths).as_deref(), Some("/dev/cu.usbmodem1101"));
    let linux: Vec<String> = vec!["/dev/ttyACM1".to_string(), "/dev/ttyACM0".to_string()];
    assert_eq!(pick_gateway_port(&linux).as_deref(), Some("/dev/ttyACM0"));
    let none: Vec<String> = vec!["/dev/tty".to_string(), "/dev/ttyAC".to_string()];
    assert_eq!(pick_gateway_port(&none), None);
}

#[test]
fn node_replies_are_read_back_by_the_host() {
    let mut s = default_hw_snapshot();
    let health = GwMsg::HealthResp { free_heap: 221272, uptime_ms: 5, rx_count: 2, wifi_mode: LinkWifiMode::Sta };
    apply_line(&mut s, &format_inbound(None, Ok(health)));
    assert_eq!(s.free_heap_bytes, 221272);
    assert_eq!(s.wifi_mode, WifiMode::Sta);
    assert!(!s.downstream_online);
    let toggle = GwMsg::ToggleResp { downstream_online: true, wifi_mode: LinkWifiMode::ApSta };
    apply_line(&mut s, &format_inbound(None, Ok(toggle)));
    assert!(s.downstream_online);
    let snmp = GwMsg::SnmpResp { oid: "1.3.6.1.4.1.custom.relay".to_string(), value: Some("on".to_string()), ok: true };
    apply_line(&mut s, &format_inbound(None, Ok(snmp)));
    let none = GwMsg::SnmpResp { oid: "1.3.6.1.4.1.custom.isolate".to_string(), value: None, ok: false };
    apply_line(&mut s, &format_inbound(None, Ok(none)));
    assert_eq!(s.oids.len(), 1);
    assert_eq!(s.oids[0].value, "on");
    let prov = GwMsg::ProvisionResp {
        device_id: "dev-1".to_string(),
        state: "active".to_string(),
        fingerprint: "cred-6084a7b08a5e4787".to_string(),
        version: 3,
        ok: true,
    };
    apply_line(&mut s, &format_inbound(None, Ok(prov)));
    assert_eq!(s.devices.len(), 1);
    assert_eq!(s.devices[0].state, ProvisioningState::Active);
    assert_eq!(s.devices[0].credential_version, 3);
    assert_eq!(s.devices[0].credential_fingerprint, "cred-6084a7b08a5e4787");
}

#[test]
fn host_command_lines_are_relayed_by_the_node() {
    let relay = |cmd: GatewayCommand| match parse_node_command(&command_to_line(&cmd).unwrap()) {
        NodeCommand::Gw(m) => m,
        other => panic!("not relayed: {:?}", other),
    };
    assert_eq!(relay(GatewayCommand::NetToggleDownstream), GwMsg::ToggleReq);
    assert_eq!(relay(GatewayCommand::SysHealth), GwMsg::HealthReq);
    assert_eq!(relay(GatewayCommand::StaList), GwMsg::StaListReq);
    assert_eq!(relay(GatewayCommand::DeauthSta { mac: "aa".to_string() }), GwMsg::DeauthReq);
    assert_eq!(
        relay(GatewayCommand::SnmpSet { oid: "1.3.6".to_string(), value: "on".to_string() }),
        GwMsg::SnmpSetReq { oid: "1.3.6".to_string(), value: "on".to_string() }
    );
    assert_eq!(
        relay(GatewayCommand::SnmpGet { oid: "1.3.6".to_string() }),
        GwMsg::SnmpGetReq { oid: "1.3.6".to_string() }
    );
    assert_eq!(
        relay(GatewayCommand::EnrollDevice { device_id: "dev-1".to_string(), mac: "AA:BB".to_string() }),
        GwMsg::EnrollReq { device_id: "dev-1".to_string(), mac: "AA:BB".to_string() }
    );
    assert_eq!(
        relay(GatewayCommand::ClaimDevice { device_id: "dev-1".to_string() }),
        GwMsg::ClaimReq { device_id: "dev-1".to_string() }
    );
    assert_eq!(
        relay(GatewayCommand::RotateCredential { device_id: "dev-1".to_string() }),
        GwMsg::RotateReq { device_id: "dev-1".to_string() }
    );
    assert_eq!(
        relay(GatewayCommand::RevokeDevice { device_id: "dev-1".to_string() }),
        GwMsg::RevokeReq { device_id: "dev-1".to_string() }
    );
}

#[test]
fn board_lines_are_trimmed() {
    assert_eq!(rf_telemetry::hw_backend::board_line("  GWRESP DEAUTH kicked=1 \r").as_deref(), Some("GWRESP DEAUTH kicked=1"));
    assert_eq!(rf_telemetry::hw_backend::board_line(" \t\r"), None);
    assert_eq!(rf_telemetry::hw_backend::board_line(""), None);
}

#[test]
fn hardware_round_trip_through_both_boards() {
    let mut board = Gateway::new();
    let mut snap = default_hw_snapshot();
    let mut round_trip = |cmd: GatewayCommand, snap: &mut GatewaySnapshot| {
        let msg = match parse_node_command(&command_to_line(&cmd).unwrap()) {
            NodeCommand::Gw(m) => m,
            other => panic!("not relayed: {:?}", other),
        };
        let reply = match board.handle_msg(msg) {
            GatewayAction::Reply(m) | GatewayAction::ApplyWifiThenReply(m) => m,
            other => panic!("no reply: {:?}", other),
        };
        apply_line(snap, &format_inbound(None, Ok(reply)));
    };
    round_trip(GatewayCommand::SnmpSet { oid: "1.3.6.1.4.1.custom.relay".to_string(), value: "on".to_string() }, &mut snap);
    let get = extract_snmp(&GatewayCommand::SnmpGet { oid: "1.3.6.1.4.1.custom.relay".to_string() }, &snap).unwrap();
    assert_eq!(get.value.as_deref(), Some("on"));
    round_trip(GatewayCommand::EnrollDevice { device_id: "dev-1".to_string(), mac: "AA:BB".to_string() }, &mut snap);
    assert_eq!(snap.devices.len(), 1);
    assert_eq!(snap.devices[0].state, ProvisioningState::Pending);
    assert_eq!(snap.devices[0].credential_version, 1);
    assert_eq!(snap.devices[0].credential_fingerprint, "cred-6084a7b08a5e4787");
    assert_eq!(snap.devices[0].mac, "");
    round_trip(GatewayCommand::NetToggleDownstream, &mut snap);
    assert!(!snap.downstream_online);
    assert_eq!(snap.wifi_mode, WifiMode::Sta);
}
