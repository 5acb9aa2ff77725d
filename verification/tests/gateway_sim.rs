use rf_telemetry::gateway::{GatewayCommand, GatewayResponse, ProvisioningState, WifiMode};
use rf_telemetry::gateway_sim::GatewaySim;
use rf_telemetry::device_gateway::{Gateway, GatewayAction};
use rf_telemetry::gwlink::GwMsg;

#[test]
fn toggle_downstream_switches_wifi_mode() {
    let mut gw = GatewaySim::new();
    assert_eq!(gw.wifi_mode(), WifiMode::ApSta);
    let resp = gw.apply(&GatewayCommand::NetToggleDownstream);
    assert!(resp.ok);
    assert_eq!(gw.wifi_mode(), WifiMode::Sta);
    assert!(!resp.snapshot.downstream_online);
    gw.apply(&GatewayCommand::NetToggleDownstream);
    assert_eq!(gw.wifi_mode(), WifiMode::ApSta);
}

#[test]
fn snmp_set_then_get_roundtrips() {
    let mut gw = GatewaySim::new();
    let set = gw.apply(&GatewayCommand::SnmpSet {
        oid: "1.3.6.1.4.1.custom.isolate".to_string(),
        value: "true".to_string(),
    });
    assert!(set.ok);
    let get = gw.apply(&GatewayCommand::SnmpGet {
        oid: "1.3.6.1.4.1.custom.isolate".to_string(),
    });
    let snmp = get.snmp.unwrap();
    assert!(snmp.ok);
    assert_eq!(snmp.value.as_deref(), Some("true"));
}

#[test]
fn snmp_fails_when_downstream_offline() {
    let mut gw = GatewaySim::new();
    gw.apply(&GatewayCommand::NetToggleDownstream);
    let get = gw.apply(&GatewayCommand::SnmpGet {
        oid: "1.3.6.1.4.1.custom.relay".to_string(),
    });
    assert!(!get.ok);
    assert!(!get.snmp.unwrap().ok);
}

#[test]
fn deauth_removes_station() {
    let mut gw = GatewaySim::new();
    let before = gw.snapshot().nodes.len();
    let resp = gw.apply(&GatewayCommand::DeauthSta {
        mac: "24:6f:28:00:00:01".to_string(),
    });
    assert!(resp.ok);
    assert_eq!(gw.snapshot().nodes.len(), before - 1);
}

#[test]
fn register_node_is_idempotent() {
    let mut gw = GatewaySim::new();
    let first = gw.apply(&GatewayCommand::RegisterNode {
        mac: "AA:BB:CC:DD:EE:FF".to_string(),
        ip: "192.168.4.3".to_string(),
    });
    assert!(first.ok);
    let second = gw.apply(&GatewayCommand::RegisterNode {
        mac: "aa:bb:cc:dd:ee:ff".to_string(),
        ip: "192.168.4.3".to_string(),
    });
    assert!(!second.ok);
}

#[test]
fn sys_health_reports_decreasing_heap() {
    let mut gw = GatewaySim::new();
    let start = gw.snapshot().free_heap_bytes;
    gw.apply(&GatewayCommand::SysHealth);
    assert!(gw.snapshot().free_heap_bytes < start);
}

fn enroll(gw: &mut GatewaySim, id: &str, mac: &str) -> GatewayResponse {
    gw.apply(&GatewayCommand::EnrollDevice {
        device_id: id.to_string(),
        mac: mac.to_string(),
    })
}

#[test]
fn provisioning_full_lifecycle() {
    let mut gw = GatewaySim::new();
    let e = enroll(&mut gw, "dev-1", "AA:BB:CC:00:00:01");
    assert!(e.ok);
    let dev = &e.snapshot.devices[0];
    assert_eq!(dev.state, ProvisioningState::Pending);
    assert_eq!(dev.credential_version, 1);
    assert!(dev.credential_fingerprint.starts_with("cred-"));

    let nodes_before = gw.snapshot().nodes.len();
    let claim = gw.apply(&GatewayCommand::ClaimDevice {
        device_id: "dev-1".to_string(),
    });
    assert!(claim.ok);
    assert_eq!(claim.snapshot.devices[0].state, ProvisioningState::Active);
    assert_eq!(claim.snapshot.nodes.len(), nodes_before + 1);

    let prev = claim.snapshot.devices[0].credential_fingerprint.clone();
    let rot = gw.apply(&GatewayCommand::RotateCredential {
        device_id: "dev-1".to_string(),
    });
    assert!(rot.ok);
    assert_eq!(rot.snapshot.devices[0].credential_version, 2);
    assert_ne!(rot.snapshot.devices[0].credential_fingerprint, prev);

    let rev = gw.apply(&GatewayCommand::RevokeDevice {
        device_id: "dev-1".to_string(),
    });
    assert!(rev.ok);
    assert_eq!(rev.snapshot.devices[0].state, ProvisioningState::Revoked);
    assert!(!rev.snapshot.nodes.iter().any(|n| n.mac == "AA:BB:CC:00:00:01"));
}

#[test]
fn duplicate_enroll_rejected() {
    let mut gw = GatewaySim::new();
    assert!(enroll(&mut gw, "dev-1", "AA:BB:CC:00:00:01").ok);
    assert!(!enroll(&mut gw, "dev-1", "AA:BB:CC:00:00:02").ok);
    assert_eq!(gw.snapshot().devices.len(), 1);
}

#[test]
fn claim_unknown_or_non_pending_rejected() {
    let mut gw = GatewaySim::new();
    assert!(!gw
        .apply(&GatewayCommand::ClaimDevice {
            device_id: "ghost".to_string(),
        })
        .ok);
    enroll(&mut gw, "dev-1", "AA:BB:CC:00:00:01");
    assert!(gw
        .apply(&GatewayCommand::ClaimDevice {
            device_id: "dev-1".to_string(),
        })
        .ok);
    assert!(!gw
        .apply(&GatewayCommand::ClaimDevice {
            device_id: "dev-1".to_string(),
        })
        .ok);
}

#[test]
fn revoked_device_cannot_rotate() {
    let mut gw = GatewaySim::new();
    enroll(&mut gw, "dev-1", "AA:BB:CC:00:00:01");
    gw.apply(&GatewayCommand::RevokeDevice {
        device_id: "dev-1".to_string(),
    });
    assert!(!gw
        .apply(&GatewayCommand::RotateCredential {
            device_id: "dev-1".to_string(),
        })
        .ok);
}

#[test]
fn sta_list_reports_online_stations() {
    let mut gw = GatewaySim::new();
    let resp = gw.apply(&GatewayCommand::StaList);
    assert!(resp.ok);
    assert_eq!(resp.snapshot.station_count, 1);
    assert!(resp.message.contains("stations=1"));
    gw.apply(&GatewayCommand::NetToggleDownstream);
    assert_eq!(gw.snapshot().station_count, 0);
}

#[test]
fn default_matches_new() {
    let a = GatewaySim::default().snapshot();
    let b = GatewaySim::new().snapshot();
    assert_eq!(a.free_heap_bytes, b.free_heap_bytes);
    assert_eq!(a.oids, b.oids);
    assert_eq!(a.nodes, b.nodes);
    assert_eq!(a.command_count, 0);
    assert_eq!(a.oids.len(), 2);
    assert_eq!(a.oids[0].oid, "1.3.6.1.4.1.custom.isolate");
    assert_eq!(a.oids[0].value, "false");
    assert_eq!(a.oids[1].value, "off");
}

#[test]
fn toggling_twice_restores_state_and_counts_commands() {
    let mut gw = GatewaySim::new();
    let before = gw.snapshot();
    gw.apply(&GatewayCommand::NetToggleDownstream);
    let after = gw.apply(&GatewayCommand::NetToggleDownstream).snapshot;
    assert_eq!(after.downstream_online, before.downstream_online);
    assert_eq!(after.wifi_mode, before.wifi_mode);
    assert_eq!(after.station_count, before.station_count);
    assert_eq!(after.command_count, 2);
    assert_eq!(after.command_log.len(), 2);
}

#[test]
fn snmp_get_unknown_oid_reports_missing_value() {
    let mut gw = GatewaySim::new();
    let get = gw.apply(&GatewayCommand::SnmpGet { oid: "1.2.3".to_string() });
    let snmp = get.snmp.unwrap();
    assert!(!snmp.ok);
    assert_eq!(snmp.value, None);
}

#[test]
fn snmp_set_fails_offline_and_keeps_mib() {
    let mut gw = GatewaySim::new();
    gw.apply(&GatewayCommand::NetToggleDownstream);
    let set = gw.apply(&GatewayCommand::SnmpSet {
        oid: "1.3.6.1.4.1.custom.relay".to_string(),
        value: "on".to_string(),
    });
    assert!(!set.ok);
    let relay = set.snapshot.oids.iter().find(|e| e.oid == "1.3.6.1.4.1.custom.relay").unwrap();
    assert_eq!(relay.value, "off");
}

#[test]
fn deauth_unknown_station_fails() {
    let mut gw = GatewaySim::new();
    let resp = gw.apply(&GatewayCommand::DeauthSta { mac: "00:00:00:00:00:00".to_string() });
    assert!(!resp.ok);
    assert_eq!(resp.snapshot.nodes.len(), 1);
}

#[test]
fn no_stations_listed_when_severed() {
    let mut gw = GatewaySim::new();
    gw.apply(&GatewayCommand::NetToggleDownstream);
    let resp = gw.apply(&GatewayCommand::StaList);
    assert_eq!(resp.snapshot.station_count, 0);
    assert!(resp.message.contains("stations=0"));
}

#[test]
fn command_names() {
    assert_eq!(GatewayCommand::NetToggleDownstream.name(), "CMD_NET_TOGGLE_DOWNSTREAM");
    assert_eq!(GatewayCommand::SysHealth.name(), "CMD_SYS_HEALTH");
}

#[test]
fn fresh_gateway_fits_every_command() {
    let gw = GatewaySim::new();
    assert!(gw.fits_counters(&GatewayCommand::SysHealth));
    assert!(gw.fits_counters(&GatewayCommand::EnrollDevice { device_id: "d".to_string(), mac: "m".to_string() }));
    assert!(gw.fits_counters(&GatewayCommand::RotateCredential { device_id: "d".to_string() }));
}

#[test]
fn mib_stays_sorted() {
    let mut gw = GatewaySim::new();
    for oid in ["9.9", "1.1", "1.3.6.1.4.1.custom.j", "0", "1.1"] {
        gw.apply(&GatewayCommand::SnmpSet { oid: oid.to_string(), value: "v".to_string() });
    }
    let keys: Vec<String> = gw.snapshot().oids.iter().map(|e| e.oid.clone()).collect();
    let mut sorted = keys.clone();
    sorted.sort();
    assert_eq!(keys, sorted);
    assert_eq!(keys.len(), 6);
}

#[test]
fn failed_commands_change_only_the_accounting() {
    let mut gw = GatewaySim::new();
    let before = gw.snapshot();
    let refused = [
        GatewayCommand::ClaimDevice { device_id: "ghost".to_string() },
        GatewayCommand::RotateCredential { device_id: "ghost".to_string() },
        GatewayCommand::RevokeDevice { device_id: "ghost".to_string() },
        GatewayCommand::DeauthSta { mac: "00:00:00:00:00:00".to_string() },
        GatewayCommand::SnmpGet { oid: "1.2.3".to_string() },
        GatewayCommand::RegisterNode { mac: "24:6f:28:00:00:01".to_string(), ip: "10.0.0.1".to_string() },
    ];
    for (k, cmd) in refused.iter().enumerate() {
        let r = gw.apply(cmd);
        assert!(!r.ok);
        assert_eq!(r.command, cmd.name());
        let after = gw.snapshot();
        assert_eq!(after.downstream_online, before.downstream_online);
        assert_eq!(after.oids, before.oids);
        assert_eq!(after.nodes, before.nodes);
        assert_eq!(after.devices, before.devices);
        assert_eq!(after.command_count, (k + 1) as u32);
        assert_eq!(after.command_log[0], format!("{}: {}", r.command, r.message));
    }
}

#[test]
fn recording_consumes_heap_and_keeps_twenty_lines() {
    let mut gw = GatewaySim::new();
    let start = gw.snapshot().free_heap_bytes;
    assert_eq!(start, 327_680 - 1_280);
    gw.apply(&GatewayCommand::SysHealth);
    assert_eq!(gw.snapshot().free_heap_bytes, start - 1_280);
    for _ in 0..300 {
        gw.apply(&GatewayCommand::StaList);
    }
    let s = gw.snapshot();
    assert_eq!(s.free_heap_bytes, 40_960);
    assert_eq!(s.command_log.len(), 20);
    assert_eq!(s.command_count, 301);
    assert!(s.command_log[0].starts_with("CMD_STA_LIST"));
}

#[test]
fn reachable_states_keep_their_invariants() {
    let mut gw = GatewaySim::new();
    let cmds = vec![
        GatewayCommand::RegisterNode { mac: "AA:AA:AA:00:00:01".to_string(), ip: "192.168.4.3".to_string() },
        GatewayCommand::RegisterNode { mac: "aa:aa:aa:00:00:01".to_string(), ip: "192.168.4.4".to_string() },
        GatewayCommand::EnrollDevice { device_id: "d1".to_string(), mac: "BB:00:00:00:00:01".to_string() },
        GatewayCommand::EnrollDevice { device_id: "d1".to_string(), mac: "BB:00:00:00:00:02".to_string() },
        GatewayCommand::ClaimDevice { device_id: "d1".to_string() },
        GatewayCommand::NetToggleDownstream,
        GatewayCommand::EnrollDevice { device_id: "d2".to_string(), mac: "bb:00:00:00:00:01".to_string() },
        GatewayCommand::ClaimDevice { device_id: "d2".to_string() },
        GatewayCommand::SnmpSet { oid: "0.9".to_string(), value: "x".to_string() },
        GatewayCommand::NetToggleDownstream,
        GatewayCommand::SnmpSet { oid: "0.9".to_string(), value: "y".to_string() },
        GatewayCommand::SnmpSet { oid: "9.9".to_string(), value: "z".to_string() },
        GatewayCommand::RevokeDevice { device_id: "d1".to_string() },
        GatewayCommand::RotateCredential { device_id: "d2".to_string() },
    ];
    for cmd in &cmds {
        assert!(gw.fits_counters(cmd));
        gw.apply(cmd);
        let s = gw.snapshot();
        assert_eq!(s.wifi_mode, if s.downstream_online { WifiMode::ApSta } else { WifiMode::Sta });
        assert!(s.nodes.iter().all(|n| n.online == s.downstream_online));
        assert_eq!(s.station_count, if s.downstream_online { s.nodes.len() as u32 } else { 0 });
        assert!(40_960 <= s.free_heap_bytes && s.free_heap_bytes <= 326_400);
        assert!(s.oids.windows(2).all(|w| w[0].oid < w[1].oid));
        assert!(s.command_log.len() <= 20);
        for i in 0..s.devices.len() {
            for j in i + 1..s.devices.len() {
                assert_ne!(s.devices[i].device_id, s.devices[j].device_id);
            }
        }
        for i in 0..s.nodes.len() {
            for j in i + 1..s.nodes.len() {
                assert!(!s.nodes[i].mac.eq_ignore_ascii_case(&s.nodes[j].mac));
            }
        }
    }
    let s = gw.snapshot();
    assert_eq!(s.devices.len(), 2);
    assert_eq!(s.oids.len(), 4);
}

#[test]
fn credentials_are_issued_in_sequence() {
    let mut gw = GatewaySim::new();
    let fp1 = enroll(&mut gw, "dev-1", "AA:BB:CC:00:00:01").snapshot.devices[0].credential_fingerprint.clone();
    assert_eq!(fp1.len(), 21);
    assert!(fp1.starts_with("cred-"));
    assert!(fp1[5..].chars().all(|c| c.is_ascii_digit() || ('a'..='f').contains(&c)));
    let rot = gw.apply(&GatewayCommand::RotateCredential { device_id: "dev-1".to_string() });
    let fp2 = rot.snapshot.devices[0].credential_fingerprint.clone();
    assert_eq!(fp2.len(), 21);
    assert_ne!(fp1, fp2);
}

#[test]
fn host_and_board_issue_the_same_fingerprint() {
    let mut host = GatewaySim::new();
    let h = enroll(&mut host, "dev-1", "AA:BB:CC:00:00:01").snapshot.devices[0].clone();
    let mut board = Gateway::new();
    match board.handle_msg(GwMsg::EnrollReq { device_id: "dev-1".to_string(), mac: "AA:BB:CC:00:00:01".to_string() }) {
        GatewayAction::Reply(GwMsg::ProvisionResp { fingerprint, version, .. }) => {
            assert_eq!(fingerprint, h.credential_fingerprint);
            assert_eq!(version, h.credential_version);
        }
        other => panic!("unexpected {:?}", other),
    }
}

#[test]
fn host_and_board_rotate_to_the_same_fingerprint() {
    let mut host = GatewaySim::new();
    enroll(&mut host, "dev-1", "AA:BB:CC:00:00:01");
    let h = host.apply(&GatewayCommand::RotateCredential { device_id: "dev-1".to_string() }).snapshot.devices[0].clone();
    let mut board = Gateway::new();
    board.handle_msg(GwMsg::EnrollReq { device_id: "dev-1".to_string(), mac: "AA:BB:CC:00:00:01".to_string() });
    match board.handle_msg(GwMsg::RotateReq { device_id: "dev-1".to_string() }) {
        GatewayAction::Reply(GwMsg::ProvisionResp { fingerprint, version, ok, .. }) => {
            assert!(ok);
            assert_eq!(fingerprint, h.credential_fingerprint);
            assert_eq!(version, 2);
            assert_eq!(h.credential_version, 2);
        }
        other => panic!("unexpected {:?}", other),
    }
}
