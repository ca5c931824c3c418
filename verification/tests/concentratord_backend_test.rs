use std::collections::HashMap;

use chirpstack_mqtt_forwarder::backend::concentratord::{
    can_decide, check_gateway_id, uplink_action, UplinkAction,
};
use chirpstack_mqtt_forwarder::backend::{backend_kind, BackendKind};
use chirpstack_mqtt_forwarder::config::{DevAddrPrefix, EuiPrefix, Filters, PrefixError};
use chirpstack_mqtt_forwarder::gw;

fn frame(phy_payload: Vec<u8>, crc: Option<gw::CrcStatus>) -> gw::UplinkFrame {
    gw::UplinkFrame {
        phy_payload,
        tx_info: None,
        rx_info: crc.map(|c| gw::UplinkRxInfo {
            gateway_id: "0102030405060708".to_string(),
            uplink_id: 1,
            gw_time: None,
            time_since_gps_epoch: None,
            fine_time_since_gps_epoch: None,
            rssi: 0,
            channel: 0,
            rf_chain: 0,
            board: 0,
            antenna: 0,
            context: vec![],
            crc_status: c,
            rsig_index: None,
            metadata: HashMap::new(),
        }),
    }
}

// Unconfirmed data up with DevAddr 01020304 (little endian on the air).
fn data_up() -> Vec<u8> {
    vec![0x40, 0x04, 0x03, 0x02, 0x01, 0x00, 0x00, 0x00]
}

#[test]
fn crc_flags_decide_first() {
    let f = Filters::default();
    assert_eq!(uplink_action(&frame(data_up(), Some(gw::CrcStatus::CrcOk)), &f), UplinkAction::Forward);
    assert_eq!(
        uplink_action(&frame(data_up(), Some(gw::CrcStatus::BadCrc)), &f),
        UplinkAction::IgnoredCrc
    );
    assert_eq!(
        uplink_action(&frame(data_up(), Some(gw::CrcStatus::NoCrc)), &f),
        UplinkAction::IgnoredCrc
    );
    assert_eq!(uplink_action(&frame(data_up(), None), &f), UplinkAction::Forward);
    let f = Filters { forward_crc_missing: true, ..Filters::default() };
    assert_eq!(uplink_action(&frame(data_up(), Some(gw::CrcStatus::NoCrc)), &f), UplinkAction::Forward);
}

#[test]
fn dev_addr_prefixes_filter_data_uplinks() {
    let matching = Filters {
        dev_addr_prefixes: vec![DevAddrPrefix::parse("01000000/8").unwrap()],
        ..Filters::default()
    };
    let other = Filters {
        dev_addr_prefixes: vec![DevAddrPrefix::parse("02000000/8").unwrap()],
        ..Filters::default()
    };
    let up = frame(data_up(), Some(gw::CrcStatus::CrcOk));
    assert_eq!(uplink_action(&up, &matching), UplinkAction::Forward);
    assert_eq!(uplink_action(&up, &other), UplinkAction::IgnoredFilters);
    // A frame that carries no DevAddr passes.
    assert_eq!(uplink_action(&frame(vec![0xe0], Some(gw::CrcStatus::CrcOk)), &other), UplinkAction::Forward);
}

#[test]
fn gateway_id_must_have_16_characters() {
    assert_eq!(check_gateway_id("0102030405060708".to_string()).unwrap(), "0102030405060708");
    let e = check_gateway_id("01020304".to_string()).unwrap_err();
    assert_eq!(e.gateway_id, "01020304");
}

#[test]
fn backend_by_name() {
    assert_eq!(backend_kind("semtech_udp"), Ok(BackendKind::SemtechUdp));
    assert_eq!(backend_kind("concentratord"), Ok(BackendKind::Concentratord));
    assert_eq!(backend_kind("basic_station").unwrap_err().name, "basic_station");
}

#[test]
fn join_eui_prefixes_filter_join_requests() {
    // Join-request with JoinEUI 0102030405060708 (little endian on the air).
    let mut join = vec![0x00, 8, 7, 6, 5, 4, 3, 2, 1];
    join.extend_from_slice(&[0; 8]);
    let up = frame(join, Some(gw::CrcStatus::CrcOk));
    let matching = Filters {
        join_eui_prefixes: vec![EuiPrefix::parse("0102000000000000/16").unwrap()],
        ..Filters::default()
    };
    let other = Filters {
        join_eui_prefixes: vec![EuiPrefix::parse("ff00000000000000/8").unwrap()],
        ..Filters::default()
    };
    assert_eq!(uplink_action(&up, &matching), UplinkAction::Forward);
    assert_eq!(uplink_action(&up, &other), UplinkAction::IgnoredFilters);
}

#[test]
fn prefix_size_zero_cannot_be_compared() {
    let f = Filters { dev_addr_prefixes: vec![DevAddrPrefix::parse("01000000/0").unwrap()], ..Filters::default() };
    assert!(!can_decide(&frame(data_up(), Some(gw::CrcStatus::CrcOk)), &f));
    // Frames that the CRC flags drop, or that carry no DevAddr, never reach the prefixes.
    assert!(can_decide(&frame(data_up(), Some(gw::CrcStatus::BadCrc)), &f));
    assert!(can_decide(&frame(vec![0xe0], Some(gw::CrcStatus::CrcOk)), &f));
    assert!(can_decide(&frame(data_up(), Some(gw::CrcStatus::CrcOk)), &Filters::default()));
}

#[test]
fn prefix_texts() {
    let p = DevAddrPrefix::parse("0000FF00/24").unwrap();
    assert_eq!((p.prefix, p.size), ([0, 0, 0xff, 0], 24));
    assert_eq!(p.to_text(), "0000ff00/24");
    let e = EuiPrefix::parse("0000ff0000000000/+24").unwrap();
    assert_eq!((e.prefix, e.size), ([0, 0, 0xff, 0, 0, 0, 0, 0], 24));
    assert_eq!(e.to_text(), "0000ff0000000000/24");
    assert_eq!(DevAddrPrefix::parse("01020304"), Err(PrefixError::Format));
    assert_eq!(DevAddrPrefix::parse("01020304/8/8"), Err(PrefixError::Format));
    assert_eq!(DevAddrPrefix::parse("010203/8"), Err(PrefixError::Format));
    assert_eq!(DevAddrPrefix::parse("0102030g/8"), Err(PrefixError::Hex));
    assert_eq!(DevAddrPrefix::parse("01020304/x"), Err(PrefixError::Format));
    assert_eq!(DevAddrPrefix::parse("01020304/33"), Err(PrefixError::Size));
    assert_eq!(EuiPrefix::parse("0102030405060708/65"), Err(PrefixError::Size));
    assert_eq!(EuiPrefix::parse("0102030405060708/64").unwrap().size, 64);
}
