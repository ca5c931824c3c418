use std::collections::HashMap;

use chirpstack_mqtt_forwarder::backend::semtech_udp::structs::{
    CodeRate, Crc, DataRate, Modulation, PullResp, PullRespPayload, PushData, RSig, RxPk, Stat,
    TxPk,
};
use chirpstack_mqtt_forwarder::gw;

const GATEWAY_ID: [u8; 8] = [1, 2, 3, 4, 5, 6, 7, 8];

fn now() -> gw::Timestamp {
    gw::Timestamp { seconds: 1_662_813_015, nanos: 250_000_000 }
}

fn push_data() -> PushData {
    PushData { random_token: 123, gateway_id: GATEWAY_ID, payload: vec![] }
}

fn lora_rxpk() -> RxPk {
    RxPk {
        time: Some(now()),
        tmms: None,
        tmst: 1234,
        ftime: None,
        freq_hz: 868_100_000,
        chan: 5,
        rfch: 1,
        brd: 3,
        stat: Crc::Valid,
        modu: Modulation::Lora,
        datr: DataRate::Lora(7, 125000),
        codr: Some(CodeRate::Cr45),
        rssi: 120,
        hpw: None,
        size: 4,
        data: vec![4, 3, 2, 1],
        rsig: vec![],
        meta: None,
    }
}

fn lora_modulation(code_rate: i32) -> gw::ModulationParameters {
    gw::ModulationParameters::Lora(gw::LoraModulationInfo {
        bandwidth: 125000,
        spreading_factor: 7,
        code_rate,
        polarization_inversion: false,
        preamble: 0,
        no_crc: false,
    })
}

fn expected_frame(parameters: gw::ModulationParameters) -> gw::UplinkFrame {
    gw::UplinkFrame {
        phy_payload: vec![4, 3, 2, 1],
        tx_info: Some(gw::UplinkTxInfo {
            frequency: 868100000,
            modulation: Some(gw::Modulation { parameters: Some(parameters) }),
        }),
        rx_info: Some(gw::UplinkRxInfo {
            gateway_id: "0102030405060708".to_string(),
            uplink_id: 123,
            gw_time: Some(now()),
            time_since_gps_epoch: None,
            fine_time_since_gps_epoch: None,
            rssi: 120,
            channel: 5,
            rf_chain: 1,
            board: 3,
            antenna: 0,
            context: vec![0, 0, 4, 210],
            crc_status: gw::CrcStatus::CrcOk,
            rsig_index: None,
            metadata: HashMap::new(),
        }),
    }
}

fn stat(lati: f64, long: f64, alti: u32, meta: Option<HashMap<String, String>>) -> Stat {
    Stat {
        time: now(),
        lati_bits: lati.to_bits(),
        long_bits: long.to_bits(),
        alti,
        rxnb: 10,
        rxok: 5,
        rxfw: 5,
        ackr_bits: 99.9f32.to_bits(),
        dwnb: 30,
        txnb: 15,
        meta,
    }
}

fn expected_stats(
    location: Option<gw::Location>,
    metadata: HashMap<String, String>,
) -> gw::GatewayStats {
    gw::GatewayStats {
        gateway_id: "0102030405060708".to_string(),
        time: Some(now()),
        location,
        rx_packets_received: 10,
        rx_packets_received_ok: 5,
        tx_packets_received: 30,
        tx_packets_emitted: 15,
        metadata,
        tx_packets_per_frequency: HashMap::new(),
        rx_packets_per_frequency: HashMap::new(),
        tx_packets_per_modulation: vec![],
        rx_packets_per_modulation: vec![],
        tx_packets_per_status: vec![],
    }
}

fn gateway_name() -> HashMap<String, String> {
    let mut m = HashMap::new();
    m.insert("gateway_name".to_string(), "test-gateway".to_string());
    m
}

#[test]
fn test_push_data() {
    let b = vec![2, 123, 0, 0, 1, 2, 3, 4, 5, 6, 7, 8, 123, 125];
    let pl = PushData::from_slice(&b).unwrap();
    assert_eq!(
        pl,
        PushData { gateway_id: [1, 2, 3, 4, 5, 6, 7, 8], random_token: 123, payload: vec![123, 125] }
    );
}

#[test]
fn test_gateway_stats_no_location() {
    let s = stat(0.0, 0.0, 0, None);
    let stats = push_data().to_proto_gateway_stats(Some(&s));
    assert!(stats.is_some());
    assert_eq!(stats.unwrap(), expected_stats(None, HashMap::new()));
}

#[test]
fn test_gateway_stats_location() {
    let s = stat(1.1, 2.2, 3, None);
    let stats = push_data().to_proto_gateway_stats(Some(&s));
    assert!(stats.is_some());
    assert_eq!(
        stats.unwrap(),
        expected_stats(
            Some(gw::Location {
                latitude_bits: 1.1f64.to_bits(),
                longitude_bits: 2.2f64.to_bits(),
                altitude: 3,
                source: gw::LocationSource::Gps,
            }),
            HashMap::new(),
        )
    );
}

#[test]
fn test_gateway_stats_meta() {
    let s = stat(0.0, 0.0, 0, Some(gateway_name()));
    let stats = push_data().to_proto_gateway_stats(Some(&s));
    assert!(stats.is_some());
    assert_eq!(stats.unwrap(), expected_stats(None, gateway_name()));
}

#[test]
fn test_uplink_frame_no_pl() {
    let pl = push_data();
    assert_eq!(0, pl.to_proto_uplink_frames(&[], false).unwrap().len());
}

#[test]
fn test_uplink_frame_lora() {
    let rx = lora_rxpk();
    assert_eq!(1, push_data().to_proto_uplink_frames(&[rx.clone()], false).unwrap().len());
    let pl = rx.to_proto_with(&GATEWAY_ID, &[123], None).unwrap();
    assert_eq!(1, pl.len());
    assert_eq!(expected_frame(lora_modulation(1)), pl[0]);
}

#[test]
fn test_uplink_frame_lora_gps_time() {
    let mut rx = lora_rxpk();
    rx.tmms = Some(5_000);
    assert_eq!(1, push_data().to_proto_uplink_frames(&[rx.clone()], false).unwrap().len());
    let pl = rx.to_proto_with(&GATEWAY_ID, &[123], None).unwrap();
    assert_eq!(1, pl.len());
    let mut expected = expected_frame(lora_modulation(1));
    expected.rx_info.as_mut().unwrap().time_since_gps_epoch =
        Some(gw::Duration { seconds: 5, nanos: 0 });
    assert_eq!(expected, pl[0]);
}

#[test]
fn test_uplink_frame_lora_gps_and_fine_timestamp() {
    let mut rx = lora_rxpk();
    rx.tmms = Some(5_100);
    rx.ftime = Some(3_000_000);
    assert_eq!(1, push_data().to_proto_uplink_frames(&[rx.clone()], false).unwrap().len());
    let pl = rx.to_proto_with(&GATEWAY_ID, &[123], None).unwrap();
    assert_eq!(1, pl.len());
    let mut expected = expected_frame(lora_modulation(1));
    {
        let ri = expected.rx_info.as_mut().unwrap();
        ri.time_since_gps_epoch = Some(gw::Duration { seconds: 5, nanos: 100_000_000 });
        ri.fine_time_since_gps_epoch = Some(gw::Duration { seconds: 5, nanos: 3_000_000 });
    }
    assert_eq!(expected, pl[0]);
}

#[test]
fn test_uplink_frame_lora_rsig() {
    let mut rx = lora_rxpk();
    rx.chan = 0;
    rx.rssi = 0;
    rx.rsig = vec![RSig { ant: 1, chan: 5, rssic: 120 }, RSig { ant: 2, chan: 6, rssic: 130 }];
    assert_eq!(2, push_data().to_proto_uplink_frames(&[rx.clone()], false).unwrap().len());
    let pl = rx.to_proto_with(&GATEWAY_ID, &[7, 123, 123], None).unwrap();
    assert_eq!(2, pl.len());

    let mut first = expected_frame(lora_modulation(1));
    {
        let ri = first.rx_info.as_mut().unwrap();
        ri.rssi = 120;
        ri.channel = 5;
        ri.antenna = 1;
        ri.rsig_index = Some(0);
    }
    let mut second = expected_frame(lora_modulation(1));
    {
        let ri = second.rx_info.as_mut().unwrap();
        ri.rssi = 130;
        ri.channel = 6;
        ri.antenna = 2;
        ri.rsig_index = Some(1);
    }
    assert_eq!(vec![first, second], pl);
}

#[test]
fn test_uplink_frame_fsk() {
    let mut rx = lora_rxpk();
    rx.modu = Modulation::Fsk;
    rx.datr = DataRate::Fsk(50_000);
    rx.codr = None;
    assert_eq!(1, push_data().to_proto_uplink_frames(&[rx.clone()], false).unwrap().len());
    let pl = rx.to_proto_with(&GATEWAY_ID, &[123], None).unwrap();
    assert_eq!(1, pl.len());
    assert_eq!(
        expected_frame(gw::ModulationParameters::Fsk(gw::FskModulationInfo {
            frequency_deviation: 0,
            datarate: 50_000,
        })),
        pl[0]
    );
}

#[test]
fn test_uplink_frame_lr_fhss() {
    let mut rx = lora_rxpk();
    rx.modu = Modulation::LrFhss;
    rx.datr = DataRate::LrFhss(137_000);
    rx.codr = Some(CodeRate::Cr46);
    rx.hpw = Some(8);
    assert_eq!(1, push_data().to_proto_uplink_frames(&[rx.clone()], false).unwrap().len());
    let pl = rx.to_proto_with(&GATEWAY_ID, &[123], None).unwrap();
    assert_eq!(1, pl.len());
    assert_eq!(
        expected_frame(gw::ModulationParameters::LrFhss(gw::LrFhssModulationInfo {
            operating_channel_width: 137_000,
            code_rate: 2,
            grid_steps: 8,
        })),
        pl[0]
    );
}

#[test]
fn test_uplink_frame_lora_with_meta() {
    let mut rx = lora_rxpk();
    rx.meta = Some(gateway_name());
    assert_eq!(1, push_data().to_proto_uplink_frames(&[rx.clone()], false).unwrap().len());
    let pl = rx.to_proto_with(&GATEWAY_ID, &[123], None).unwrap();
    assert_eq!(1, pl.len());
    let mut expected = expected_frame(lora_modulation(1));
    expected.rx_info.as_mut().unwrap().metadata = gateway_name();
    assert_eq!(expected, pl[0]);
}

#[test]
fn test_uplink_no_time() {
    let mut rx = lora_rxpk();
    rx.time = None;
    let pl = push_data().to_proto_uplink_frames(&[rx], false).unwrap();
    assert_eq!(1, pl.len());
    assert!(pl[0].rx_info.as_ref().unwrap().gw_time.is_none());
}

#[test]
fn test_uplink_no_time_time_fallback_enabled() {
    let mut rx = lora_rxpk();
    rx.time = None;
    let pl = push_data().to_proto_uplink_frames(&[rx], true).unwrap();
    assert_eq!(1, pl.len());
    assert!(pl[0].rx_info.as_ref().unwrap().gw_time.is_some());
}

fn downlink(parameters: gw::ModulationParameters, timing: gw::TimingParameters) -> gw::DownlinkFrame {
    gw::DownlinkFrame {
        downlink_id: 0,
        gateway_id: String::new(),
        items: vec![gw::DownlinkFrameItem {
            phy_payload: vec![1, 2, 3, 4],
            tx_info: Some(gw::DownlinkTxInfo {
                frequency: 868100000,
                power: 16,
                modulation: Some(gw::Modulation { parameters: Some(parameters) }),
                board: 1,
                antenna: 2,
                timing: Some(gw::Timing { parameters: Some(timing) }),
                context: vec![0, 0, 0, 1],
            }),
        }],
    }
}

fn downlink_lora() -> gw::ModulationParameters {
    gw::ModulationParameters::Lora(gw::LoraModulationInfo {
        bandwidth: 125000,
        spreading_factor: 7,
        code_rate: 1,
        polarization_inversion: true,
        preamble: 0,
        no_crc: false,
    })
}

fn expected_lora_txpk(imme: bool, tmst: Option<u32>, tmms: Option<u64>) -> PullResp {
    PullResp {
        random_token: 4321,
        payload: PullRespPayload {
            txpk: TxPk {
                imme,
                rfch: 0,
                powe: 16,
                ant: 2,
                brd: 1,
                tmst,
                tmms,
                freq_hz: 868_100_000,
                modu: Modulation::Lora,
                datr: DataRate::Lora(7, 125_000),
                codr: Some(CodeRate::Cr45),
                fdev: None,
                ncrc: None,
                ipol: Some(true),
                prea: None,
                size: 4,
                data: vec![1, 2, 3, 4],
            },
        },
    }
}

#[test]
fn test_downlink_lora_delay() {
    let pl = downlink(
        downlink_lora(),
        gw::TimingParameters::Delay(Some(gw::Duration { seconds: 1, nanos: 0 })),
    );
    let pl = PullResp::from_proto(&pl, 0, 4321).unwrap();
    assert_eq!(expected_lora_txpk(false, Some(1_000_001), None), pl);
}

#[test]
fn test_downlink_lora_gps_time() {
    let pl = downlink(
        downlink_lora(),
        gw::TimingParameters::GpsEpoch(Some(gw::Duration { seconds: 5, nanos: 0 })),
    );
    let pl = PullResp::from_proto(&pl, 0, 4321).unwrap();
    assert_eq!(expected_lora_txpk(false, None, Some(5_000)), pl);
}

#[test]
fn test_downlink_lora_immediately() {
    let pl = downlink(downlink_lora(), gw::TimingParameters::Immediately);
    let pl = PullResp::from_proto(&pl, 0, 4321).unwrap();
    assert_eq!(expected_lora_txpk(true, None, None), pl);
}

#[test]
fn test_downlink_fsk_delay() {
    let pl = downlink(
        gw::ModulationParameters::Fsk(gw::FskModulationInfo {
            datarate: 50_000,
            frequency_deviation: 25_000,
        }),
        gw::TimingParameters::Delay(Some(gw::Duration { seconds: 1, nanos: 0 })),
    );
    let pl = PullResp::from_proto(&pl, 0, 4321).unwrap();
    assert_eq!(
        PullResp {
            random_token: 4321,
            payload: PullRespPayload {
                txpk: TxPk {
                    imme: false,
                    rfch: 0,
                    powe: 16,
                    ant: 2,
                    brd: 1,
                    tmst: Some(1_000_001),
                    tmms: None,
                    freq_hz: 868_100_000,
                    modu: Modulation::Fsk,
                    datr: DataRate::Fsk(50_000),
                    codr: None,
                    fdev: Some(25_000),
                    ncrc: None,
                    ipol: None,
                    prea: None,
                    size: 4,
                    data: vec![1, 2, 3, 4],
                },
            },
        },
        pl
    );
}
