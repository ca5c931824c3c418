use chirpstack_mqtt_forwarder::backend::semtech_udp::structs::{
    CodeRate, ConversionError, Crc, DataRate, Modulation, PullResp, RxPk,
};
use chirpstack_mqtt_forwarder::backend::semtech_udp::{BackendError, State, Stats, StatsError};
use chirpstack_mqtt_forwarder::gw;

fn rxpk(datr: DataRate, codr: Option<CodeRate>, hpw: Option<u8>) -> RxPk {
    RxPk {
        time: None,
        tmms: None,
        tmst: 0,
        ftime: None,
        freq_hz: 868_100_000,
        chan: 0,
        rfch: 0,
        brd: 0,
        stat: Crc::Valid,
        modu: Modulation::Lora,
        datr,
        codr,
        rssi: 0,
        hpw,
        size: 0,
        data: vec![],
        rsig: vec![],
        meta: None,
    }
}

fn lora() -> gw::ModulationParameters {
    gw::ModulationParameters::Lora(gw::LoraModulationInfo {
        bandwidth: 125000,
        spreading_factor: 7,
        code_rate: 1,
        polarization_inversion: true,
        preamble: 0,
        no_crc: false,
    })
}

fn frame(tx_info: Option<gw::DownlinkTxInfo>) -> gw::DownlinkFrame {
    gw::DownlinkFrame {
        downlink_id: 3,
        gateway_id: String::new(),
        items: vec![gw::DownlinkFrameItem { phy_payload: vec![1], tx_info }],
    }
}

fn tx_info(
    modulation: Option<gw::Modulation>,
    timing: Option<gw::Timing>,
    context: Vec<u8>,
) -> Option<gw::DownlinkTxInfo> {
    Some(gw::DownlinkTxInfo { frequency: 868_100_000, power: 14, modulation, board: 0, antenna: 0, timing, context })
}

fn timing(p: Option<gw::TimingParameters>) -> Option<gw::Timing> {
    Some(gw::Timing { parameters: p })
}

fn modulation(p: Option<gw::ModulationParameters>) -> Option<gw::Modulation> {
    Some(gw::Modulation { parameters: p })
}

fn err(pl: &gw::DownlinkFrame) -> ConversionError {
    PullResp::from_proto(pl, 0, 1).unwrap_err()
}

#[test]
fn uplink_modulation_errors() {
    let rx = rxpk(DataRate::Lora(7, 125_000), None, None);
    assert!(matches!(rx.to_proto_with(&[0; 8], &[1], None), Err(ConversionError::CodrMissing)));
    let rx = rxpk(DataRate::LrFhss(137_000), Some(CodeRate::Cr46), None);
    assert!(matches!(rx.to_proto_with(&[0; 8], &[1], None), Err(ConversionError::HpwMissing)));
    let rx = rxpk(DataRate::LrFhss(137_000), None, Some(8));
    assert!(matches!(rx.to_proto(&[0; 8], false), Err(ConversionError::CodrMissing)));
}

#[test]
fn downlink_item_errors() {
    let ok_timing = timing(Some(gw::TimingParameters::Immediately));
    let ok_modulation = modulation(Some(lora()));

    let empty = gw::DownlinkFrame { downlink_id: 1, gateway_id: String::new(), items: vec![] };
    assert_eq!(err(&empty), ConversionError::InvalidIndex);
    assert_eq!(err(&frame(None)), ConversionError::TxInfoMissing);
    assert_eq!(err(&frame(tx_info(ok_modulation, None, vec![]))), ConversionError::TimingMissing);
    assert_eq!(
        err(&frame(tx_info(ok_modulation, timing(None), vec![]))),
        ConversionError::TimingParametersMissing
    );
    assert_eq!(err(&frame(tx_info(None, ok_timing, vec![]))), ConversionError::ModulationMissing);
    assert_eq!(
        err(&frame(tx_info(modulation(None), ok_timing, vec![]))),
        ConversionError::ModulationParametersMissing
    );
}

#[test]
fn downlink_timing_errors() {
    let m = modulation(Some(lora()));
    let one_second = Some(gw::Duration { seconds: 1, nanos: 0 });
    assert_eq!(
        err(&frame(tx_info(m, timing(Some(gw::TimingParameters::Delay(one_second))), vec![0, 0, 1]))),
        ConversionError::ContextTooShort
    );
    assert_eq!(
        err(&frame(tx_info(m, timing(Some(gw::TimingParameters::Delay(None))), vec![0, 0, 0, 1]))),
        ConversionError::DelayMissing
    );
    assert_eq!(
        err(&frame(tx_info(m, timing(Some(gw::TimingParameters::GpsEpoch(None))), vec![]))),
        ConversionError::TimeSinceGpsEpochMissing
    );
    assert_eq!(
        err(&frame(tx_info(
            m,
            timing(Some(gw::TimingParameters::Delay(Some(gw::Duration { seconds: -1, nanos: 0 })))),
            vec![0, 0, 0, 1]
        ))),
        ConversionError::DurationOutOfRange
    );
}

#[test]
fn delay_wraps_the_counter_and_gps_time_is_in_milliseconds() {
    let m = modulation(Some(lora()));
    let delay = Some(gw::Duration { seconds: 2, nanos: 500_000 });
    let pl = frame(tx_info(m, timing(Some(gw::TimingParameters::Delay(delay))), vec![0xff, 0xff, 0xff, 0xff]));
    assert_eq!(PullResp::from_proto(&pl, 0, 1).unwrap().payload.txpk.tmst, Some(2_000_499));
    let gps = Some(gw::Duration { seconds: 1_000, nanos: 1_500_000_000 });
    let pl = frame(tx_info(m, timing(Some(gw::TimingParameters::GpsEpoch(gps))), vec![]));
    assert_eq!(PullResp::from_proto(&pl, 0, 1).unwrap().payload.txpk.tmms, Some(1_001_500));
}

#[test]
fn backend_errors_carry_their_cause() {
    let mut state: State<u16> = State::new("01".to_string());
    state.set_pull_addr(1);
    let pl = frame(None);
    assert!(matches!(
        state.send_downlink_frame(pl, vec![gw::TxAckStatus::Ignored], 0, 0),
        Err(BackendError::Conversion(ConversionError::TxInfoMissing))
    ));

    let mut stats = Stats::new();
    let up = gw::UplinkFrame { phy_payload: vec![], tx_info: None, rx_info: None };
    assert_eq!(stats.count_uplink(&up), Err(StatsError::TxInfoMissing));
    let ack = gw::DownlinkTxAck { gateway_id: String::new(), downlink_id: 3, items: vec![gw::TxAckStatus::Success] };
    assert_eq!(stats.count_downlink(&frame(None), &ack), Err(StatsError::TxInfoMissing));
    // The status was counted before the item turned out to have no tx_info.
    assert_eq!(stats.export_stats().tx_packets_per_status, vec![(gw::TxAckStatus::Success, 1)]);
}

#[test]
fn failed_item_count_is_reported_after_tx_ack() {
    // A frame whose item has no tx_info is cached although no PULL_RESP can be
    // made for it; its acknowledgement then cannot be counted.
    let mut state: State<u16> = State::new("01".to_string());
    state.set_pull_addr(1);
    assert!(state.send_downlink_frame(frame(None), vec![gw::TxAckStatus::Ignored], 0, 0).is_err());
    let ack = chirpstack_mqtt_forwarder::backend::semtech_udp::structs::TxAck {
        random_token: 3,
        gateway_id: [0; 8],
        payload: None,
    };
    assert_eq!(state.handle_tx_ack(&ack, 1).err(), Some(BackendError::Stats(StatsError::TxInfoMissing)));
}

#[test]
fn out_of_range_numbers_keep_their_low_bits() {
    let m = modulation(Some(gw::ModulationParameters::Fsk(gw::FskModulationInfo {
        frequency_deviation: 70_000,
        datarate: 50_000,
    })));
    let mut info = tx_info(m, timing(Some(gw::TimingParameters::Immediately)), vec![]).unwrap();
    info.power = -1;
    info.antenna = 258;
    info.board = 511;
    let mut pl = frame(Some(info));
    pl.items[0].phy_payload = vec![0; 65_537];
    let txpk = PullResp::from_proto(&pl, 0, 1).unwrap().payload.txpk;
    assert_eq!((txpk.powe, txpk.ant, txpk.brd), (255, 2, 255));
    assert_eq!(txpk.fdev, Some(4_464));
    assert_eq!(txpk.size, 1);
}
