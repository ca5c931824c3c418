use chirpstack_mqtt_forwarder::backend::semtech_udp::structs::{
    CodeRate, Crc, DataRate, DataRateError, Datr, Modulation, PacketError, PullAck, PullData,
    PushAck, PushData, RxPk, TxAck, TxAckPayload, TxPkAck,
};
use chirpstack_mqtt_forwarder::backend::semtech_udp::{
    datagram_kind, initial_acks, BackendError, DatagramKind, State, Stats, StatsError,
    TxAckAction,
};
use chirpstack_mqtt_forwarder::gw;

fn lora(sf: u32) -> gw::Modulation {
    gw::Modulation {
        parameters: Some(gw::ModulationParameters::Lora(gw::LoraModulationInfo {
            bandwidth: 125000,
            spreading_factor: sf,
            code_rate: 1,
            polarization_inversion: false,
            preamble: 0,
            no_crc: false,
        })),
    }
}

fn uplink(freq: u32, m: Option<gw::Modulation>) -> gw::UplinkFrame {
    gw::UplinkFrame {
        phy_payload: vec![1],
        tx_info: Some(gw::UplinkTxInfo { frequency: freq, modulation: m }),
        rx_info: None,
    }
}

fn item(freq: u32) -> gw::DownlinkFrameItem {
    gw::DownlinkFrameItem {
        phy_payload: vec![1, 2, 3],
        tx_info: Some(gw::DownlinkTxInfo {
            frequency: freq,
            power: 14,
            modulation: Some(lora(7)),
            board: 0,
            antenna: 0,
            timing: Some(gw::Timing { parameters: Some(gw::TimingParameters::Immediately) }),
            context: vec![0, 0, 0, 1],
        }),
    }
}

fn frame(downlink_id: u32) -> gw::DownlinkFrame {
    gw::DownlinkFrame {
        downlink_id,
        gateway_id: "0102030405060708".to_string(),
        items: vec![item(868_100_000), item(869_525_000)],
    }
}

fn tx_ack(token: u16, error: Option<&str>) -> TxAck {
    TxAck {
        random_token: token,
        gateway_id: [1, 2, 3, 4, 5, 6, 7, 8],
        payload: error.map(|e| TxAckPayload { txpk_ack: TxPkAck { error: e.to_string() } }),
    }
}

#[test]
fn push_and_pull_ack_echo_the_token() {
    assert_eq!(vec![2, 0x39, 0x30, 1], PushAck { random_token: 12345 }.to_vec());
    assert_eq!(vec![2, 0x39, 0x30, 4], PullAck { random_token: 12345 }.to_vec());
}

#[test]
fn pull_data_is_parsed() {
    let b = [2, 0x39, 0x30, 2, 1, 2, 3, 4, 5, 6, 7, 8];
    assert_eq!(
        PullData::from_slice(&b).unwrap(),
        PullData { random_token: 12345, gateway_id: [1, 2, 3, 4, 5, 6, 7, 8] }
    );
}

#[test]
fn malformed_datagrams_are_refused() {
    assert_eq!(
        PullData::from_slice(&[2, 0, 0, 2]),
        Err(PacketError::WrongLength { expected: 12, got: 4 })
    );
    assert_eq!(
        PullData::from_slice(&[1, 0, 0, 2, 1, 2, 3, 4, 5, 6, 7, 8]),
        Err(PacketError::ProtocolVersion(1))
    );
    assert_eq!(
        PullData::from_slice(&[2, 0, 0, 0, 1, 2, 3, 4, 5, 6, 7, 8]),
        Err(PacketError::Identifier(0))
    );
    assert!(matches!(
        PushData::from_slice(&[2, 0, 0, 0]),
        Err(PacketError::TooShort { min: 14, got: 4 })
    ));
    assert!(matches!(TxAck::from_slice(&[2, 0, 0, 5]), Err(PacketError::TooShort { min: 12, got: 4 })));
}

#[test]
fn tx_ack_without_payload_is_split() {
    let (ack, json) = TxAck::from_slice(&[2, 10, 0, 5, 1, 2, 3, 4, 5, 6, 7, 8]).unwrap();
    assert_eq!(ack, tx_ack(10, None));
    assert!(json.is_none());
    let (_, json) = TxAck::from_slice(&[2, 10, 0, 5, 1, 2, 3, 4, 5, 6, 7, 8, 123, 125]).unwrap();
    assert_eq!(json, Some(vec![123, 125]));
}

#[test]
fn tx_ack_status_names() {
    assert_eq!(tx_ack(1, None).to_proto_tx_ack_status(), gw::TxAckStatus::Success);
    assert_eq!(tx_ack(1, Some("")).to_proto_tx_ack_status(), gw::TxAckStatus::Success);
    assert_eq!(tx_ack(1, Some("NONE")).to_proto_tx_ack_status(), gw::TxAckStatus::Success);
    assert_eq!(tx_ack(1, Some("TOO_LATE")).to_proto_tx_ack_status(), gw::TxAckStatus::TooLate);
    assert_eq!(tx_ack(1, Some("TOO_EARLY")).to_proto_tx_ack_status(), gw::TxAckStatus::TooEarly);
    assert_eq!(
        tx_ack(1, Some("COLLISION_PACKET")).to_proto_tx_ack_status(),
        gw::TxAckStatus::CollisionPacket
    );
    assert_eq!(
        tx_ack(1, Some("COLLISION_BEACON")).to_proto_tx_ack_status(),
        gw::TxAckStatus::CollisionBeacon
    );
    assert_eq!(tx_ack(1, Some("TX_FREQ")).to_proto_tx_ack_status(), gw::TxAckStatus::TxFreq);
    assert_eq!(tx_ack(1, Some("TX_POWER")).to_proto_tx_ack_status(), gw::TxAckStatus::TxPower);
    assert_eq!(
        tx_ack(1, Some("GPS_UNLOCKED")).to_proto_tx_ack_status(),
        gw::TxAckStatus::GpsUnlocked
    );
    assert_eq!(tx_ack(1, Some("BOOM")).to_proto_tx_ack_status(), gw::TxAckStatus::InternalError);
}

#[test]
fn datagram_kinds() {
    assert_eq!(datagram_kind(&[2, 0, 0]), DatagramKind::TooShort(3));
    assert_eq!(datagram_kind(&[2, 0, 0, 0]), DatagramKind::PushData);
    assert_eq!(datagram_kind(&[2, 0, 0, 2]), DatagramKind::PullData);
    assert_eq!(datagram_kind(&[2, 0, 0, 5]), DatagramKind::TxAck);
    assert_eq!(datagram_kind(&[2, 0, 0, 9]), DatagramKind::Unexpected(9));
}

#[test]
fn code_rate_texts() {
    assert_eq!(CodeRate::Cr45.serialize(), Some("4/5".to_string()));
    assert_eq!(CodeRate::CrLi48.serialize(), Some("4/5LI".to_string()));
    assert_eq!(CodeRate::Undefined.serialize(), None);
    assert_eq!(CodeRate::deserialize("2/3"), CodeRate::Cr46);
    assert_eq!(CodeRate::deserialize("1/2"), CodeRate::Cr48);
    assert_eq!(CodeRate::deserialize("4/8LI"), CodeRate::CrLi48);
    assert_eq!(CodeRate::deserialize("9/9"), CodeRate::Undefined);
    assert_eq!(CodeRate::Cr56.to_proto(), 1);
    assert_eq!(CodeRate::from_proto(9), CodeRate::Cr56);
    assert_eq!(CodeRate::from_proto(99), CodeRate::Undefined);
}

#[test]
fn crc_and_modulation_texts() {
    assert_eq!(Crc::deserialize(1), Crc::Valid);
    assert_eq!(Crc::deserialize(-1), Crc::Invalid);
    assert_eq!(Crc::deserialize(7), Crc::Missing);
    assert_eq!(Crc::Invalid.serialize(), -1);
    assert_eq!(Modulation::Fsk.serialize(), "FSK".to_string());
    assert_eq!(Modulation::deserialize("Fsk"), Ok(Modulation::Fsk));
    assert_eq!(Modulation::deserialize("LR-FHSS"), Ok(Modulation::LrFhss));
    assert!(Modulation::deserialize("FSK").is_err());
}

#[test]
fn data_rate_texts() {
    assert_eq!(
        DataRate::deserialize(&Datr::Text("SF7BW125".to_string())),
        Ok(DataRate::Lora(7, 125_000))
    );
    assert_eq!(
        DataRate::deserialize(&Datr::Text("M0CW137".to_string())),
        Ok(DataRate::LrFhss(137_000))
    );
    assert_eq!(DataRate::deserialize(&Datr::Number(50_000)), Ok(DataRate::Fsk(50_000)));
    assert_eq!(
        DataRate::deserialize(&Datr::Text("SF7BW125BW".to_string())),
        Err(DataRateError::UnexpectedString)
    );
    assert_eq!(
        DataRate::deserialize(&Datr::Text("SFxBW125".to_string())),
        Err(DataRateError::InvalidLora)
    );
    assert_eq!(
        DataRate::deserialize(&Datr::Text("M0CWx".to_string())),
        Err(DataRateError::InvalidLrFhss)
    );
    assert_eq!(
        DataRate::deserialize(&Datr::Text("FSK".to_string())),
        Err(DataRateError::UnexpectedString)
    );
    assert_eq!(DataRate::deserialize(&Datr::Other), Err(DataRateError::UnexpectedType));
    assert_eq!(DataRate::Lora(12, 500_000).serialize(), Datr::Text("SF12BW500".to_string()));
    assert_eq!(DataRate::LrFhss(1_523_000).serialize(), Datr::Text("M0CW1523".to_string()));
    assert_eq!(DataRate::Fsk(50_000).serialize(), Datr::Number(50_000));
}

#[test]
fn uplinks_are_counted_and_exported_once() {
    let mut stats = Stats::new();
    stats.count_uplink(&uplink(868_100_000, Some(lora(7)))).unwrap();
    stats.count_uplink(&uplink(868_100_000, Some(lora(7)))).unwrap();
    stats.count_uplink(&uplink(868_300_000, Some(lora(9)))).unwrap();
    assert_eq!(stats.count_uplink(&uplink(868_100_000, None)), Err(StatsError::ModulationMissing));

    let g = stats.export_stats();
    assert_eq!(g.rx_packets_received, 3);
    assert_eq!(g.rx_packets_received_ok, 3);
    assert_eq!(g.rx_packets_per_frequency.get(&868_100_000), Some(&2));
    assert_eq!(g.rx_packets_per_frequency.get(&868_300_000), Some(&1));
    assert_eq!(g.rx_packets_per_modulation, vec![(lora(7), 2), (lora(9), 1)]);

    let g = stats.export_stats();
    assert_eq!(g.rx_packets_received, 0);
    assert!(g.rx_packets_per_frequency.is_empty());
    assert!(g.rx_packets_per_modulation.is_empty());
}

#[test]
fn downlink_acks_are_counted() {
    let mut stats = Stats::new();
    let ack = gw::DownlinkTxAck {
        gateway_id: String::new(),
        downlink_id: 1,
        items: vec![gw::TxAckStatus::TooLate, gw::TxAckStatus::Success],
    };
    stats.count_downlink(&frame(1), &ack).unwrap();
    let g = stats.export_stats();
    assert_eq!(g.tx_packets_emitted, 1);
    assert_eq!(g.tx_packets_per_frequency.get(&869_525_000), Some(&1));
    assert_eq!(
        g.tx_packets_per_status,
        vec![(gw::TxAckStatus::TooLate, 1), (gw::TxAckStatus::Success, 1)]
    );
}

#[test]
fn gateway_id_comes_from_pull_data() {
    let mut state: State<u16> = State::new(String::new());
    assert_eq!(state.get_gateway_id(), Err(BackendError::GatewayIdNotSet));
    assert_eq!(state.get_pull_addr(), Err(BackendError::NoPullAddr));
    let pl = PullData { random_token: 1, gateway_id: [1, 2, 3, 4, 5, 6, 7, 0xab] };
    state.handle_pull_data(&pl, 1700);
    assert_eq!(state.get_gateway_id(), Ok("01020304050607ab".to_string()));
    assert_eq!(state.get_pull_addr(), Ok(1700));
}

#[test]
fn downlink_without_pull_address_fails() {
    let mut state: State<u16> = State::new("0102030405060708".to_string());
    let pl = frame(0x1_0005);
    let acks = initial_acks(&pl);
    assert_eq!(acks, vec![gw::TxAckStatus::Ignored, gw::TxAckStatus::Ignored]);
    assert!(matches!(state.send_downlink_frame(pl, acks, 0, 1_000), Err(BackendError::NoPullAddr)));
}

#[test]
fn rejected_item_is_retried_with_the_next_one() {
    let mut state: State<u16> = State::new("0102030405060708".to_string());
    state.set_pull_addr(1700);
    let pl = frame(0x1_0005);
    let acks = initial_acks(&pl);
    let (resp, addr) = state.send_downlink_frame(pl, acks, 0, 1_000).unwrap();
    assert_eq!(addr, 1700);
    assert_eq!(resp.random_token, 5);
    assert_eq!(resp.payload.txpk.freq_hz, 868_100_000);

    // The gateway refuses the first item: the second one is sent.
    match state.handle_tx_ack(&tx_ack(5, Some("TOO_LATE")), 2_000).unwrap() {
        TxAckAction::SendPullResp(resp, addr) => {
            assert_eq!(addr, 1700);
            assert_eq!(resp.random_token, 5);
            assert_eq!(resp.payload.txpk.freq_hz, 869_525_000);
        }
        TxAckAction::SendAck(_) => panic!("expected the next item to be sent"),
    }

    // It accepts the second one: the whole acknowledgement is published.
    match state.handle_tx_ack(&tx_ack(5, None), 3_000).unwrap() {
        TxAckAction::SendAck(ack) => {
            assert_eq!(ack.gateway_id, "0102030405060708");
            assert_eq!(ack.downlink_id, 0x1_0005);
            assert_eq!(ack.items, vec![gw::TxAckStatus::TooLate, gw::TxAckStatus::Success]);
        }
        TxAckAction::SendPullResp(..) => panic!("expected the acknowledgement"),
    }
    let g = state.export_stats();
    assert_eq!(g.tx_packets_emitted, 1);
}

#[test]
fn expired_downlink_is_forgotten() {
    let mut state: State<u16> = State::new("0102030405060708".to_string());
    state.set_pull_addr(1700);
    let pl = frame(7);
    let acks = initial_acks(&pl);
    state.send_downlink_frame(pl, acks, 0, 1_000).unwrap();
    assert!(matches!(
        state.handle_tx_ack(&tx_ack(7, None), 1_000 + 60_001),
        Err(BackendError::NoCacheItem(7))
    ));
    assert!(state.downlink_cache.is_empty());
}

#[test]
fn unknown_token_is_refused() {
    let mut state: State<u16> = State::new("0102030405060708".to_string());
    assert!(matches!(state.handle_tx_ack(&tx_ack(9, None), 0), Err(BackendError::NoCacheItem(9))));
}

#[test]
fn push_data_stats_take_the_forwarder_counters() {
    let mut state: State<u16> = State::new("0102030405060708".to_string());
    state.count_uplink(&uplink(868_100_000, Some(lora(7)))).unwrap();
    let reported = gw::GatewayStats {
        gateway_id: "0102030405060708".to_string(),
        time: None,
        location: None,
        rx_packets_received: 10,
        rx_packets_received_ok: 5,
        tx_packets_received: 30,
        tx_packets_emitted: 15,
        metadata: Default::default(),
        tx_packets_per_frequency: Default::default(),
        rx_packets_per_frequency: Default::default(),
        tx_packets_per_modulation: vec![],
        rx_packets_per_modulation: vec![],
        tx_packets_per_status: vec![],
    };
    let g = state.complete_gateway_stats(reported);
    assert_eq!(g.rx_packets_received, 10);
    assert_eq!(g.rx_packets_received_ok, 1);
    assert_eq!(g.tx_packets_received, 30);
    assert_eq!(g.tx_packets_emitted, 0);
    assert_eq!(g.rx_packets_per_modulation, vec![(lora(7), 1)]);
    assert_eq!(state.export_stats().rx_packets_received, 0);
}

#[test]
fn texts_read_back_as_written() {
    for dr in [DataRate::Lora(7, 125_000), DataRate::LrFhss(137_000), DataRate::Fsk(50_000)] {
        assert_eq!(DataRate::deserialize(&dr.serialize()), Ok(dr));
    }
    for c in [Crc::Valid, Crc::Invalid, Crc::Missing] {
        assert_eq!(Crc::deserialize(c.serialize()), c);
    }
    for m in [Modulation::Lora, Modulation::LrFhss] {
        assert_eq!(Modulation::deserialize(&m.serialize()), Ok(m));
    }
    assert!(Modulation::deserialize(&Modulation::Fsk.serialize()).is_err());
    for c in [CodeRate::Cr45, CodeRate::Cr46, CodeRate::Cr38, CodeRate::CrLi45, CodeRate::CrLi46] {
        assert_eq!(CodeRate::deserialize(&c.serialize().unwrap()), c);
        assert_eq!(CodeRate::from_proto(c.to_proto()), c);
    }
}

#[test]
fn converted_uplinks_are_counted() {
    let rx = RxPk {
        time: None,
        tmms: None,
        tmst: 1,
        ftime: None,
        freq_hz: 868_300_000,
        chan: 0,
        rfch: 0,
        brd: 0,
        stat: Crc::Valid,
        modu: Modulation::Lora,
        datr: DataRate::Lora(9, 125_000),
        codr: Some(CodeRate::Cr45),
        rssi: -80,
        hpw: None,
        size: 1,
        data: vec![1],
        rsig: vec![],
        meta: None,
    };
    let pl = PushData { random_token: 1, gateway_id: [0; 8], payload: vec![] };
    let frames = pl.to_proto_uplink_frames(&[rx.clone(), rx], false).unwrap();
    let mut stats = Stats::new();
    for f in &frames {
        stats.count_uplink(f).unwrap();
    }
    let g = stats.export_stats();
    assert_eq!(g.rx_packets_received, 2);
    assert_eq!(g.rx_packets_per_modulation, vec![(lora(9), 2)]);
}

#[test]
fn each_status_is_counted_under_one_key() {
    let mut stats = Stats::new();
    let ack = gw::DownlinkTxAck {
        gateway_id: String::new(),
        downlink_id: 1,
        items: vec![gw::TxAckStatus::TooLate, gw::TxAckStatus::Ignored],
    };
    stats.count_downlink(&frame(1), &ack).unwrap();
    stats.count_downlink(&frame(1), &ack).unwrap();
    let g = stats.export_stats();
    assert_eq!(g.tx_packets_per_status, vec![(gw::TxAckStatus::TooLate, 2)]);
    assert_eq!(g.tx_packets_emitted, 0);
}
