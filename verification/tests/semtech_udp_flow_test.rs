use std::collections::HashMap;

use chirpstack_mqtt_forwarder::backend::semtech_udp::structs::{
    CodeRate, Crc, DataRate, Modulation, PullAck, PullData, PushAck, PushData, RxPk, Stat, TxAck,
};
use chirpstack_mqtt_forwarder::backend::semtech_udp::{
    datagram_kind, initial_acks, DatagramKind, State, TxAckAction,
};
use chirpstack_mqtt_forwarder::gw;
use chirpstack_mqtt_forwarder::mqtt::{get_event_topic, get_state_topic, topic_prefix};

fn lora(sf: u32) -> gw::Modulation {
    gw::Modulation {
        parameters: Some(gw::ModulationParameters::Lora(gw::LoraModulationInfo {
            bandwidth: 125000,
            spreading_factor: sf,
            code_rate: 1,
            polarization_inversion: false,
            preamble: 0,
            no_crc: false,
        })),
    }
}

// The datagrams and values of a gateway session: PULL_DATA, an uplink, a
// downlink with its TX_ACK, then the gateway status. Sockets, MQTT and JSON are
// left out: the packets are given as the values that their JSON holds.
#[test]
fn semtech_udp_test_end_to_end() {
    let prefix = topic_prefix("eu868");
    let mut state: State<u16> = State::new("0102030405060708".to_string());
    assert_eq!(state.get_gateway_id(), Ok("0102030405060708".to_string()));
    assert_eq!(
        get_state_topic(&prefix, "0102030405060708", "conn"),
        "eu868/gateway/0102030405060708/state/conn"
    );

    // PULL_DATA, PULL_ACK
    let b = [2, 0, 1, 2, 1, 2, 3, 4, 5, 6, 7, 8];
    assert_eq!(datagram_kind(&b), DatagramKind::PullData);
    let pl = PullData::from_slice(&b).unwrap();
    assert_eq!(vec![2, 0, 1, 4], PullAck { random_token: pl.random_token }.to_vec());
    state.handle_pull_data(&pl, 1700);

    // PUSH_DATA with one rxpk, PUSH_ACK
    let json = br#"{"rxpk":[]}"#;
    let mut b = vec![2, 0, 1, 0, 1, 2, 3, 4, 5, 6, 7, 8];
    b.extend_from_slice(json);
    assert_eq!(datagram_kind(&b), DatagramKind::PushData);
    let push = PushData::from_slice(&b).unwrap();
    assert_eq!(push.payload, json.to_vec());
    assert_eq!(vec![2, 0, 1, 1], PushAck { random_token: push.random_token }.to_vec());

    let ts = gw::Timestamp { seconds: 1_662_813_015, nanos: 0 };
    let rx = RxPk {
        time: Some(ts),
        tmms: None,
        tmst: 1234,
        ftime: None,
        freq_hz: 868_100_000,
        chan: 2,
        rfch: 0,
        brd: 0,
        stat: Crc::Valid,
        modu: Modulation::Lora,
        datr: DataRate::Lora(7, 125_000),
        codr: Some(CodeRate::Cr45),
        rssi: -35,
        hpw: None,
        size: 3,
        data: vec![1, 2, 3],
        rsig: vec![],
        meta: None,
    };
    let frames = push.to_proto_uplink_frames(&[rx], false).unwrap();
    assert_eq!(frames.len(), 1);
    let up = &frames[0];
    assert_eq!(up.phy_payload, vec![1, 2, 3]);
    assert_eq!(
        up.tx_info,
        Some(gw::UplinkTxInfo { frequency: 868_100_000, modulation: Some(lora(7)) })
    );
    let ri = up.rx_info.as_ref().unwrap();
    assert_eq!(ri.gateway_id, "0102030405060708");
    assert_eq!(ri.gw_time, Some(ts));
    assert_eq!((ri.rssi, ri.channel, ri.rf_chain), (-35, 2, 0));
    assert_eq!(ri.context, vec![0, 0, 4, 210]);
    assert_eq!(ri.crc_status, gw::CrcStatus::CrcOk);
    state.count_uplink(up).unwrap();
    assert_eq!(
        get_event_topic(&prefix, "0102030405060708", "up"),
        "eu868/gateway/0102030405060708/event/up"
    );

    // Downlink, PULL_RESP
    let down = gw::DownlinkFrame {
        downlink_id: 1234,
        gateway_id: "0102030405060708".to_string(),
        items: vec![gw::DownlinkFrameItem {
            phy_payload: vec![1, 2, 3],
            tx_info: Some(gw::DownlinkTxInfo {
                frequency: 868_300_000,
                power: 16,
                modulation: Some(lora(8)),
                board: 0,
                antenna: 0,
                timing: Some(gw::Timing {
                    parameters: Some(gw::TimingParameters::Delay(Some(gw::Duration {
                        seconds: 1,
                        nanos: 0,
                    }))),
                }),
                context: vec![0, 0, 4, 210],
            }),
        }],
    };
    let acks = initial_acks(&down);
    let (resp, addr) = state.send_downlink_frame(down, acks, 0, 1_000).unwrap();
    assert_eq!(addr, 1700);
    assert_eq!(resp.to_vec(&[]), vec![2, 210, 4, 3]);
    let txpk = &resp.payload.txpk;
    assert_eq!((txpk.imme, txpk.rfch, txpk.powe, txpk.ant, txpk.brd), (false, 0, 16, 0, 0));
    assert_eq!(txpk.tmst, Some(1_001_234));
    assert_eq!(txpk.freq_hz, 868_300_000);
    assert_eq!(txpk.datr, DataRate::Lora(8, 125_000));
    assert_eq!(txpk.codr, Some(CodeRate::Cr45));
    assert_eq!(txpk.ipol, Some(false));
    assert_eq!((txpk.size, txpk.data.clone()), (3, vec![1, 2, 3]));

    // TX_ACK, ack event
    let b = [2, 210, 4, 5, 1, 2, 3, 4, 5, 6, 7, 8];
    assert_eq!(datagram_kind(&b), DatagramKind::TxAck);
    let (ack, json) = TxAck::from_slice(&b).unwrap();
    assert!(json.is_none());
    match state.handle_tx_ack(&ack, 2_000).unwrap() {
        TxAckAction::SendAck(a) => {
            assert_eq!(
                a,
                gw::DownlinkTxAck {
                    gateway_id: "0102030405060708".to_string(),
                    downlink_id: 1234,
                    items: vec![gw::TxAckStatus::Success],
                }
            );
        }
        TxAckAction::SendPullResp(..) => panic!("expected the acknowledgement"),
    }

    // PUSH_DATA with stat, stats event
    let stat = Stat {
        time: ts,
        lati_bits: 46.24f64.to_bits(),
        long_bits: 3.2523f64.to_bits(),
        alti: 145,
        rxnb: 1,
        rxok: 1,
        rxfw: 1,
        ackr_bits: 100.0f32.to_bits(),
        dwnb: 1,
        txnb: 1,
        meta: None,
    };
    let stats = push.to_proto_gateway_stats(Some(&stat)).unwrap();
    let stats = state.complete_gateway_stats(stats);
    assert_eq!(stats.gateway_id, "0102030405060708");
    assert_eq!(stats.time, Some(ts));
    assert_eq!(
        stats.location,
        Some(gw::Location {
            latitude_bits: 46.24f64.to_bits(),
            longitude_bits: 3.2523f64.to_bits(),
            altitude: 145,
            source: gw::LocationSource::Gps,
        })
    );
    assert_eq!(
        (
            stats.rx_packets_received,
            stats.rx_packets_received_ok,
            stats.tx_packets_received,
            stats.tx_packets_emitted
        ),
        (1, 1, 1, 1)
    );
    let per_freq = |m: &HashMap<u32, u32>| m.iter().map(|(k, v)| (*k, *v)).collect::<Vec<_>>();
    assert_eq!(per_freq(&stats.tx_packets_per_frequency), vec![(868_300_000, 1)]);
    assert_eq!(per_freq(&stats.rx_packets_per_frequency), vec![(868_100_000, 1)]);
    assert_eq!(stats.tx_packets_per_modulation, vec![(lora(8), 1)]);
    assert_eq!(stats.rx_packets_per_modulation, vec![(lora(7), 1)]);
    assert_eq!(stats.tx_packets_per_status, vec![(gw::TxAckStatus::Success, 1)]);
}
