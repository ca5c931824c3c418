//! Semtech UDP packet-forwarder protocol: datagram framing and the text forms
//! of the radio parameters carried in its JSON payloads.
use std::collections::HashMap;

use rand::Rng;
use vstd::prelude::*;
use vstd::slice::slice_to_vec;

use crate::gw;
use crate::text::{hex_encode, chars_eq, chars_of, parse_u32, push_decimal, spec_parse_u32, decimal, find_from, find_from_exec, lemma_find_from, lemma_find_from_skip, lemma_find_from_none, lemma_decimal, lemma_parse_decimal, is_digit, occurs_at, starts_with, starts_with_exec, sub_chars, string_from_chars};

verus! {

pub const PROTOCOL_VERSION: u8 = 0x02;

/// Identifiers of the datagram types (fourth byte of every datagram).
pub const PUSH_DATA_ID: u8 = 0x00;
pub const PUSH_ACK_ID: u8 = 0x01;
pub const PULL_DATA_ID: u8 = 0x02;
pub const PULL_RESP_ID: u8 = 0x03;
pub const PULL_ACK_ID: u8 = 0x04;
pub const TX_ACK_ID: u8 = 0x05;

/// Why a datagram was refused.
#[derive(Clone, Copy, PartialEq, Eq, Structural, Debug)]
pub enum PacketError {
    /// Fewer bytes than the datagram type needs.
    TooShort { min: usize, got: usize },
    /// Not the exact size that the datagram type has.
    WrongLength { expected: usize, got: usize },
    /// The first byte is not the protocol version.
    ProtocolVersion(u8),
    /// The fourth byte is not the identifier of the expected datagram type.
    Identifier(u8),
}

/// The random token as it is read from two little-endian bytes.
pub open spec fn le_u16(lo: u8, hi: u8) -> u16 {
    (lo as int + 256 * hi as int) as u16
}

/// A four-byte acknowledgement: version, token (little endian), identifier.
pub open spec fn ack_bytes(token: u16, id: u8) -> Seq<u8> {
    seq![PROTOCOL_VERSION, (token % 256) as u8, (token / 256) as u8, id]
}

/// The header checks shared by every datagram sent by a gateway: version and identifier.
pub open spec fn header_error(b: Seq<u8>, id: u8) -> Option<PacketError> {
    if b[0] != PROTOCOL_VERSION {
        Some(PacketError::ProtocolVersion(b[0]))
    } else if b[3] != id {
        Some(PacketError::Identifier(b[3]))
    } else {
        None
    }
}

fn token_from(b: &[u8]) -> (res: u16)
    requires
        b.len() >= 3,
    ensures
        res == le_u16(b[1], b[2]),
{
    b[1] as u16 + (b[2] as u16) * 256
}

fn gateway_id_from(b: &[u8]) -> (res: [u8; 8])
    requires
        b.len() >= 12,
    ensures
        res@ == b@.subrange(4, 12),
{
    let g = [b[4], b[5], b[6], b[7], b[8], b[9], b[10], b[11]];
    assert(g@ =~= b@.subrange(4, 12));
    g
}

fn ack_vec(token: u16, id: u8) -> (res: Vec<u8>)
    ensures
        res@ == ack_bytes(token, id),
{
    let mut b: Vec<u8> = Vec::with_capacity(4);
    b.push(PROTOCOL_VERSION);
    b.push((token % 256) as u8);
    b.push((token / 256) as u8);
    b.push(id);
    assert(b@ =~= ack_bytes(token, id));
    b
}

/// A PUSH_DATA datagram: the header, and the JSON object (`rxpk`, `stat`) as received.
#[derive(Clone, PartialEq, Debug)]
pub struct PushData {
    pub random_token: u16,
    pub gateway_id: [u8; 8],
    pub payload: Vec<u8>,
}

impl PushData {
    /// Checks and splits a PUSH_DATA datagram; the JSON payload is handed back as bytes.
    pub fn from_slice(b: &[u8]) -> (res: Result<PushData, PacketError>)
        ensures
            b.len() < 14 ==> res == Err::<PushData, PacketError>(
                PacketError::TooShort { min: 14, got: b.len() },
            ),
            b.len() >= 14 && header_error(b@, PUSH_DATA_ID) is Some ==> res == Err::<
                PushData,
                PacketError,
            >(header_error(b@, PUSH_DATA_ID)->0),
            b.len() >= 14 && header_error(b@, PUSH_DATA_ID) is None ==> (res matches Ok(p) && {
                &&& p.random_token == le_u16(b[1], b[2])
                &&& p.gateway_id@ == b@.subrange(4, 12)
                &&& p.payload@ == b@.subrange(12, b@.len() as int)
            }),
    {
        if b.len() < 14 {
            return Err(PacketError::TooShort { min: 14, got: b.len() });
        }
        if b[0] != PROTOCOL_VERSION {
            return Err(PacketError::ProtocolVersion(b[0]));
        }
        if b[3] != PUSH_DATA_ID {
            return Err(PacketError::Identifier(b[3]));
        }
        let mut payload: Vec<u8> = Vec::new();
        let mut i: usize = 12;
        while i < b.len()
            invariant
                12 <= i <= b.len(),
                payload@ == b@.subrange(12, i as int),
            decreases b.len() - i,
        {
            payload.push(b[i]);
            assert(b@.subrange(12, i + 1) == b@.subrange(12, i as int).push(b@[i as int]));
            i = i + 1;
        }
        Ok(PushData { random_token: token_from(b), gateway_id: gateway_id_from(b), payload })
    }
}

/// The first packet, from index `i` on, whose modulation cannot be converted.
pub open spec fn first_uplink_error(rxpk: Seq<RxPk>, i: int) -> Option<ConversionError>
    decreases rxpk.len() - i,
{
    if i < 0 || i >= rxpk.len() {
        None
    } else {
        match spec_uplink_modulation(rxpk[i]) {
            Err(e) => Some(e),
            Ok(_) => first_uplink_error(rxpk, i + 1),
        }
    }
}

/// How many uplink frames a packet gives: one per `rsig` entry, at least one.
pub open spec fn frame_count(rx: RxPk) -> nat {
    if rx.rsig.len() == 0 {
        1
    } else {
        rx.rsig.len() as nat
    }
}

pub open spec fn total_frames(rxpk: Seq<RxPk>, i: int) -> nat
    decreases rxpk.len() - i,
{
    if i < 0 || i >= rxpk.len() {
        0
    } else {
        frame_count(rxpk[i]) + total_frames(rxpk, i + 1)
    }
}

impl PushData {
    /// The uplink frames of the packets (`rxpk`) of this PUSH_DATA, in order; the
    /// first packet that cannot be converted makes the whole conversion fail.
    pub fn to_proto_uplink_frames(&self, rxpk: &[RxPk], time_fallback_enabled: bool) -> (res: Result<
        Vec<gw::UplinkFrame>,
        ConversionError,
    >)
        requires
            forall|i: int| 0 <= i < rxpk.len() ==> (#[trigger] rxpk[i]).rsig.len() < usize::MAX,
        ensures
            match first_uplink_error(rxpk@, 0) {
                Some(e) => res == Err::<Vec<gw::UplinkFrame>, ConversionError>(e),
                None => res matches Ok(frames) && frames.len() == total_frames(rxpk@, 0) && exists|
                    parts: Seq<Seq<gw::UplinkFrame>>,
                |
                    {
                        &&& parts.len() == rxpk.len()
                        &&& #[trigger] parts.flatten() == frames@
                        &&& forall|i: int|
                            0 <= i < parts.len() ==> packet_frames(
                                #[trigger] parts[i],
                                rxpk[i],
                                self.gateway_id@,
                                time_fallback_enabled,
                            )
                    },
            },
    {
        let mut out: Vec<gw::UplinkFrame> = Vec::new();
        let ghost mut parts: Seq<Seq<gw::UplinkFrame>> = Seq::empty();
        let mut i: usize = 0;
        while i < rxpk.len()
            invariant
                i <= rxpk.len(),
                forall|k: int| 0 <= k < rxpk.len() ==> (#[trigger] rxpk[k]).rsig.len() < usize::MAX,
                first_uplink_error(rxpk@, 0) == first_uplink_error(rxpk@, i as int),
                total_frames(rxpk@, 0) == out.len() + total_frames(rxpk@, i as int),
                parts.len() == i,
                parts.flatten() == out@,
                forall|k: int|
                    0 <= k < i ==> packet_frames(
                        #[trigger] parts[k],
                        rxpk[k],
                        self.gateway_id@,
                        time_fallback_enabled,
                    ),
            decreases rxpk.len() - i,
        {
            let mut frames = rxpk[i].to_proto(&self.gateway_id, time_fallback_enabled)?;
            proof {
                parts.lemma_flatten_push(frames@);
                parts = parts.push(frames@);
            }
            out.append(&mut frames);
            i = i + 1;
        }
        Ok(out)
    }
}

/// Gateway status (`stat` object). Its float fields are held by their bit
/// patterns (`f64::to_bits`, `f32::to_bits`).
#[derive(Clone, PartialEq, Debug)]
pub struct Stat {
    pub time: gw::Timestamp,
    pub lati_bits: u64,
    pub long_bits: u64,
    pub alti: u32,
    pub rxnb: u32,
    pub rxok: u32,
    pub rxfw: u32,
    pub ackr_bits: u32,
    pub dwnb: u32,
    pub txnb: u32,
    pub meta: Option<HashMap<String, String>>,
}

/// The `f64` with these bits is not zero (`!= 0.0`): some bit other than the sign is set.
pub open spec fn f64_bits_nonzero(bits: u64) -> bool {
    bits % 0x8000_0000_0000_0000 != 0
}

/// A location is reported when latitude, longitude or altitude is not zero.
pub open spec fn spec_stat_location(s: Stat) -> Option<gw::Location> {
    if f64_bits_nonzero(s.lati_bits) || f64_bits_nonzero(s.long_bits) || s.alti != 0 {
        Some(
            gw::Location {
                latitude_bits: s.lati_bits,
                longitude_bits: s.long_bits,
                altitude: s.alti,
                source: gw::LocationSource::Gps,
            },
        )
    } else {
        None
    }
}

/// `g` holds the statistics of status `s` of the gateway with id `gateway_id`; the
/// per-frequency, per-modulation and per-status counts are empty.
pub open spec fn is_stat_proto(g: gw::GatewayStats, s: Stat, gateway_id: Seq<u8>) -> bool {
    &&& g.gateway_id@ == crate::text::hex_lower(gateway_id)
    &&& g.time == Some(s.time)
    &&& g.location == spec_stat_location(s)
    &&& g.rx_packets_received == s.rxnb
    &&& g.rx_packets_received_ok == s.rxok
    &&& g.tx_packets_received == s.dwnb
    &&& g.tx_packets_emitted == s.txnb
    &&& g.metadata@ == (match s.meta {
        Some(m) => m@,
        None => Map::<String, String>::empty(),
    })
    &&& g.tx_packets_per_frequency@ == Map::<u32, u32>::empty()
    &&& g.rx_packets_per_frequency@ == Map::<u32, u32>::empty()
    &&& g.tx_packets_per_modulation@.len() == 0
    &&& g.rx_packets_per_modulation@.len() == 0
    &&& g.tx_packets_per_status@.len() == 0
}

impl Stat {
    /// The gateway statistics of this status, for the gateway with the given id.
    pub fn to_proto(&self, gateway_id: &[u8]) -> (res: gw::GatewayStats)
        ensures
            is_stat_proto(res, *self, gateway_id@),
    {
        let location = if self.lati_bits % 0x8000_0000_0000_0000 != 0 || self.long_bits
            % 0x8000_0000_0000_0000 != 0 || self.alti != 0 {
            Some(
                gw::Location {
                    latitude_bits: self.lati_bits,
                    longitude_bits: self.long_bits,
                    altitude: self.alti,
                    source: gw::LocationSource::Gps,
                },
            )
        } else {
            None
        };
        let metadata = match &self.meta {
            Some(m) => m.clone(),
            None => HashMap::new(),
        };
        gw::GatewayStats {
            gateway_id: hex_encode(gateway_id),
            time: Some(self.time),
            location,
            rx_packets_received: self.rxnb,
            rx_packets_received_ok: self.rxok,
            tx_packets_received: self.dwnb,
            tx_packets_emitted: self.txnb,
            metadata,
            tx_packets_per_frequency: HashMap::new(),
            rx_packets_per_frequency: HashMap::new(),
            tx_packets_per_modulation: Vec::new(),
            rx_packets_per_modulation: Vec::new(),
            tx_packets_per_status: Vec::new(),
        }
    }
}

impl PushData {
    /// The gateway statistics of the status (`stat`) of this PUSH_DATA, if it has one.
    pub fn to_proto_gateway_stats(&self, stat: Option<&Stat>) -> (res: Option<gw::GatewayStats>)
        ensures
            stat is None <==> res is None,
            stat matches Some(s) ==> (res matches Some(g) && is_stat_proto(g, *s, self.gateway_id@)),
    {
        match stat {
            Some(s) => Some(s.to_proto(&self.gateway_id)),
            None => None,
        }
    }
}

/// Acknowledges a PULL_DATA datagram.
#[derive(Clone, PartialEq, Debug)]
pub struct PullAck {
    pub random_token: u16,
}

impl PullAck {
    pub fn to_vec(&self) -> (res: Vec<u8>)
        ensures
            res@ == ack_bytes(self.random_token, PULL_ACK_ID),
    {
        ack_vec(self.random_token, PULL_ACK_ID)
    }
}

/// Acknowledges a PUSH_DATA datagram.
#[derive(Clone, PartialEq, Debug)]
pub struct PushAck {
    pub random_token: u16,
}

impl PushAck {
    pub fn to_vec(&self) -> (res: Vec<u8>)
        ensures
            res@ == ack_bytes(self.random_token, PUSH_ACK_ID),
    {
        ack_vec(self.random_token, PUSH_ACK_ID)
    }
}

/// A PULL_DATA datagram (keep-alive of the downlink path).
#[derive(Clone, PartialEq, Debug)]
pub struct PullData {
    pub random_token: u16,
    pub gateway_id: [u8; 8],
}

impl PullData {
    pub fn from_slice(b: &[u8]) -> (res: Result<PullData, PacketError>)
        ensures
            b.len() != 12 ==> res == Err::<PullData, PacketError>(
                PacketError::WrongLength { expected: 12, got: b.len() },
            ),
            b.len() == 12 && header_error(b@, PULL_DATA_ID) is Some ==> res == Err::<
                PullData,
                PacketError,
            >(header_error(b@, PULL_DATA_ID)->0),
            b.len() == 12 && header_error(b@, PULL_DATA_ID) is None ==> (res matches Ok(p) && {
                &&& p.random_token == le_u16(b[1], b[2])
                &&& p.gateway_id@ == b@.subrange(4, 12)
            }),
    {
        if b.len() != 12 {
            return Err(PacketError::WrongLength { expected: 12, got: b.len() });
        }
        if b[0] != PROTOCOL_VERSION {
            return Err(PacketError::ProtocolVersion(b[0]));
        }
        if b[3] != PULL_DATA_ID {
            return Err(PacketError::Identifier(b[3]));
        }
        Ok(PullData { random_token: token_from(b), gateway_id: gateway_id_from(b) })
    }
}

/// The JSON object of a TX_ACK datagram.
#[derive(Clone, PartialEq, Debug)]
pub struct TxAckPayload {
    pub txpk_ack: TxPkAck,
}

#[derive(Clone, PartialEq, Debug)]
pub struct TxPkAck {
    /// Error reported by the gateway; empty when the field is absent.
    pub error: String,
}

impl Default for TxPkAck {
    fn default() -> (res: Self)
        ensures
            res.error@ == Seq::<char>::empty(),
    {
        TxPkAck { error: String::new() }
    }
}

impl Default for TxAckPayload {
    fn default() -> (res: Self)
        ensures
            res.txpk_ack.error@ == Seq::<char>::empty(),
    {
        TxAckPayload { txpk_ack: TxPkAck::default() }
    }
}

/// A TX_ACK datagram.
#[derive(Clone, PartialEq, Debug)]
pub struct TxAck {
    pub random_token: u16,
    pub gateway_id: [u8; 8],
    pub payload: Option<TxAckPayload>,
}

impl TxAck {
    /// Checks and splits a TX_ACK datagram. The returned acknowledgement has no
    /// payload yet: the JSON bytes after the header, present when the datagram has
    /// at least 14 bytes, are handed back for the caller to decode.
    pub fn from_slice(b: &[u8]) -> (res: Result<(TxAck, Option<Vec<u8>>), PacketError>)
        ensures
            b.len() < 12 ==> res == Err::<(TxAck, Option<Vec<u8>>), PacketError>(
                PacketError::TooShort { min: 12, got: b.len() },
            ),
            b.len() >= 12 && header_error(b@, TX_ACK_ID) is Some ==> res == Err::<
                (TxAck, Option<Vec<u8>>),
                PacketError,
            >(header_error(b@, TX_ACK_ID)->0),
            b.len() >= 12 && header_error(b@, TX_ACK_ID) is None ==> (res matches Ok(r) && {
                &&& r.0.random_token == le_u16(b[1], b[2])
                &&& r.0.gateway_id@ == b@.subrange(4, 12)
                &&& r.0.payload is None
                &&& (b.len() >= 14) == (r.1 is Some)
                &&& (r.1 matches Some(p) ==> p@ == b@.subrange(12, b@.len() as int))
            }),
    {
        if b.len() < 12 {
            return Err(PacketError::TooShort { min: 12, got: b.len() });
        }
        if b[0] != PROTOCOL_VERSION {
            return Err(PacketError::ProtocolVersion(b[0]));
        }
        if b[3] != TX_ACK_ID {
            return Err(PacketError::Identifier(b[3]));
        }
        let json = if b.len() >= 14 {
            let mut payload: Vec<u8> = Vec::new();
            let mut i: usize = 12;
            while i < b.len()
                invariant
                    12 <= i <= b.len(),
                    payload@ == b@.subrange(12, i as int),
                decreases b.len() - i,
            {
                payload.push(b[i]);
                assert(b@.subrange(12, i + 1) == b@.subrange(12, i as int).push(b@[i as int]));
                i = i + 1;
            }
            Some(payload)
        } else {
            None
        };
        Ok(
            (
                TxAck { random_token: token_from(b), gateway_id: gateway_id_from(b), payload: None },
                json,
            ),
        )
    }
}


/// CRC status of a received packet, as the gateway reports it.
#[derive(Clone, Copy, PartialEq, Eq, Structural, Debug)]
pub enum Crc {
    Valid,
    Invalid,
    Missing,
}

impl Crc {
    pub open spec fn spec_from_i32(v: i32) -> Crc {
        if v == 1 {
            Crc::Valid
        } else if v == -1 {
            Crc::Invalid
        } else {
            Crc::Missing
        }
    }

    pub open spec fn spec_to_i32(self) -> i32 {
        match self {
            Crc::Valid => 1,
            Crc::Invalid => -1i32,
            Crc::Missing => 0,
        }
    }

    /// The `stat` value of an `rxpk` object: 1 = OK, -1 = fail, anything else = no CRC.
    pub fn deserialize(v: i32) -> (res: Crc)
        ensures
            res == Crc::spec_from_i32(v),
    {
        if v == 1 {
            Crc::Valid
        } else if v == -1 {
            Crc::Invalid
        } else {
            Crc::Missing
        }
    }

    pub fn serialize(&self) -> (res: i32)
        ensures
            res == self.spec_to_i32(),
    {
        match self {
            Crc::Valid => 1,
            Crc::Invalid => -1i32,
            Crc::Missing => 0,
        }
    }
}

/// LoRa / LR-FHSS coding rate.
#[derive(Clone, Copy, PartialEq, Eq, Structural, Debug)]
pub enum CodeRate {
    Undefined,
    Cr45,
    Cr46,
    Cr47,
    Cr48,
    Cr38,
    Cr26,
    Cr14,
    Cr16,
    Cr56,
    CrLi45,
    CrLi46,
    CrLi48,
}

impl CodeRate {
    /// Protobuf enum number that a coding rate is sent as (note: 5/6 is sent as 4/5).
    pub open spec fn spec_to_proto(self) -> i32 {
        match self {
            CodeRate::Undefined => 0,
            CodeRate::Cr45 => 1,
            CodeRate::Cr46 => 2,
            CodeRate::Cr47 => 3,
            CodeRate::Cr48 => 4,
            CodeRate::Cr38 => 5,
            CodeRate::Cr26 => 6,
            CodeRate::Cr14 => 7,
            CodeRate::Cr16 => 8,
            CodeRate::Cr56 => 1,
            CodeRate::CrLi45 => 10,
            CodeRate::CrLi46 => 11,
            CodeRate::CrLi48 => 12,
        }
    }

    /// Coding rate of a protobuf enum number; unknown numbers read as undefined.
    pub open spec fn spec_from_proto(v: i32) -> CodeRate {
        if v == 1 {
            CodeRate::Cr45
        } else if v == 2 {
            CodeRate::Cr46
        } else if v == 3 {
            CodeRate::Cr47
        } else if v == 4 {
            CodeRate::Cr48
        } else if v == 5 {
            CodeRate::Cr38
        } else if v == 6 {
            CodeRate::Cr26
        } else if v == 7 {
            CodeRate::Cr14
        } else if v == 8 {
            CodeRate::Cr16
        } else if v == 9 {
            CodeRate::Cr56
        } else if v == 10 {
            CodeRate::CrLi45
        } else if v == 11 {
            CodeRate::CrLi46
        } else if v == 12 {
            CodeRate::CrLi48
        } else {
            CodeRate::Undefined
        }
    }

    /// The `codr` text of a coding rate; none for an undefined one.
    pub open spec fn spec_serialize(self) -> Option<Seq<char>> {
        match self {
            CodeRate::Cr45 => Some("4/5"@),
            CodeRate::Cr46 => Some("4/6"@),
            CodeRate::Cr47 => Some("4/7"@),
            CodeRate::Cr48 => Some("4/8"@),
            CodeRate::Cr38 => Some("3/8"@),
            CodeRate::Cr26 => Some("2/6"@),
            CodeRate::Cr14 => Some("1/4"@),
            CodeRate::Cr16 => Some("1/6"@),
            CodeRate::Cr56 => Some("5/6"@),
            CodeRate::CrLi45 => Some("4/5LI"@),
            CodeRate::CrLi46 => Some("4/6LI"@),
            CodeRate::CrLi48 => Some("4/5LI"@),
            CodeRate::Undefined => None,
        }
    }

    /// The coding rate that a `codr` text names; any other text is undefined.
    pub open spec fn spec_deserialize(s: Seq<char>) -> CodeRate {
        if s == "4/5"@ {
            CodeRate::Cr45
        } else if s == "4/6"@ || s == "2/3"@ {
            CodeRate::Cr46
        } else if s == "4/7"@ {
            CodeRate::Cr47
        } else if s == "4/8"@ || s == "2/4"@ || s == "1/2"@ {
            CodeRate::Cr48
        } else if s == "3/8"@ {
            CodeRate::Cr38
        } else if s == "2/6"@ || s == "1/3"@ {
            CodeRate::Cr26
        } else if s == "1/4"@ {
            CodeRate::Cr14
        } else if s == "1/6"@ {
            CodeRate::Cr16
        } else if s == "5/6"@ {
            CodeRate::Cr56
        } else if s == "4/5LI"@ {
            CodeRate::CrLi45
        } else if s == "4/6LI"@ {
            CodeRate::CrLi46
        } else if s == "4/8LI"@ {
            CodeRate::CrLi48
        } else {
            CodeRate::Undefined
        }
    }

    pub fn to_proto(self) -> (res: i32)
        ensures
            res == self.spec_to_proto(),
    {
        match self {
            CodeRate::Undefined => 0,
            CodeRate::Cr45 => 1,
            CodeRate::Cr46 => 2,
            CodeRate::Cr47 => 3,
            CodeRate::Cr48 => 4,
            CodeRate::Cr38 => 5,
            CodeRate::Cr26 => 6,
            CodeRate::Cr14 => 7,
            CodeRate::Cr16 => 8,
            CodeRate::Cr56 => 1,
            CodeRate::CrLi45 => 10,
            CodeRate::CrLi46 => 11,
            CodeRate::CrLi48 => 12,
        }
    }

    pub fn from_proto(v: i32) -> (res: CodeRate)
        ensures
            res == CodeRate::spec_from_proto(v),
    {
        if v == 1 {
            CodeRate::Cr45
        } else if v == 2 {
            CodeRate::Cr46
        } else if v == 3 {
            CodeRate::Cr47
        } else if v == 4 {
            CodeRate::Cr48
        } else if v == 5 {
            CodeRate::Cr38
        } else if v == 6 {
            CodeRate::Cr26
        } else if v == 7 {
            CodeRate::Cr14
        } else if v == 8 {
            CodeRate::Cr16
        } else if v == 9 {
            CodeRate::Cr56
        } else if v == 10 {
            CodeRate::CrLi45
        } else if v == 11 {
            CodeRate::CrLi46
        } else if v == 12 {
            CodeRate::CrLi48
        } else {
            CodeRate::Undefined
        }
    }

    pub fn serialize(&self) -> (res: Option<String>)
        ensures
            match res {
                Some(s) => self.spec_serialize() == Some(s@),
                None => self.spec_serialize() is None,
            },
    {
        let s: &str = match self {
            CodeRate::Cr45 => "4/5",
            CodeRate::Cr46 => "4/6",
            CodeRate::Cr47 => "4/7",
            CodeRate::Cr48 => "4/8",
            CodeRate::Cr38 => "3/8",
            CodeRate::Cr26 => "2/6",
            CodeRate::Cr14 => "1/4",
            CodeRate::Cr16 => "1/6",
            CodeRate::Cr56 => "5/6",
            CodeRate::CrLi45 => "4/5LI",
            CodeRate::CrLi46 => "4/6LI",
            CodeRate::CrLi48 => "4/5LI",
            CodeRate::Undefined => {
                return None;
            },
        };
        Some(String::from_str(s))
    }

    pub fn deserialize(s: &str) -> (res: CodeRate)
        ensures
            res == CodeRate::spec_deserialize(s@),
    {
        let v = chars_of(s);
        let v = v.as_slice();
        if chars_eq(v, "4/5") {
            CodeRate::Cr45
        } else if chars_eq(v, "4/6") || chars_eq(v, "2/3") {
            CodeRate::Cr46
        } else if chars_eq(v, "4/7") {
            CodeRate::Cr47
        } else if chars_eq(v, "4/8") || chars_eq(v, "2/4") || chars_eq(v, "1/2") {
            CodeRate::Cr48
        } else if chars_eq(v, "3/8") {
            CodeRate::Cr38
        } else if chars_eq(v, "2/6") || chars_eq(v, "1/3") {
            CodeRate::Cr26
        } else if chars_eq(v, "1/4") {
            CodeRate::Cr14
        } else if chars_eq(v, "1/6") {
            CodeRate::Cr16
        } else if chars_eq(v, "5/6") {
            CodeRate::Cr56
        } else if chars_eq(v, "4/5LI") {
            CodeRate::CrLi45
        } else if chars_eq(v, "4/6LI") {
            CodeRate::CrLi46
        } else if chars_eq(v, "4/8LI") {
            CodeRate::CrLi48
        } else {
            CodeRate::Undefined
        }
    }
}

/// Modulation identifier of a packet.
#[derive(Clone, Copy, PartialEq, Eq, Structural, Debug)]
pub enum Modulation {
    Lora,
    Fsk,
    LrFhss,
}

/// A `modu` text that names no modulation.
#[derive(Clone, Copy, PartialEq, Eq, Structural, Debug)]
pub struct UnexpectedModulation;

impl Modulation {
    pub open spec fn spec_serialize(self) -> Seq<char> {
        match self {
            Modulation::Lora => "LORA"@,
            Modulation::Fsk => "FSK"@,
            Modulation::LrFhss => "LR-FHSS"@,
        }
    }

    pub open spec fn spec_deserialize(s: Seq<char>) -> Result<Modulation, UnexpectedModulation> {
        if s == "LORA"@ {
            Ok(Modulation::Lora)
        } else if s == "Fsk"@ {
            Ok(Modulation::Fsk)
        } else if s == "LR-FHSS"@ {
            Ok(Modulation::LrFhss)
        } else {
            Err(UnexpectedModulation)
        }
    }

    pub fn serialize(&self) -> (res: String)
        ensures
            res@ == self.spec_serialize(),
    {
        match self {
            Modulation::Lora => String::from_str("LORA"),
            Modulation::Fsk => String::from_str("FSK"),
            Modulation::LrFhss => String::from_str("LR-FHSS"),
        }
    }

    pub fn deserialize(s: &str) -> (res: Result<Modulation, UnexpectedModulation>)
        ensures
            res == Modulation::spec_deserialize(s@),
    {
        let v = chars_of(s);
        let v = v.as_slice();
        if chars_eq(v, "LORA") {
            Ok(Modulation::Lora)
        } else if chars_eq(v, "Fsk") {
            Ok(Modulation::Fsk)
        } else if chars_eq(v, "LR-FHSS") {
            Ok(Modulation::LrFhss)
        } else {
            Err(UnexpectedModulation)
        }
    }
}

/// Data rate of a packet.
#[derive(Clone, Copy, PartialEq, Eq, Structural, Debug)]
pub enum DataRate {
    /// LoRa: spreading factor and bandwidth (Hz).
    Lora(u32, u32),
    /// FSK: bitrate.
    Fsk(u32),
    /// LR-FHSS: operating channel width (Hz).
    LrFhss(u32),
}

/// The JSON value of a `datr` field: LoRa and LR-FHSS rates are text, FSK rates a number.
#[derive(Clone, PartialEq, Eq, Debug)]
pub enum Datr {
    Text(String),
    Number(u64),
    /// Any other JSON value.
    Other,
}

#[derive(Clone, Copy, PartialEq, Eq, Structural, Debug)]
pub enum DataRateError {
    /// Text that is neither a LoRa nor an LR-FHSS data rate.
    UnexpectedString,
    InvalidLora,
    InvalidLrFhss,
    /// Neither text nor a number.
    UnexpectedType,
}

/// Kilohertz to hertz, as a 32-bit product (wrapping).
pub open spec fn khz_to_hz(v: u32) -> u32 {
    ((v as nat * 1000) % 0x1_0000_0000) as u32
}

pub open spec fn spec_datr_from_str(v: Seq<char>) -> Result<DataRate, DataRateError> {
    if starts_with(v, "SF"@) {
        match find_from(v, "BW"@, 0) {
            None => Err(DataRateError::UnexpectedString),
            Some(p) => {
                if find_from(v, "BW"@, p + 2) is Some {
                    Err(DataRateError::UnexpectedString)
                } else {
                    match (
                        spec_parse_u32(v.subrange(2, p)),
                        spec_parse_u32(v.subrange(p + 2, v.len() as int)),
                    ) {
                        (Some(sf), Some(bw)) => Ok(DataRate::Lora(sf, khz_to_hz(bw))),
                        _ => Err(DataRateError::InvalidLora),
                    }
                }
            },
        }
    } else if starts_with(v, "M0CW"@) {
        match spec_parse_u32(v.subrange(4, v.len() as int)) {
            Some(ocw) => Ok(DataRate::LrFhss(khz_to_hz(ocw))),
            None => Err(DataRateError::InvalidLrFhss),
        }
    } else {
        Err(DataRateError::UnexpectedString)
    }
}

/// The `datr` text of a LoRa or LR-FHSS rate (bandwidths in kHz, rounded down).
pub open spec fn spec_datr_text(dr: DataRate) -> Seq<char> {
    match dr {
        DataRate::Lora(sf, bw) => "SF"@ + decimal(sf as nat) + "BW"@ + decimal(bw as nat / 1000),
        DataRate::LrFhss(ocw) => "M0CW"@ + decimal(ocw as nat / 1000),
        DataRate::Fsk(_) => Seq::empty(),
    }
}

impl DataRate {
    pub open spec fn spec_deserialize(v: Datr) -> Result<DataRate, DataRateError> {
        match v {
            Datr::Text(s) => spec_datr_from_str(s@),
            Datr::Number(n) => Ok(DataRate::Fsk(n as u32)),
            Datr::Other => Err(DataRateError::UnexpectedType),
        }
    }

    /// Reads a `datr` value: `SF<sf>BW<kHz>`, `M0CW<kHz>`, or an FSK bitrate
    /// (taken modulo 2^32).
    pub fn deserialize(v: &Datr) -> (res: Result<DataRate, DataRateError>)
        ensures
            res == DataRate::spec_deserialize(*v),
    {
        match v {
            Datr::Text(s) => DataRate::from_datr_str(s.as_str()),
            Datr::Number(n) => Ok(DataRate::Fsk(*n as u32)),
            Datr::Other => Err(DataRateError::UnexpectedType),
        }
    }

    fn from_datr_str(s: &str) -> (res: Result<DataRate, DataRateError>)
        ensures
            res == spec_datr_from_str(s@),
    {
        let v = chars_of(s);
        let v = v.as_slice();
        if starts_with_exec(v, "SF") {
            let bw_pat = chars_of("BW");
            let bw_pat = bw_pat.as_slice();
            let p = match find_from_exec(v, bw_pat, 0) {
                None => {
                    return Err(DataRateError::UnexpectedString);
                },
                Some(p) => p,
            };
            proof {
                reveal_strlit("SF");
                reveal_strlit("BW");
                lemma_find_from(v@, bw_pat@, 0);
                assert(v@.subrange(0, 2) == "SF"@);
                assert(occurs_at(v@, "BW"@, p as int));
                if p < 2 {
                    assert(v@.subrange(p as int, p + 2)[0] == v@[p as int]);
                    assert(v@.subrange(0, 2)[p as int] == v@[p as int]);
                }
            }
            if find_from_exec(v, bw_pat, p + 2).is_some() {
                return Err(DataRateError::UnexpectedString);
            }
            let sf_chars = sub_chars(v, 2, p);
            let bw_chars = sub_chars(v, p + 2, v.len());
            match (parse_u32(sf_chars.as_slice()), parse_u32(bw_chars.as_slice())) {
                (Some(sf), Some(bw)) => Ok(DataRate::Lora(sf, bw.wrapping_mul(1000))),
                _ => Err(DataRateError::InvalidLora),
            }
        } else if starts_with_exec(v, "M0CW") {
            proof {
                reveal_strlit("M0CW");
            }
            let rest = sub_chars(v, 4, v.len());
            match parse_u32(rest.as_slice()) {
                Some(ocw) => Ok(DataRate::LrFhss(ocw.wrapping_mul(1000))),
                None => Err(DataRateError::InvalidLrFhss),
            }
        } else {
            Err(DataRateError::UnexpectedString)
        }
    }

    /// The `datr` value of a rate: text for LoRa and LR-FHSS, the bitrate for FSK.
    pub fn serialize(&self) -> (res: Datr)
        ensures
            match *self {
                DataRate::Fsk(b) => res == Datr::Number(b as u64),
                _ => res matches Datr::Text(t) && t@ == spec_datr_text(*self),
            },
    {
        match self {
            DataRate::Lora(sf, bw) => {
                let mut s = String::from_str("SF");
                push_decimal(&mut s, *sf);
                s.append("BW");
                push_decimal(&mut s, *bw / 1000);
                Datr::Text(s)
            },
            DataRate::Fsk(b) => Datr::Number(*b as u64),
            DataRate::LrFhss(ocw) => {
                let mut s = String::from_str("M0CW");
                push_decimal(&mut s, *ocw / 1000);
                Datr::Text(s)
            },
        }
    }
}


/// Why a packet could not be converted to or from its gateway message.
#[derive(Clone, Copy, PartialEq, Eq, Structural, Debug)]
pub enum ConversionError {
    CodrMissing,
    HpwMissing,
    InvalidIndex,
    TxInfoMissing,
    TimingMissing,
    TimingParametersMissing,
    ModulationMissing,
    ModulationParametersMissing,
    ContextTooShort,
    DelayMissing,
    TimeSinceGpsEpochMissing,
    /// A negative duration.
    DurationOutOfRange,
}

/// Signal of one antenna (`rsig` entry); its SNR, a float, stays with the caller.
#[derive(Clone, Copy, PartialEq, Eq, Structural, Debug)]
pub struct RSig {
    pub ant: u8,
    pub chan: u8,
    pub rssic: i16,
}

/// A received packet (`rxpk` object) without its float fields: the frequency is
/// given in Hz, and the SNRs stay with the caller.
#[derive(Clone, PartialEq, Debug)]
pub struct RxPk {
    pub time: Option<gw::Timestamp>,
    pub tmms: Option<u64>,
    pub tmst: u32,
    pub ftime: Option<u32>,
    pub freq_hz: u32,
    pub chan: u32,
    pub rfch: u32,
    pub brd: u32,
    pub stat: Crc,
    pub modu: Modulation,
    pub datr: DataRate,
    pub codr: Option<CodeRate>,
    pub rssi: i32,
    pub hpw: Option<u8>,
    pub size: u8,
    pub data: Vec<u8>,
    pub rsig: Vec<RSig>,
    /// Custom metadata (not part of the protocol text).
    pub meta: Option<HashMap<String, String>>,
}

/// Four bytes, most significant first.
pub open spec fn be_bytes(v: u32) -> Seq<u8> {
    seq![
        (v / 0x100_0000) as u8,
        ((v / 0x1_0000) % 0x100) as u8,
        ((v / 0x100) % 0x100) as u8,
        (v % 0x100) as u8,
    ]
}

/// The number that four bytes denote, most significant first.
pub open spec fn be_u32(b: Seq<u8>) -> u32 {
    (b[0] as int * 0x100_0000 + b[1] as int * 0x1_0000 + b[2] as int * 0x100 + b[3] as int) as u32
}

/// A GPS time in milliseconds as a duration.
pub open spec fn gps_duration(tmms: u64) -> gw::Duration {
    gw::Duration { seconds: (tmms / 1000) as i64, nanos: ((tmms % 1000) * 1_000_000) as i32 }
}

/// GPS time truncated to whole seconds, plus the fine timestamp (nanoseconds).
pub open spec fn fine_duration(tmms: u64, ftime: u32) -> gw::Duration {
    gw::Duration {
        seconds: (tmms / 1000 + ftime / 1_000_000_000) as i64,
        nanos: (ftime % 1_000_000_000) as i32,
    }
}

pub open spec fn crc_status(c: Crc) -> gw::CrcStatus {
    match c {
        Crc::Valid => gw::CrcStatus::CrcOk,
        Crc::Invalid => gw::CrcStatus::BadCrc,
        Crc::Missing => gw::CrcStatus::NoCrc,
    }
}

/// The modulation of an uplink, from its data rate; LoRa and LR-FHSS need a
/// coding rate, LR-FHSS also the hopping grid.
pub open spec fn spec_uplink_modulation(rx: RxPk) -> Result<gw::ModulationParameters, ConversionError> {
    match rx.datr {
        DataRate::Lora(sf, bw) => match rx.codr {
            None => Err(ConversionError::CodrMissing),
            Some(c) => Ok(
                gw::ModulationParameters::Lora(
                    gw::LoraModulationInfo {
                        bandwidth: bw,
                        spreading_factor: sf,
                        code_rate: c.spec_to_proto(),
                        polarization_inversion: false,
                        preamble: 0,
                        no_crc: false,
                    },
                ),
            ),
        },
        DataRate::Fsk(b) => Ok(
            gw::ModulationParameters::Fsk(gw::FskModulationInfo { frequency_deviation: 0, datarate: b }),
        ),
        DataRate::LrFhss(ocw) => match rx.codr {
            None => Err(ConversionError::CodrMissing),
            Some(c) => match rx.hpw {
                None => Err(ConversionError::HpwMissing),
                Some(h) => Ok(
                    gw::ModulationParameters::LrFhss(
                        gw::LrFhssModulationInfo {
                            operating_channel_width: ocw,
                            code_rate: c.spec_to_proto(),
                            grid_steps: h as u32,
                        },
                    ),
                ),
            },
        },
    }
}

/// `f` is the uplink frame of packet `rx` received by gateway `gateway_id`, with
/// the given id, modulation and per-antenna values.
pub open spec fn is_uplink_frame(
    f: gw::UplinkFrame,
    rx: RxPk,
    gateway_id: Seq<u8>,
    uplink_id: u32,
    fallback_time: Option<gw::Timestamp>,
    m: gw::ModulationParameters,
    antenna: u32,
    channel: u32,
    rssi: i32,
    rsig_index: Option<usize>,
) -> bool {
    &&& f.phy_payload@ == rx.data@
    &&& f.tx_info == Some(
        gw::UplinkTxInfo {
            frequency: rx.freq_hz,
            modulation: Some(gw::Modulation { parameters: Some(m) }),
        },
    )
    &&& f.rx_info matches Some(ri) && {
        &&& ri.gateway_id@ == crate::text::hex_lower(gateway_id)
        &&& ri.uplink_id == uplink_id
        &&& ri.gw_time == (if rx.time is Some {
            rx.time
        } else {
            fallback_time
        })
        &&& ri.time_since_gps_epoch == (match rx.tmms {
            Some(t) => Some(gps_duration(t)),
            None => None,
        })
        &&& ri.fine_time_since_gps_epoch == (match (rx.tmms, rx.ftime) {
            (Some(t), Some(ft)) => Some(fine_duration(t, ft)),
            _ => None,
        })
        &&& ri.rssi == rssi
        &&& ri.channel == channel
        &&& ri.rf_chain == rx.rfch
        &&& ri.board == rx.brd
        &&& ri.antenna == antenna
        &&& ri.context@ == be_bytes(rx.tmst)
        &&& ri.crc_status == crc_status(rx.stat)
        &&& ri.rsig_index == rsig_index
        &&& ri.metadata@ == (match rx.meta {
            Some(m) => m@,
            None => Map::<String, String>::empty(),
        })
    }
}

/// `frames` are the uplink frames of packet `rx` made with these uplink ids
/// (`ids[0]` for a packet without `rsig` entries, `ids[i + 1]` for the frame of
/// entry `i`) and this time for a packet without one.
pub open spec fn uplink_frames_of(
    frames: Seq<gw::UplinkFrame>,
    rx: RxPk,
    gateway_id: Seq<u8>,
    ids: Seq<u32>,
    fallback_time: Option<gw::Timestamp>,
) -> bool {
    match spec_uplink_modulation(rx) {
        Err(_) => false,
        Ok(m) => if rx.rsig.len() == 0 {
            &&& frames.len() == 1
            &&& is_uplink_frame(frames[0], rx, gateway_id, ids[0], fallback_time, m, 0, rx.chan, rx.rssi, None)
        } else {
            &&& frames.len() == rx.rsig.len()
            &&& forall|i: int|
                0 <= i < frames.len() ==> is_uplink_frame(
                    #[trigger] frames[i],
                    rx,
                    gateway_id,
                    ids[i + 1],
                    fallback_time,
                    m,
                    rx.rsig[i].ant as u32,
                    rx.rsig[i].chan as u32,
                    rx.rsig[i].rssic as i32,
                    Some(i as usize),
                )
        },
    }
}

/// `frames` are the uplink frames of packet `rx`, for some fresh uplink ids and,
/// when the packet has no time and the fallback is enabled, some current time.
pub open spec fn packet_frames(
    frames: Seq<gw::UplinkFrame>,
    rx: RxPk,
    gateway_id: Seq<u8>,
    time_fallback_enabled: bool,
) -> bool {
    exists|ids: Seq<u32>, fallback: Option<gw::Timestamp>|
        {
            &&& ids.len() == rx.rsig.len() + 1
            &&& (fallback is Some <==> (rx.time is None && time_fallback_enabled))
            &&& #[trigger] uplink_frames_of(frames, rx, gateway_id, ids, fallback)
        }
}

/// One random uplink id (`rand::thread_rng().gen::<u32>()`); nothing is claimed of it.
#[verifier::external_body]
fn random_uplink_id() -> u32 {
    rand::thread_rng().gen::<u32>()
}

/// The current time (`chrono::Utc::now`, read with `timestamp` and
/// `timestamp_subsec_nanos`), as seconds and nanoseconds since the epoch; nothing is
/// claimed of it.
#[verifier::external_body]
fn utc_now() -> gw::Timestamp {
    let now = chrono::Utc::now();
    gw::Timestamp { seconds: now.timestamp(), nanos: now.timestamp_subsec_nanos() as i32 }
}

impl RxPk {
    /// Uplink frames of this packet: one, or one per `rsig` entry. Each frame gets
    /// a fresh random uplink id; without a receive time, the current time is used
    /// when `time_fallback_enabled`.
    pub fn to_proto(&self, gateway_id: &[u8], time_fallback_enabled: bool) -> (res: Result<
        Vec<gw::UplinkFrame>,
        ConversionError,
    >)
        requires
            self.rsig.len() < usize::MAX,
        ensures
            match spec_uplink_modulation(*self) {
                Err(e) => res == Err::<Vec<gw::UplinkFrame>, ConversionError>(e),
                Ok(_) => res is Ok,
            },
            res matches Ok(frames) ==> packet_frames(frames@, *self, gateway_id@, time_fallback_enabled),
    {
        let mut ids: Vec<u32> = Vec::new();
        ids.push(random_uplink_id());
        let mut i: usize = 0;
        while i < self.rsig.len()
            invariant
                ids.len() == i + 1,
                i <= self.rsig.len(),
                self.rsig.len() < usize::MAX,
            decreases self.rsig.len() - i,
        {
            ids.push(random_uplink_id());
            i = i + 1;
        }
        let fallback = if self.time.is_none() && time_fallback_enabled {
            Some(utc_now())
        } else {
            None
        };
        let res = self.to_proto_with(gateway_id, ids.as_slice(), fallback);
        proof {
            if res is Ok {
                assert(uplink_frames_of(res->Ok_0@, *self, gateway_id@, ids@, fallback));
            }
        }
        res
    }

    /// Uplink frames of this packet, with the given uplink ids (`uplink_ids[0]` for
    /// a packet without `rsig` entries, `uplink_ids[i + 1]` for the frame of entry
    /// `i`) and the time to use when the packet has none.
    pub fn to_proto_with(
        &self,
        gateway_id: &[u8],
        uplink_ids: &[u32],
        fallback_time: Option<gw::Timestamp>,
    ) -> (res: Result<Vec<gw::UplinkFrame>, ConversionError>)
        requires
            uplink_ids.len() == self.rsig.len() + 1,
        ensures
            match spec_uplink_modulation(*self) {
                Err(e) => res == Err::<Vec<gw::UplinkFrame>, ConversionError>(e),
                Ok(_) => res matches Ok(frames) && uplink_frames_of(
                    frames@,
                    *self,
                    gateway_id@,
                    uplink_ids@,
                    fallback_time,
                ),
            },
    {
        let m = self.modulation()?;
        if self.rsig.len() == 0 {
            let f = self.frame(gateway_id, uplink_ids[0], fallback_time, m, 0, self.chan, self.rssi, None);
            let mut out: Vec<gw::UplinkFrame> = Vec::new();
            out.push(f);
            return Ok(out);
        }
        let mut out: Vec<gw::UplinkFrame> = Vec::new();
        let mut i: usize = 0;
        while i < self.rsig.len()
            invariant
                i <= self.rsig.len(),
                uplink_ids.len() == self.rsig.len() + 1,
                spec_uplink_modulation(*self) == Ok::<gw::ModulationParameters, ConversionError>(m),
                out.len() == i,
                forall|k: int|
                    0 <= k < i ==> is_uplink_frame(
                        #[trigger] out[k],
                        *self,
                        gateway_id@,
                        uplink_ids[k + 1],
                        fallback_time,
                        m,
                        self.rsig[k].ant as u32,
                        self.rsig[k].chan as u32,
                        self.rsig[k].rssic as i32,
                        Some(k as usize),
                    ),
            decreases self.rsig.len() - i,
        {
            let rs = self.rsig[i];
            let f = self.frame(
                gateway_id,
                uplink_ids[i + 1],
                fallback_time,
                m,
                rs.ant as u32,
                rs.chan as u32,
                rs.rssic as i32,
                Some(i),
            );
            out.push(f);
            i = i + 1;
        }
        Ok(out)
    }

    fn modulation(&self) -> (res: Result<gw::ModulationParameters, ConversionError>)
        ensures
            res == spec_uplink_modulation(*self),
    {
        match self.datr {
            DataRate::Lora(sf, bw) => match self.codr {
                None => Err(ConversionError::CodrMissing),
                Some(c) => Ok(
                    gw::ModulationParameters::Lora(
                        gw::LoraModulationInfo {
                            bandwidth: bw,
                            spreading_factor: sf,
                            code_rate: c.to_proto(),
                            polarization_inversion: false,
                            preamble: 0,
                            no_crc: false,
                        },
                    ),
                ),
            },
            DataRate::Fsk(b) => Ok(
                gw::ModulationParameters::Fsk(gw::FskModulationInfo { frequency_deviation: 0, datarate: b }),
            ),
            DataRate::LrFhss(ocw) => match self.codr {
                None => Err(ConversionError::CodrMissing),
                Some(c) => match self.hpw {
                    None => Err(ConversionError::HpwMissing),
                    Some(h) => Ok(
                        gw::ModulationParameters::LrFhss(
                            gw::LrFhssModulationInfo {
                                operating_channel_width: ocw,
                                code_rate: c.to_proto(),
                                grid_steps: h as u32,
                            },
                        ),
                    ),
                },
            },
        }
    }

    fn frame(
        &self,
        gateway_id: &[u8],
        uplink_id: u32,
        fallback_time: Option<gw::Timestamp>,
        m: gw::ModulationParameters,
        antenna: u32,
        channel: u32,
        rssi: i32,
        rsig_index: Option<usize>,
    ) -> (f: gw::UplinkFrame)
        ensures
            is_uplink_frame(
                f,
                *self,
                gateway_id@,
                uplink_id,
                fallback_time,
                m,
                antenna,
                channel,
                rssi,
                rsig_index,
            ),
    {
        let time = match self.time {
            Some(t) => Some(t),
            None => fallback_time,
        };
        let gps = match self.tmms {
            Some(t) => Some(
                gw::Duration { seconds: (t / 1000) as i64, nanos: ((t % 1000) * 1_000_000) as i32 },
            ),
            None => None,
        };
        let fine = match (self.tmms, self.ftime) {
            (Some(t), Some(ft)) => Some(
                gw::Duration {
                    seconds: (t / 1000 + (ft / 1_000_000_000) as u64) as i64,
                    nanos: (ft % 1_000_000_000) as i32,
                },
            ),
            _ => None,
        };
        let mut context: Vec<u8> = Vec::with_capacity(4);
        context.push((self.tmst / 0x100_0000) as u8);
        context.push(((self.tmst / 0x1_0000) % 0x100) as u8);
        context.push(((self.tmst / 0x100) % 0x100) as u8);
        context.push((self.tmst % 0x100) as u8);
        assert(context@ =~= be_bytes(self.tmst));
        let metadata = match &self.meta {
            Some(m) => m.clone(),
            None => HashMap::new(),
        };
        let crc = match self.stat {
            Crc::Valid => gw::CrcStatus::CrcOk,
            Crc::Invalid => gw::CrcStatus::BadCrc,
            Crc::Missing => gw::CrcStatus::NoCrc,
        };
        gw::UplinkFrame {
            phy_payload: slice_to_vec(self.data.as_slice()),
            tx_info: Some(
                gw::UplinkTxInfo {
                    frequency: self.freq_hz,
                    modulation: Some(gw::Modulation { parameters: Some(m) }),
                },
            ),
            rx_info: Some(
                gw::UplinkRxInfo {
                    gateway_id: hex_encode(gateway_id),
                    uplink_id,
                    gw_time: time,
                    time_since_gps_epoch: gps,
                    fine_time_since_gps_epoch: fine,
                    rssi,
                    channel,
                    rf_chain: self.rfch,
                    board: self.brd,
                    antenna,
                    context,
                    crc_status: crc,
                    rsig_index,
                    metadata,
                },
            ),
        }
    }
}


/// A packet to transmit (`txpk` object), without its float field: the frequency
/// is given in Hz.
#[derive(Clone, PartialEq, Debug)]
pub struct TxPk {
    pub imme: bool,
    pub rfch: u8,
    pub powe: u8,
    pub ant: u8,
    pub brd: u8,
    pub tmst: Option<u32>,
    pub tmms: Option<u64>,
    pub freq_hz: u32,
    pub modu: Modulation,
    pub datr: DataRate,
    pub codr: Option<CodeRate>,
    pub fdev: Option<u16>,
    pub ncrc: Option<bool>,
    pub ipol: Option<bool>,
    pub prea: Option<u16>,
    pub size: u16,
    pub data: Vec<u8>,
}

#[derive(Clone, PartialEq, Debug)]
pub struct PullRespPayload {
    pub txpk: TxPk,
}

/// A PULL_RESP datagram.
#[derive(Clone, PartialEq, Debug)]
pub struct PullResp {
    pub random_token: u16,
    pub payload: PullRespPayload,
}

/// A non-negative protobuf duration as `(seconds, nanoseconds)` with the nanoseconds
/// carried over into the seconds.
pub open spec fn std_duration(d: gw::Duration) -> (u64, u32) {
    ((d.seconds + d.nanos / 1_000_000_000) as u64, (d.nanos % 1_000_000_000) as u32)
}

/// Converts a protobuf duration to `std::time::Duration` (`TryFrom` of `pbjson_types`):
/// refused when the seconds or the nanoseconds are negative.
#[verifier::external_body]
fn to_std_duration(d: gw::Duration) -> (res: Option<(u64, u32)>)
    ensures
        match res {
            Some(v) => d.seconds >= 0 && d.nanos >= 0 && v == std_duration(d),
            None => d.seconds < 0 || d.nanos < 0,
        },
{
    let p = pbjson_types::Duration { seconds: d.seconds, nanos: d.nanos };
    let r: Result<std::time::Duration, _> = p.try_into();
    match r {
        Ok(v) => Some((v.as_secs(), v.subsec_nanos())),
        Err(_) => None,
    }
}

/// The concentrator counter value of a delayed transmission: the context
/// timestamp plus the delay in microseconds, modulo 2^32.
pub open spec fn delay_tmst(context: Seq<u8>, delay: gw::Duration) -> u32 {
    let (s, n) = std_duration(delay);
    ((be_u32(context) as nat + s as nat * 1_000_000 + n as nat / 1000) % 0x1_0000_0000) as u32
}

/// GPS time in milliseconds, modulo 2^64.
pub open spec fn gps_millis(d: gw::Duration) -> u64 {
    let (s, n) = std_duration(d);
    ((s as nat * 1000 + n as nat / 1_000_000) % 0x1_0000_0000_0000_0000) as u64
}

/// The parts of item `index` that a `txpk` is built from, looked up in order:
/// the first missing one is the error.
pub open spec fn spec_downlink_parts(pl: gw::DownlinkFrame, index: usize) -> Result<
    (gw::DownlinkTxInfo, gw::TimingParameters, gw::ModulationParameters),
    ConversionError,
> {
    if index >= pl.items.len() {
        Err(ConversionError::InvalidIndex)
    } else {
        match pl.items[index as int].tx_info {
            None => Err(ConversionError::TxInfoMissing),
            Some(tx) => match tx.timing {
                None => Err(ConversionError::TimingMissing),
                Some(timing) => match timing.parameters {
                    None => Err(ConversionError::TimingParametersMissing),
                    Some(tp) => match tx.modulation {
                        None => Err(ConversionError::ModulationMissing),
                        Some(modulation) => match modulation.parameters {
                            None => Err(ConversionError::ModulationParametersMissing),
                            Some(mp) => Ok((tx, tp, mp)),
                        },
                    },
                },
            },
        }
    }
}

/// The `tmst` and `tmms` of a transmission: a delay counts from the timestamp in
/// the first four context bytes, a GPS time is given in milliseconds.
pub open spec fn spec_downlink_timing(context: Seq<u8>, tp: gw::TimingParameters) -> Result<
    (Option<u32>, Option<u64>),
    ConversionError,
> {
    match tp {
        gw::TimingParameters::Delay(d) => if context.len() < 4 {
            Err(ConversionError::ContextTooShort)
        } else {
            match d {
                None => Err(ConversionError::DelayMissing),
                Some(d) => if d.seconds < 0 || d.nanos < 0 {
                    Err(ConversionError::DurationOutOfRange)
                } else {
                    Ok((Some(delay_tmst(context, d)), None))
                },
            }
        },
        gw::TimingParameters::GpsEpoch(g) => match g {
            None => Err(ConversionError::TimeSinceGpsEpochMissing),
            Some(g) => if g.seconds < 0 || g.nanos < 0 {
                Err(ConversionError::DurationOutOfRange)
            } else {
                Ok((None, Some(gps_millis(g))))
            },
        },
        gw::TimingParameters::Immediately => Ok((None, None)),
    }
}

/// `t` is the `txpk` of `item`, from the looked-up parts.
pub open spec fn is_txpk(
    t: TxPk,
    item: gw::DownlinkFrameItem,
    tx: gw::DownlinkTxInfo,
    tp: gw::TimingParameters,
    mp: gw::ModulationParameters,
    tmst: Option<u32>,
    tmms: Option<u64>,
) -> bool {
    &&& t.imme == (tp is Immediately)
    &&& t.rfch == 0
    &&& t.powe == (tx.power % 256) as u8
    &&& t.ant == (tx.antenna % 256) as u8
    &&& t.brd == (tx.board % 256) as u8
    &&& t.tmst == tmst
    &&& t.tmms == tmms
    &&& t.freq_hz == tx.frequency
    &&& t.modu == match mp {
        gw::ModulationParameters::Lora(_) => Modulation::Lora,
        gw::ModulationParameters::Fsk(_) => Modulation::Fsk,
        gw::ModulationParameters::LrFhss(_) => Modulation::LrFhss,
    }
    &&& t.datr == match mp {
        gw::ModulationParameters::Lora(v) => DataRate::Lora(v.spreading_factor, v.bandwidth),
        gw::ModulationParameters::Fsk(v) => DataRate::Fsk(v.datarate),
        gw::ModulationParameters::LrFhss(v) => DataRate::LrFhss(v.operating_channel_width),
    }
    &&& t.codr == match mp {
        gw::ModulationParameters::Lora(v) => Some(CodeRate::spec_from_proto(v.code_rate)),
        _ => None,
    }
    &&& t.fdev == match mp {
        gw::ModulationParameters::Fsk(v) => Some((v.frequency_deviation % 0x1_0000) as u16),
        _ => None,
    }
    &&& t.ncrc is None
    &&& t.ipol == match mp {
        gw::ModulationParameters::Lora(v) => Some(v.polarization_inversion),
        _ => None,
    }
    &&& t.prea is None
    &&& t.size == (item.phy_payload.len() % 0x1_0000) as u16
    &&& t.data@ == item.phy_payload@
}

fn be_u32_of(c: &Vec<u8>) -> (res: u32)
    requires
        c.len() >= 4,
    ensures
        res == be_u32(c@),
{
    c[0] as u32 * 0x100_0000 + c[1] as u32 * 0x1_0000 + c[2] as u32 * 0x100 + c[3] as u32
}

fn add_delay(ts: u32, s: u64, n: u32) -> (res: u32)
    ensures
        res == ((ts as nat + s as nat * 1_000_000 + n as nat / 1000) % 0x1_0000_0000) as u32,
{
    let sum: u128 = ts as u128 + s as u128 * 1_000_000 + (n / 1000) as u128;
    (sum % 0x1_0000_0000) as u32
}

fn to_millis(s: u64, n: u32) -> (res: u64)
    ensures
        res == ((s as nat * 1000 + n as nat / 1_000_000) % 0x1_0000_0000_0000_0000) as u64,
{
    let millis: u128 = s as u128 * 1000 + (n / 1_000_000) as u128;
    (millis % 0x1_0000_0000_0000_0000) as u64
}

fn downlink_timing(context: &Vec<u8>, tp: gw::TimingParameters) -> (res: Result<
    (Option<u32>, Option<u64>),
    ConversionError,
>)
    ensures
        res == spec_downlink_timing(context@, tp),
{
    match tp {
        gw::TimingParameters::Delay(d) => {
            if context.len() < 4 {
                return Err(ConversionError::ContextTooShort);
            }
            let d = match d {
                None => {
                    return Err(ConversionError::DelayMissing);
                },
                Some(d) => d,
            };
            let (s, n) = match to_std_duration(d) {
                None => {
                    return Err(ConversionError::DurationOutOfRange);
                },
                Some(v) => v,
            };
            Ok((Some(add_delay(be_u32_of(context), s, n)), None))
        },
        gw::TimingParameters::GpsEpoch(g) => {
            let g = match g {
                None => {
                    return Err(ConversionError::TimeSinceGpsEpochMissing);
                },
                Some(g) => g,
            };
            let (s, n) = match to_std_duration(g) {
                None => {
                    return Err(ConversionError::DurationOutOfRange);
                },
                Some(v) => v,
            };
            Ok((None, Some(to_millis(s, n))))
        },
        gw::TimingParameters::Immediately => Ok((None, None)),
    }
}

/// The low eight bits of a number (what `as u8` keeps).
fn low_byte(x: u32) -> (r: u8)
    ensures
        r == (x % 256) as u8,
{
    (x % 256) as u8
}

/// The low eight bits, in two's complement, of a signed number (what `as u8` keeps).
fn low_byte_i32(x: i32) -> (r: u8)
    ensures
        r == (x % 256) as u8,
{
    if x >= 0 {
        (x % 256) as u8
    } else {
        let m: i64 = (-(x as i64)) % 256;
        ((256 - m) % 256) as u8
    }
}

/// The low sixteen bits of a number (what `as u16` keeps).
fn low_u16(x: u64) -> (r: u16)
    ensures
        r == (x % 0x1_0000) as u16,
{
    (x % 0x1_0000) as u16
}

fn build_txpk(
    item: &gw::DownlinkFrameItem,
    tx: &gw::DownlinkTxInfo,
    tp: gw::TimingParameters,
    mp: gw::ModulationParameters,
    tmst: Option<u32>,
    tmms: Option<u64>,
) -> (t: TxPk)
    ensures
        is_txpk(t, *item, *tx, tp, mp, tmst, tmms),
{
    let imme = match tp {
        gw::TimingParameters::Immediately => true,
        _ => false,
    };
    let (modu, datr, codr, fdev, ipol) = match mp {
        gw::ModulationParameters::Lora(v) => (
            Modulation::Lora,
            DataRate::Lora(v.spreading_factor, v.bandwidth),
            Some(CodeRate::from_proto(v.code_rate)),
            None,
            Some(v.polarization_inversion),
        ),
        gw::ModulationParameters::Fsk(v) => (
            Modulation::Fsk,
            DataRate::Fsk(v.datarate),
            None,
            Some(low_u16(v.frequency_deviation as u64)),
            None,
        ),
        gw::ModulationParameters::LrFhss(v) => (
            Modulation::LrFhss,
            DataRate::LrFhss(v.operating_channel_width),
            None,
            None,
            None,
        ),
    };
    TxPk {
        imme,
        rfch: 0,
        powe: low_byte_i32(tx.power),
        ant: low_byte(tx.antenna),
        brd: low_byte(tx.board),
        tmst,
        tmms,
        freq_hz: tx.frequency,
        modu,
        datr,
        codr,
        fdev,
        ncrc: None,
        ipol,
        prea: None,
        size: low_u16(item.phy_payload.len() as u64),
        data: slice_to_vec(item.phy_payload.as_slice()),
    }
}

impl PullResp {
    /// The PULL_RESP that transmits item `index` of a downlink frame.
    pub fn from_proto(pl: &gw::DownlinkFrame, index: usize, random_token: u16) -> (res: Result<
        PullResp,
        ConversionError,
    >)
        ensures
            match spec_downlink_parts(*pl, index) {
                Err(e) => res == Err::<PullResp, ConversionError>(e),
                Ok((tx, tp, mp)) => match spec_downlink_timing(tx.context@, tp) {
                    Err(e) => res == Err::<PullResp, ConversionError>(e),
                    Ok((tmst, tmms)) => res matches Ok(r) && r.random_token == random_token
                        && is_txpk(r.payload.txpk, pl.items[index as int], tx, tp, mp, tmst, tmms),
                },
            },
    {
        if index >= pl.items.len() {
            return Err(ConversionError::InvalidIndex);
        }
        let item = &pl.items[index];
        let tx_info = match &item.tx_info {
            None => {
                return Err(ConversionError::TxInfoMissing);
            },
            Some(t) => t,
        };
        let timing = match tx_info.timing {
            None => {
                return Err(ConversionError::TimingMissing);
            },
            Some(t) => t,
        };
        let tp = match timing.parameters {
            None => {
                return Err(ConversionError::TimingParametersMissing);
            },
            Some(p) => p,
        };
        let modulation = match tx_info.modulation {
            None => {
                return Err(ConversionError::ModulationMissing);
            },
            Some(m) => m,
        };
        let mp = match modulation.parameters {
            None => {
                return Err(ConversionError::ModulationParametersMissing);
            },
            Some(p) => p,
        };
        let (tmst, tmms) = downlink_timing(&tx_info.context, tp)?;
        let txpk = build_txpk(item, tx_info, tp, mp, tmst, tmms);
        Ok(PullResp { random_token, payload: PullRespPayload { txpk } })
    }

    /// The datagram: header, then the JSON object (`{"txpk": ...}`) as given.
    pub fn to_vec(&self, payload_json: &[u8]) -> (res: Vec<u8>)
        ensures
            res@ == seq![
                PROTOCOL_VERSION,
                (self.random_token % 256) as u8,
                (self.random_token / 256) as u8,
                PULL_RESP_ID,
            ] + payload_json@,
    {
        let mut b = ack_vec(self.random_token, PULL_RESP_ID);
        let mut i: usize = 0;
        while i < payload_json.len()
            invariant
                i <= payload_json.len(),
                b@ == ack_bytes(self.random_token, PULL_RESP_ID) + payload_json@.take(i as int),
            decreases payload_json.len() - i,
        {
            b.push(payload_json[i]);
            assert(payload_json@.take(i + 1) == payload_json@.take(i as int).push(payload_json@[i as int]));
            i = i + 1;
        }
        assert(payload_json@.take(payload_json.len() as int) == payload_json@);
        b
    }
}

/// Status of a transmission, from the `error` text of a TX_ACK.
pub open spec fn spec_tx_ack_status(error: Seq<char>) -> gw::TxAckStatus {
    if error == ""@ || error == "NONE"@ {
        gw::TxAckStatus::Success
    } else if error == "TOO_LATE"@ {
        gw::TxAckStatus::TooLate
    } else if error == "TOO_EARLY"@ {
        gw::TxAckStatus::TooEarly
    } else if error == "COLLISION_PACKET"@ {
        gw::TxAckStatus::CollisionPacket
    } else if error == "COLLISION_BEACON"@ {
        gw::TxAckStatus::CollisionBeacon
    } else if error == "TX_FREQ"@ {
        gw::TxAckStatus::TxFreq
    } else if error == "TX_POWER"@ {
        gw::TxAckStatus::TxPower
    } else if error == "GPS_UNLOCKED"@ {
        gw::TxAckStatus::GpsUnlocked
    } else {
        gw::TxAckStatus::InternalError
    }
}

impl TxAck {
    /// The transmission status: success without a payload, else from its `error` text.
    pub fn to_proto_tx_ack_status(&self) -> (res: gw::TxAckStatus)
        ensures
            res == match self.payload {
                None => gw::TxAckStatus::Success,
                Some(pl) => spec_tx_ack_status(pl.txpk_ack.error@),
            },
    {
        match &self.payload {
            None => gw::TxAckStatus::Success,
            Some(pl) => {
                let v = chars_of(pl.txpk_ack.error.as_str());
                let v = v.as_slice();
                if chars_eq(v, "") || chars_eq(v, "NONE") {
                    gw::TxAckStatus::Success
                } else if chars_eq(v, "TOO_LATE") {
                    gw::TxAckStatus::TooLate
                } else if chars_eq(v, "TOO_EARLY") {
                    gw::TxAckStatus::TooEarly
                } else if chars_eq(v, "COLLISION_PACKET") {
                    gw::TxAckStatus::CollisionPacket
                } else if chars_eq(v, "COLLISION_BEACON") {
                    gw::TxAckStatus::CollisionBeacon
                } else if chars_eq(v, "TX_FREQ") {
                    gw::TxAckStatus::TxFreq
                } else if chars_eq(v, "TX_POWER") {
                    gw::TxAckStatus::TxPower
                } else if chars_eq(v, "GPS_UNLOCKED") {
                    gw::TxAckStatus::GpsUnlocked
                } else {
                    gw::TxAckStatus::InternalError
                }
            },
        }
    }
}


// Laws of the wire format.

/// The two token bytes of an acknowledgement are those of the datagram it answers.
pub proof fn ack_echoes_token(lo: u8, hi: u8, id: u8)
    ensures
        ack_bytes(le_u16(lo, hi), id)[1] == lo,
        ack_bytes(le_u16(lo, hi), id)[2] == hi,
        ack_bytes(le_u16(lo, hi), id).len() == 4,
{
}

/// Writing a token as two little-endian bytes and reading it back gives the token.
pub proof fn token_bytes_roundtrip(token: u16)
    ensures
        le_u16((token % 256) as u8, (token / 256) as u8) == token,
{
}

/// A CRC status read back from its `stat` number is the status written.
pub proof fn crc_roundtrip(c: Crc)
    ensures
        Crc::spec_from_i32(c.spec_to_i32()) == c,
{
}

/// A modulation read back from its `modu` text is the modulation written, except
/// FSK: it is written `FSK` (as a `txpk` carries it) and read as `Fsk` (as an
/// `rxpk` carries it).
pub proof fn modulation_roundtrip(m: Modulation)
    requires
        m != Modulation::Fsk,
    ensures
        Modulation::spec_deserialize(m.spec_serialize()) == Ok::<Modulation, UnexpectedModulation>(m),
{
    reveal_strlit("LORA");
    reveal_strlit("Fsk");
    reveal_strlit("LR-FHSS");
    assert("LORA"@.len() == 4 && "Fsk"@.len() == 3 && "LR-FHSS"@.len() == 7);
}

/// The `modu` text written for FSK is not the one read for it.
pub proof fn fsk_text_is_not_read_back()
    ensures
        Modulation::spec_deserialize(Modulation::Fsk.spec_serialize()) is Err,
{
    reveal_strlit("LORA");
    reveal_strlit("Fsk");
    reveal_strlit("FSK");
    reveal_strlit("LR-FHSS");
    assert("FSK"@[1] != "Fsk"@[1]);
    assert("FSK"@.len() != "LORA"@.len() && "FSK"@.len() != "LR-FHSS"@.len());
}

/// A coding rate read back from its `codr` text is the rate written, except for
/// 4/8LI, which is written as 4/5LI (an undefined rate is not written).
pub proof fn code_rate_text_roundtrip(c: CodeRate)
    requires
        c != CodeRate::Undefined,
        c != CodeRate::CrLi48,
    ensures
        c.spec_serialize() matches Some(t) && CodeRate::spec_deserialize(t) == c,
{
    reveal_strlit("4/5");
    reveal_strlit("4/6");
    reveal_strlit("2/3");
    reveal_strlit("4/7");
    reveal_strlit("4/8");
    reveal_strlit("2/4");
    reveal_strlit("1/2");
    reveal_strlit("3/8");
    reveal_strlit("2/6");
    reveal_strlit("1/3");
    reveal_strlit("1/4");
    reveal_strlit("1/6");
    reveal_strlit("5/6");
    reveal_strlit("4/5LI");
    reveal_strlit("4/6LI");
    reveal_strlit("4/8LI");
    assert("4/5"@.len() == 3 && "4/5"@[0] == '4' && "4/5"@[2] == '5');
    assert("4/6"@.len() == 3 && "4/6"@[0] == '4' && "4/6"@[2] == '6');
    assert("2/3"@.len() == 3 && "2/3"@[0] == '2' && "2/3"@[2] == '3');
    assert("4/7"@.len() == 3 && "4/7"@[0] == '4' && "4/7"@[2] == '7');
    assert("4/8"@.len() == 3 && "4/8"@[0] == '4' && "4/8"@[2] == '8');
    assert("2/4"@.len() == 3 && "2/4"@[0] == '2' && "2/4"@[2] == '4');
    assert("1/2"@.len() == 3 && "1/2"@[0] == '1' && "1/2"@[2] == '2');
    assert("3/8"@.len() == 3 && "3/8"@[0] == '3' && "3/8"@[2] == '8');
    assert("2/6"@.len() == 3 && "2/6"@[0] == '2' && "2/6"@[2] == '6');
    assert("1/3"@.len() == 3 && "1/3"@[0] == '1' && "1/3"@[2] == '3');
    assert("1/4"@.len() == 3 && "1/4"@[0] == '1' && "1/4"@[2] == '4');
    assert("1/6"@.len() == 3 && "1/6"@[0] == '1' && "1/6"@[2] == '6');
    assert("5/6"@.len() == 3 && "5/6"@[0] == '5' && "5/6"@[2] == '6');
    assert("4/5LI"@.len() == 5 && "4/5LI"@[0] == '4' && "4/5LI"@[2] == '5');
    assert("4/6LI"@.len() == 5 && "4/6LI"@[0] == '4' && "4/6LI"@[2] == '6');
    assert("4/8LI"@.len() == 5 && "4/8LI"@[0] == '4' && "4/8LI"@[2] == '8');
}

/// A coding rate read back from its protobuf number is the rate sent, except for
/// 5/6, which is sent as 4/5.
pub proof fn code_rate_proto_roundtrip(c: CodeRate)
    requires
        c != CodeRate::Cr56,
    ensures
        CodeRate::spec_from_proto(c.spec_to_proto()) == c,
{
}

proof fn lemma_bw_needs_b(v: Seq<char>, k: int)
    requires
        occurs_at(v, "BW"@, k),
    ensures
        v[k] == 'B',
{
    reveal_strlit("BW");
    assert(v.subrange(k, k + 2)[0] == v[k]);
}

/// A LoRa or LR-FHSS rate read back from its `datr` text is the rate written, for
/// bandwidths in whole kHz; an FSK rate read back from its number is the rate written.
pub proof fn data_rate_roundtrip(dr: DataRate)
    requires
        match dr {
            DataRate::Lora(_, bw) => bw % 1000 == 0,
            DataRate::LrFhss(ocw) => ocw % 1000 == 0,
            DataRate::Fsk(_) => true,
        },
    ensures
        match dr {
            DataRate::Fsk(b) => DataRate::spec_deserialize(Datr::Number(b as u64)) == Ok::<
                DataRate,
                DataRateError,
            >(dr),
            _ => spec_datr_from_str(spec_datr_text(dr)) == Ok::<DataRate, DataRateError>(dr),
        },
{
    reveal_strlit("SF");
    reveal_strlit("BW");
    reveal_strlit("M0CW");
    match dr {
        DataRate::Lora(sf, bw) => {
            let d1 = decimal(sf as nat);
            let d2 = decimal(bw as nat / 1000);
            let t = "SF"@ + d1 + "BW"@ + d2;
            assert(t == spec_datr_text(dr));
            lemma_decimal(sf as nat);
            lemma_decimal(bw as nat / 1000);
            lemma_parse_decimal(sf);
            lemma_parse_decimal((bw / 1000) as u32);
            let p: int = 2 + d1.len() as int;
            assert(t.subrange(0, 2) =~= "SF"@);
            assert(t.subrange(p, p + 2) =~= "BW"@);
            assert(occurs_at(t, "BW"@, p));
            assert forall|k: int| 0 <= k < p implies !#[trigger] occurs_at(t, "BW"@, k) by {
                if occurs_at(t, "BW"@, k) {
                    lemma_bw_needs_b(t, k);
                    if k >= 2 {
                        assert(t[k] == d1[k - 2]);
                        assert(is_digit(d1[k - 2]));
                    }
                }
            }
            lemma_find_from_skip(t, "BW"@, 0, p);
            assert forall|k: int| p + 2 <= k implies !#[trigger] occurs_at(t, "BW"@, k) by {
                if occurs_at(t, "BW"@, k) {
                    lemma_bw_needs_b(t, k);
                    assert(t[k] == d2[k - p - 2]);
                    assert(is_digit(d2[k - p - 2]));
                }
            }
            lemma_find_from_none(t, "BW"@, p + 2);
            assert(t.subrange(2, p) =~= d1);
            assert(t.subrange(p + 2, t.len() as int) =~= d2);
            assert((bw / 1000) as nat * 1000 == bw as nat);
        },
        DataRate::LrFhss(ocw) => {
            let d = decimal(ocw as nat / 1000);
            let t = "M0CW"@ + d;
            assert(t == spec_datr_text(dr));
            lemma_parse_decimal((ocw / 1000) as u32);
            assert(t.subrange(0, 4) =~= "M0CW"@);
            assert(t[0] == 'M');
            assert(!starts_with(t, "SF"@)) by {
                if starts_with(t, "SF"@) {
                    assert(t.subrange(0, 2)[0] == t[0]);
                }
            }
            assert(t.subrange(4, t.len() as int) =~= d);
            assert((ocw / 1000) as nat * 1000 == ocw as nat);
        },
        DataRate::Fsk(_) => {},
    }
}

/// `a` and `b` are the same received packet, except that `b` has no `rsig` entries.
pub open spec fn same_packet_without_rsig(a: RxPk, b: RxPk) -> bool {
    &&& b.rsig@.len() == 0
    &&& a.time == b.time && a.tmms == b.tmms && a.tmst == b.tmst && a.ftime == b.ftime
    &&& a.freq_hz == b.freq_hz && a.chan == b.chan && a.rfch == b.rfch && a.brd == b.brd
    &&& a.stat == b.stat && a.modu == b.modu && a.datr == b.datr && a.codr == b.codr
    &&& a.rssi == b.rssi && a.hpw == b.hpw && a.size == b.size
    &&& a.data@ == b.data@ && a.meta == b.meta
}

/// The frames of a packet with `rsig` entries are the frame of the same packet
/// without them, one per entry, that entry's antenna, channel and RSSI in place
/// of the packet's (and its own uplink id).
pub proof fn rsig_frames_copy_the_packet_frame(
    v: Seq<gw::UplinkFrame>,
    s: Seq<gw::UplinkFrame>,
    rx: RxPk,
    rx0: RxPk,
    gateway_id: Seq<u8>,
    ids: Seq<u32>,
    ids0: Seq<u32>,
    fallback_time: Option<gw::Timestamp>,
    i: int,
)
    requires
        rx.rsig@.len() > 0,
        same_packet_without_rsig(rx, rx0),
        uplink_frames_of(v, rx, gateway_id, ids, fallback_time),
        uplink_frames_of(s, rx0, gateway_id, ids0, fallback_time),
        0 <= i < rx.rsig@.len(),
    ensures
        v.len() == rx.rsig@.len(),
        s.len() == 1,
        v[i].phy_payload@ == s[0].phy_payload@,
        v[i].tx_info == s[0].tx_info,
        v[i].rx_info matches Some(a) && s[0].rx_info matches Some(b) && {
            &&& a.antenna == rx.rsig@[i].ant as u32
            &&& a.channel == rx.rsig@[i].chan as u32
            &&& a.rssi == rx.rsig@[i].rssic as i32
            &&& a.uplink_id == ids[i + 1]
            &&& a.rsig_index == Some(i as usize)
            &&& b.antenna == 0 && b.channel == rx.chan && b.rssi == rx.rssi
            &&& a.gateway_id@ == b.gateway_id@
            &&& a.gw_time == b.gw_time
            &&& a.time_since_gps_epoch == b.time_since_gps_epoch
            &&& a.fine_time_since_gps_epoch == b.fine_time_since_gps_epoch
            &&& a.rf_chain == b.rf_chain && a.board == b.board
            &&& a.context@ == b.context@
            &&& a.crc_status == b.crc_status
            &&& a.metadata@ == b.metadata@
        },
{
    assert(spec_uplink_modulation(rx) == spec_uplink_modulation(rx0));
    assert(is_uplink_frame(
        v[i],
        rx,
        gateway_id,
        ids[i + 1],
        fallback_time,
        spec_uplink_modulation(rx)->Ok_0,
        rx.rsig@[i].ant as u32,
        rx.rsig@[i].chan as u32,
        rx.rsig@[i].rssic as i32,
        Some(i as usize),
    ));
}

/// A PUSH_DATA converts without error exactly when each of its packets does.
pub proof fn push_data_converts_when_every_packet_does(rxpk: Seq<RxPk>, i: int)
    requires
        0 <= i <= rxpk.len(),
    ensures
        first_uplink_error(rxpk, i) is None <==> forall|k: int|
            i <= k < rxpk.len() ==> #[trigger] spec_uplink_modulation(rxpk[k]) is Ok,
    decreases rxpk.len() - i,
{
    if i < rxpk.len() {
        push_data_converts_when_every_packet_does(rxpk, i + 1);
        if spec_uplink_modulation(rxpk[i]) is Ok {
            assert forall|k: int| i <= k < rxpk.len() && (forall|j: int|
                i + 1 <= j < rxpk.len() ==> #[trigger] spec_uplink_modulation(rxpk[j]) is Ok) implies
                #[trigger] spec_uplink_modulation(rxpk[k]) is Ok by {
                if k > i {
                    assert(spec_uplink_modulation(rxpk[k]) is Ok);
                }
            }
        }
    }
}

/// The text of each coding-rate number of the ChirpStack gateway protocol
/// (`CR_4_5` = 1, `CR_4_6` = 2, `CR_4_7` = 3, `CR_4_8` = 4, `CR_3_8` = 5,
/// `CR_2_6` = 6, `CR_1_4` = 7, `CR_1_6` = 8, `CR_5_6` = 9, `CR_LI_4_5` = 10,
/// `CR_LI_4_6` = 11, `CR_LI_4_8` = 12); `CR_UNDEFINED` (0) and unknown numbers
/// have none.
pub open spec fn chirpstack_code_rate_text(n: i32) -> Seq<char> {
    if n == 1 {
        "4/5"@
    } else if n == 2 {
        "4/6"@
    } else if n == 3 {
        "4/7"@
    } else if n == 4 {
        "4/8"@
    } else if n == 5 {
        "3/8"@
    } else if n == 6 {
        "2/6"@
    } else if n == 7 {
        "1/4"@
    } else if n == 8 {
        "1/6"@
    } else if n == 9 {
        "5/6"@
    } else if n == 10 {
        "4/5LI"@
    } else if n == 11 {
        "4/6LI"@
    } else if n == 12 {
        "4/8LI"@
    } else {
        Seq::empty()
    }
}

proof fn reveal_code_rate_texts()
    ensures
        "4/5"@ == seq!['4', '/', '5'],
        "4/6"@ == seq!['4', '/', '6'],
        "2/3"@ == seq!['2', '/', '3'],
        "4/7"@ == seq!['4', '/', '7'],
        "4/8"@ == seq!['4', '/', '8'],
        "2/4"@ == seq!['2', '/', '4'],
        "1/2"@ == seq!['1', '/', '2'],
        "3/8"@ == seq!['3', '/', '8'],
        "2/6"@ == seq!['2', '/', '6'],
        "1/3"@ == seq!['1', '/', '3'],
        "1/4"@ == seq!['1', '/', '4'],
        "1/6"@ == seq!['1', '/', '6'],
        "5/6"@ == seq!['5', '/', '6'],
        "4/5LI"@ == seq!['4', '/', '5', 'L', 'I'],
        "4/6LI"@ == seq!['4', '/', '6', 'L', 'I'],
        "4/8LI"@ == seq!['4', '/', '8', 'L', 'I'],
{
    reveal_strlit("4/5");
    reveal_strlit("4/6");
    reveal_strlit("2/3");
    reveal_strlit("4/7");
    reveal_strlit("4/8");
    reveal_strlit("2/4");
    reveal_strlit("1/2");
    reveal_strlit("3/8");
    reveal_strlit("2/6");
    reveal_strlit("1/3");
    reveal_strlit("1/4");
    reveal_strlit("1/6");
    reveal_strlit("5/6");
    reveal_strlit("4/5LI");
    reveal_strlit("4/6LI");
    reveal_strlit("4/8LI");
    assert("4/5"@ =~= seq!['4', '/', '5']);
    assert("4/6"@ =~= seq!['4', '/', '6']);
    assert("2/3"@ =~= seq!['2', '/', '3']);
    assert("4/7"@ =~= seq!['4', '/', '7']);
    assert("4/8"@ =~= seq!['4', '/', '8']);
    assert("2/4"@ =~= seq!['2', '/', '4']);
    assert("1/2"@ =~= seq!['1', '/', '2']);
    assert("3/8"@ =~= seq!['3', '/', '8']);
    assert("2/6"@ =~= seq!['2', '/', '6']);
    assert("1/3"@ =~= seq!['1', '/', '3']);
    assert("1/4"@ =~= seq!['1', '/', '4']);
    assert("1/6"@ =~= seq!['1', '/', '6']);
    assert("5/6"@ =~= seq!['5', '/', '6']);
    assert("4/5LI"@ =~= seq!['4', '/', '5', 'L', 'I']);
    assert("4/6LI"@ =~= seq!['4', '/', '6', 'L', 'I']);
    assert("4/8LI"@ =~= seq!['4', '/', '8', 'L', 'I']);
}

proof fn code_rate_text_chars()
    ensures
        "4/5"@.len() == 3 && "4/5"@[0] == '4' && "4/5"@[2] == '5',
        "4/6"@.len() == 3 && "4/6"@[0] == '4' && "4/6"@[2] == '6',
        "2/3"@.len() == 3 && "2/3"@[0] == '2' && "2/3"@[2] == '3',
        "4/7"@.len() == 3 && "4/7"@[0] == '4' && "4/7"@[2] == '7',
        "4/8"@.len() == 3 && "4/8"@[0] == '4' && "4/8"@[2] == '8',
        "2/4"@.len() == 3 && "2/4"@[0] == '2' && "2/4"@[2] == '4',
        "1/2"@.len() == 3 && "1/2"@[0] == '1' && "1/2"@[2] == '2',
        "3/8"@.len() == 3 && "3/8"@[0] == '3' && "3/8"@[2] == '8',
        "2/6"@.len() == 3 && "2/6"@[0] == '2' && "2/6"@[2] == '6',
        "1/3"@.len() == 3 && "1/3"@[0] == '1' && "1/3"@[2] == '3',
        "1/4"@.len() == 3 && "1/4"@[0] == '1' && "1/4"@[2] == '4',
        "1/6"@.len() == 3 && "1/6"@[0] == '1' && "1/6"@[2] == '6',
        "5/6"@.len() == 3 && "5/6"@[0] == '5' && "5/6"@[2] == '6',
        "4/5LI"@.len() == 5 && "4/5LI"@[0] == '4' && "4/5LI"@[2] == '5',
        "4/6LI"@.len() == 5 && "4/6LI"@[0] == '4' && "4/6LI"@[2] == '6',
        "4/8LI"@.len() == 5 && "4/8LI"@[0] == '4' && "4/8LI"@[2] == '8',
{
    reveal_code_rate_texts();
}

/// A coding rate is sent as the ChirpStack number whose text reads back as that
/// rate; 5/6 is the exception, it is sent as 4/5.
pub proof fn code_rate_sent_as_its_chirpstack_number(c: CodeRate)
    requires
        c != CodeRate::Cr56,
    ensures
        CodeRate::spec_deserialize(chirpstack_code_rate_text(c.spec_to_proto())) == c,
{
    code_rate_text_chars();
    let t = chirpstack_code_rate_text(c.spec_to_proto());
    assert(c != CodeRate::Undefined ==> t.len() >= 3 && t[0] == t[0] && t[2] == t[2]);
}

/// A ChirpStack coding-rate number is read as the rate that its text names
/// (unknown numbers as an undefined rate).
pub proof fn code_rate_read_from_its_chirpstack_number(n: i32)
    ensures
        CodeRate::spec_from_proto(n) == CodeRate::spec_deserialize(chirpstack_code_rate_text(n)),
{
    code_rate_text_chars();
    let t = chirpstack_code_rate_text(n);
    if 1 <= n <= 12 {
        assert(t.len() >= 3 && t[0] == t[0] && t[2] == t[2]);
    } else {
        assert(t.len() == 0);
    }
}

/// The text `a/b` of a coding fraction with single-digit numerator and denominator.
pub open spec fn fraction_text(a: nat, b: nat) -> Seq<char> {
    seq![crate::text::digit_char(a), '/', crate::text::digit_char(b)]
}

/// A coding rate is read from its text also when numerator and denominator are
/// divided by a common divisor (4/8 from 2/4 and 1/2, 4/6 from 2/3, 2/6 from 1/3).
pub proof fn code_rate_read_from_reduced_text(c: CodeRate, k: nat)
    requires
        c.spec_serialize() matches Some(t) && t.len() == 3 && 1 <= k && crate::text::digit_value(t[0])
            % k == 0 && crate::text::digit_value(t[2]) % k == 0,
    ensures
        ({
            let t = c.spec_serialize()->0;
            CodeRate::spec_deserialize(
                fraction_text(
                    (crate::text::digit_value(t[0]) / k) as nat,
                    (crate::text::digit_value(t[2]) / k) as nat,
                ),
            ) == c
        }),
{
    reveal_code_rate_texts();
    let t = c.spec_serialize()->0;
    let a = crate::text::digit_value(t[0]);
    assert(1 <= a <= 5);
    assert(k <= a) by (nonlinear_arith)
        requires
            a % k == 0,
            1 <= a,
            1 <= k,
    ;
    assert(1 <= k <= 5);
    if k == 1 {
    } else if k == 2 {
    } else if k == 3 {
    } else if k == 4 {
    } else {
    }
}

/// The reported location is absent exactly when latitude, longitude and
/// altitude are all zero (a zero `f64` has all bits but the sign clear); when
/// present it carries the three values and is a GPS location.
pub proof fn stat_location_unless_all_zero(g: gw::GatewayStats, s: Stat, gateway_id: Seq<u8>)
    requires
        is_stat_proto(g, s, gateway_id),
    ensures
        g.location is None <==> ((s.lati_bits == 0 || s.lati_bits == 0x8000_0000_0000_0000) && (
        s.long_bits == 0 || s.long_bits == 0x8000_0000_0000_0000) && s.alti == 0),
        g.location matches Some(l) ==> l.latitude_bits == s.lati_bits && l.longitude_bits
            == s.long_bits && l.altitude == s.alti && l.source == gw::LocationSource::Gps,
{
}

} // verus!
