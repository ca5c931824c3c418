//! The parts of the ChirpStack gateway messages that the forwarding logic
//! reads or produces, as plain values.
//!
//! Code rates are kept as the raw protobuf enum number (`i32`), as on the wire.
use std::collections::HashMap;

use vstd::prelude::*;

verus! {

/// CRC status of a received frame.
#[derive(Clone, Copy, PartialEq, Eq, Structural, Debug)]
pub enum CrcStatus {
    NoCrc,
    BadCrc,
    CrcOk,
}

/// Status of one downlink transmission attempt.
#[derive(Clone, Copy, PartialEq, Eq, Structural, Debug)]
pub enum TxAckStatus {
    Ignored,
    Success,
    TooLate,
    TooEarly,
    CollisionPacket,
    CollisionBeacon,
    TxFreq,
    TxPower,
    GpsUnlocked,
    QueueFull,
    InternalError,
    DutyCycleOverflow,
}

/// A point in time: seconds and nanoseconds since the Unix epoch.
#[derive(Clone, Copy, PartialEq, Eq, Structural, Debug)]
pub struct Timestamp {
    pub seconds: i64,
    pub nanos: i32,
}

/// A signed span of time, as seconds and nanoseconds.
#[derive(Clone, Copy, PartialEq, Eq, Structural, Debug)]
pub struct Duration {
    pub seconds: i64,
    pub nanos: i32,
}

#[derive(Clone, Copy, PartialEq, Eq, Structural, Debug)]
pub struct LoraModulationInfo {
    pub bandwidth: u32,
    pub spreading_factor: u32,
    pub code_rate: i32,
    pub polarization_inversion: bool,
    pub preamble: u32,
    pub no_crc: bool,
}

#[derive(Clone, Copy, PartialEq, Eq, Structural, Debug)]
pub struct FskModulationInfo {
    pub frequency_deviation: u32,
    pub datarate: u32,
}

#[derive(Clone, Copy, PartialEq, Eq, Structural, Debug)]
pub struct LrFhssModulationInfo {
    pub operating_channel_width: u32,
    pub code_rate: i32,
    pub grid_steps: u32,
}

#[derive(Clone, Copy, PartialEq, Eq, Structural, Debug)]
pub enum ModulationParameters {
    Lora(LoraModulationInfo),
    Fsk(FskModulationInfo),
    LrFhss(LrFhssModulationInfo),
}

#[derive(Clone, Copy, PartialEq, Eq, Structural, Debug)]
pub struct Modulation {
    pub parameters: Option<ModulationParameters>,
}

#[derive(Clone, Copy, PartialEq, Eq, Structural, Debug)]
pub struct UplinkTxInfo {
    pub frequency: u32,
    pub modulation: Option<Modulation>,
}

/// Receive information of an uplink frame.
///
/// The signal-to-noise ratio is a float and is filled in by the caller:
/// `rsig_index` tells which `rsig` entry of the received packet the frame was
/// made from (`None`: the packet itself).
#[derive(Clone, PartialEq, Debug)]
pub struct UplinkRxInfo {
    pub gateway_id: String,
    pub uplink_id: u32,
    pub gw_time: Option<Timestamp>,
    pub time_since_gps_epoch: Option<Duration>,
    pub fine_time_since_gps_epoch: Option<Duration>,
    pub rssi: i32,
    pub channel: u32,
    pub rf_chain: u32,
    pub board: u32,
    pub antenna: u32,
    pub context: Vec<u8>,
    pub crc_status: CrcStatus,
    pub rsig_index: Option<usize>,
    pub metadata: HashMap<String, String>,
}

#[derive(Clone, PartialEq, Debug)]
pub struct UplinkFrame {
    pub phy_payload: Vec<u8>,
    pub tx_info: Option<UplinkTxInfo>,
    pub rx_info: Option<UplinkRxInfo>,
}

#[derive(Clone, Copy, PartialEq, Eq, Structural, Debug)]
pub enum TimingParameters {
    Immediately,
    Delay(Option<Duration>),
    GpsEpoch(Option<Duration>),
}

#[derive(Clone, Copy, PartialEq, Eq, Structural, Debug)]
pub struct Timing {
    pub parameters: Option<TimingParameters>,
}

#[derive(Clone, PartialEq, Debug)]
pub struct DownlinkTxInfo {
    pub frequency: u32,
    pub power: i32,
    pub modulation: Option<Modulation>,
    pub board: u32,
    pub antenna: u32,
    pub timing: Option<Timing>,
    pub context: Vec<u8>,
}

#[derive(Clone, PartialEq, Debug)]
pub struct DownlinkFrameItem {
    pub phy_payload: Vec<u8>,
    pub tx_info: Option<DownlinkTxInfo>,
}

#[derive(Clone, PartialEq, Debug)]
pub struct DownlinkFrame {
    pub downlink_id: u32,
    pub gateway_id: String,
    pub items: Vec<DownlinkFrameItem>,
}

/// Per-item transmission status of a downlink frame.
#[derive(Clone, PartialEq, Debug)]
pub struct DownlinkTxAck {
    pub gateway_id: String,
    pub downlink_id: u32,
    pub items: Vec<TxAckStatus>,
}

#[derive(Clone, Copy, PartialEq, Eq, Structural, Debug)]
pub enum LocationSource {
    Unknown,
    Gps,
}

/// A location. Latitude and longitude are `f64` values, held by their bit
/// patterns (`f64::to_bits`); the altitude is in whole meters.
#[derive(Clone, Copy, PartialEq, Eq, Structural, Debug)]
pub struct Location {
    pub latitude_bits: u64,
    pub longitude_bits: u64,
    pub altitude: u32,
    pub source: LocationSource,
}

/// Gateway statistics. Per-modulation and per-status counts are kept in the
/// order in which their keys were first counted.
#[derive(Clone, PartialEq, Debug)]
pub struct GatewayStats {
    pub gateway_id: String,
    pub time: Option<Timestamp>,
    pub location: Option<Location>,
    pub rx_packets_received: u32,
    pub rx_packets_received_ok: u32,
    pub tx_packets_received: u32,
    pub tx_packets_emitted: u32,
    pub metadata: HashMap<String, String>,
    pub tx_packets_per_frequency: HashMap<u32, u32>,
    pub rx_packets_per_frequency: HashMap<u32, u32>,
    pub tx_packets_per_modulation: Vec<(Modulation, u32)>,
    pub rx_packets_per_modulation: Vec<(Modulation, u32)>,
    pub tx_packets_per_status: Vec<(TxAckStatus, u32)>,
}

/// A request to run a configured command on the gateway.
#[derive(Clone, PartialEq, Debug)]
pub struct GatewayCommandExecRequest {
    pub gateway_id: String,
    pub command: String,
    pub exec_id: u32,
    pub stdin: Vec<u8>,
    pub environment: HashMap<String, String>,
}

/// The outcome of a command run on the gateway.
#[derive(Clone, PartialEq, Debug)]
pub struct GatewayCommandExecResponse {
    pub gateway_id: String,
    pub exec_id: u32,
    pub stdout: Vec<u8>,
    pub stderr: Vec<u8>,
    pub error: String,
}

} // verus!
