//! Semtech UDP packet-forwarder backend: the forwarder's state and the
//! decisions taken on each datagram; the caller does the socket and MQTT work.
pub mod structs;

use std::collections::HashMap;

use vstd::prelude::*;
use vstd::std_specs::iter::{IteratorSpec, VerusForLoopWrapper};

use crate::gw;
use crate::text::{hex_encode, hex_lower};
use structs::{
    ConversionError, PullData, PullResp, RxPk, TxAck, is_txpk, spec_downlink_parts, spec_downlink_timing,
    spec_tx_ack_status, spec_uplink_modulation,
};

verus! {

broadcast use vstd::std_specs::hash::group_hash_axioms;

/// A counter incremented by one (wrapping at 2^32).
pub open spec fn inc(x: u32) -> u32 {
    if x == u32::MAX {
        0
    } else {
        (x + 1) as u32
    }
}

/// Counts per frequency, with one more for `k`.
pub open spec fn bump_map(m: Map<u32, u32>, k: u32) -> Map<u32, u32> {
    m.insert(
        k,
        if m.contains_key(k) {
            inc(m[k])
        } else {
            1
        },
    )
}

/// The first position from `i` on where the counted key is `k`.
pub open spec fn key_index_from<K>(s: Seq<(K, u32)>, k: K, i: int) -> Option<int>
    decreases s.len() - i,
{
    if i < 0 || i >= s.len() {
        None
    } else if s[i].0 == k {
        Some(i)
    } else {
        key_index_from(s, k, i + 1)
    }
}

/// Counts per key (in first-counted order), with one more for `k`.
pub open spec fn bump_list<K>(s: Seq<(K, u32)>, k: K) -> Seq<(K, u32)> {
    match key_index_from(s, k, 0) {
        Some(i) => s.update(i, (k, inc(s[i].1))),
        None => s.push((k, 1)),
    }
}

fn inc_exec(x: u32) -> (r: u32)
    ensures
        r == inc(x),
{
    if x == u32::MAX {
        0
    } else {
        x + 1
    }
}

fn bump_freq(m: &mut HashMap<u32, u32>, k: u32)
    ensures
        final(m)@ == bump_map(old(m)@, k),
{
    let v: u32 = match m.get(&k) {
        Some(c) => inc_exec(*c),
        None => 1,
    };
    m.insert(k, v);
}

fn bump_modulation(s: &mut Vec<(gw::Modulation, u32)>, k: gw::Modulation)
    ensures
        final(s)@ == bump_list(old(s)@, k),
{
    let mut i: usize = 0;
    while i < s.len()
        invariant
            i <= s.len(),
            s@ == old(s)@,
            key_index_from(s@, k, 0) == key_index_from(s@, k, i as int),
        decreases s.len() - i,
    {
        if s[i].0 == k {
            let c = inc_exec(s[i].1);
            s.set(i, (k, c));
            return;
        }
        i = i + 1;
    }
    s.push((k, 1));
}

fn bump_status(s: &mut Vec<(gw::TxAckStatus, u32)>, k: gw::TxAckStatus)
    ensures
        final(s)@ == bump_list(old(s)@, k),
{
    let mut i: usize = 0;
    while i < s.len()
        invariant
            i <= s.len(),
            s@ == old(s)@,
            key_index_from(s@, k, 0) == key_index_from(s@, k, i as int),
        decreases s.len() - i,
    {
        if s[i].0 == k {
            let c = inc_exec(s[i].1);
            s.set(i, (k, c));
            return;
        }
        i = i + 1;
    }
    s.push((k, 1));
}

/// Why a frame could not be counted.
#[derive(Clone, Copy, PartialEq, Eq, Structural, Debug)]
pub enum StatsError {
    TxInfoMissing,
    ModulationMissing,
}

/// Traffic counters since the last stats export.
pub struct Stats {
    pub rx_count: u32,
    pub tx_count: u32,
    pub rx_per_freq_count: HashMap<u32, u32>,
    pub tx_per_freq_count: HashMap<u32, u32>,
    pub rx_per_modulation_count: Vec<(gw::Modulation, u32)>,
    pub tx_per_modulation_count: Vec<(gw::Modulation, u32)>,
    pub tx_status_count: Vec<(gw::TxAckStatus, u32)>,
}

pub struct StatsView {
    pub rx_count: u32,
    pub tx_count: u32,
    pub rx_per_freq: Map<u32, u32>,
    pub tx_per_freq: Map<u32, u32>,
    pub rx_per_modulation: Seq<(gw::Modulation, u32)>,
    pub tx_per_modulation: Seq<(gw::Modulation, u32)>,
    pub tx_status: Seq<(gw::TxAckStatus, u32)>,
}

impl StatsView {
    pub open spec fn zero() -> StatsView {
        StatsView {
            rx_count: 0,
            tx_count: 0,
            rx_per_freq: Map::empty(),
            tx_per_freq: Map::empty(),
            rx_per_modulation: Seq::empty(),
            tx_per_modulation: Seq::empty(),
            tx_status: Seq::empty(),
        }
    }

    /// One more uplink, on the given frequency and modulation.
    pub open spec fn count_rx(self, freq: u32, m: gw::Modulation) -> StatsView {
        StatsView {
            rx_count: inc(self.rx_count),
            rx_per_freq: bump_map(self.rx_per_freq, freq),
            rx_per_modulation: bump_list(self.rx_per_modulation, m),
            ..self
        }
    }

    /// One more downlink emitted, on the given frequency and modulation.
    pub open spec fn count_tx(self, freq: u32, m: gw::Modulation) -> StatsView {
        StatsView {
            tx_count: inc(self.tx_count),
            tx_per_freq: bump_map(self.tx_per_freq, freq),
            tx_per_modulation: bump_list(self.tx_per_modulation, m),
            ..self
        }
    }

    pub open spec fn count_status(self, s: gw::TxAckStatus) -> StatsView {
        StatsView { tx_status: bump_list(self.tx_status, s), ..self }
    }
}

impl View for Stats {
    type V = StatsView;

    open spec fn view(&self) -> StatsView {
        StatsView {
            rx_count: self.rx_count,
            tx_count: self.tx_count,
            rx_per_freq: self.rx_per_freq_count@,
            tx_per_freq: self.tx_per_freq_count@,
            rx_per_modulation: self.rx_per_modulation_count@,
            tx_per_modulation: self.tx_per_modulation_count@,
            tx_status: self.tx_status_count@,
        }
    }
}

/// Frequency and modulation of a downlink item.
pub open spec fn item_tx(item: gw::DownlinkFrameItem) -> Result<(u32, gw::Modulation), StatsError> {
    match item.tx_info {
        None => Err(StatsError::TxInfoMissing),
        Some(t) => match t.modulation {
            None => Err(StatsError::ModulationMissing),
            Some(m) => Ok((t.frequency, m)),
        },
    }
}

/// Counting the acknowledged items of a downlink from item `i` on: every item
/// that was not ignored counts for its status; a successful one that is in the
/// frame also counts as emitted. Counting stops at the first item that cannot be
/// counted, and the counts made until then stay.
pub open spec fn count_downlink_from(
    v: StatsView,
    items: Seq<gw::DownlinkFrameItem>,
    acks: Seq<gw::TxAckStatus>,
    i: int,
) -> (StatsView, Option<StatsError>)
    decreases acks.len() - i,
{
    if i < 0 || i >= acks.len() {
        (v, None)
    } else if acks[i] == gw::TxAckStatus::Ignored {
        count_downlink_from(v, items, acks, i + 1)
    } else {
        let v1 = v.count_status(acks[i]);
        if acks[i] == gw::TxAckStatus::Success && i < items.len() {
            match item_tx(items[i]) {
                Err(e) => (v1, Some(e)),
                Ok((freq, m)) => count_downlink_from(v1.count_tx(freq, m), items, acks, i + 1),
            }
        } else {
            count_downlink_from(v1, items, acks, i + 1)
        }
    }
}

/// The statistics an export hands out: the counters, under no gateway id, time,
/// location or metadata.
pub open spec fn exported(g: gw::GatewayStats, v: StatsView) -> bool {
    &&& g.gateway_id@.len() == 0
    &&& g.time is None
    &&& g.location is None
    &&& g.metadata@ == Map::<String, String>::empty()
    &&& g.rx_packets_received == v.rx_count
    &&& g.rx_packets_received_ok == v.rx_count
    &&& g.tx_packets_received == v.tx_count
    &&& g.tx_packets_emitted == v.tx_count
    &&& g.tx_packets_per_status@ == v.tx_status
    &&& g.rx_packets_per_frequency@ == v.rx_per_freq
    &&& g.tx_packets_per_frequency@ == v.tx_per_freq
    &&& g.rx_packets_per_modulation@ == v.rx_per_modulation
    &&& g.tx_packets_per_modulation@ == v.tx_per_modulation
}

impl Stats {
    pub fn new() -> (s: Stats)
        ensures
            s@ == StatsView::zero(),
    {
        Stats {
            rx_count: 0,
            tx_count: 0,
            rx_per_freq_count: HashMap::new(),
            tx_per_freq_count: HashMap::new(),
            rx_per_modulation_count: Vec::new(),
            tx_per_modulation_count: Vec::new(),
            tx_status_count: Vec::new(),
        }
    }

    /// Counts an uplink by its frequency and modulation.
    pub fn count_uplink(&mut self, pl: &gw::UplinkFrame) -> (res: Result<(), StatsError>)
        ensures
            match pl.tx_info {
                None => res == Err::<(), StatsError>(StatsError::TxInfoMissing) && final(self)@
                    == old(self)@,
                Some(t) => match t.modulation {
                    None => res == Err::<(), StatsError>(StatsError::ModulationMissing) && final(self)@ == old(self)@,
                    Some(m) => res is Ok && final(self)@ == old(self)@.count_rx(t.frequency, m),
                },
            },
    {
        let tx_info = match &pl.tx_info {
            None => {
                return Err(StatsError::TxInfoMissing);
            },
            Some(t) => t,
        };
        let modulation = match tx_info.modulation {
            None => {
                return Err(StatsError::ModulationMissing);
            },
            Some(m) => m,
        };
        self.rx_count = inc_exec(self.rx_count);
        bump_freq(&mut self.rx_per_freq_count, tx_info.frequency);
        bump_modulation(&mut self.rx_per_modulation_count, modulation);
        Ok(())
    }

    /// Counts the items of a downlink acknowledgement.
    pub fn count_downlink(&mut self, pl: &gw::DownlinkFrame, ack: &gw::DownlinkTxAck) -> (res: Result<
        (),
        StatsError,
    >)
        ensures
            ({
                let (v, e) = count_downlink_from(old(self)@, pl.items@, ack.items@, 0);
                &&& final(self)@ == v
                &&& match e {
                    None => res is Ok,
                    Some(e) => res == Err::<(), StatsError>(e),
                }
            }),
    {
        let mut i: usize = 0;
        while i < ack.items.len()
            invariant
                i <= ack.items.len(),
                count_downlink_from(old(self)@, pl.items@, ack.items@, 0) == count_downlink_from(
                    self@,
                    pl.items@,
                    ack.items@,
                    i as int,
                ),
            decreases ack.items.len() - i,
        {
            let status = ack.items[i];
            if status != gw::TxAckStatus::Ignored {
                bump_status(&mut self.tx_status_count, status);
                if status == gw::TxAckStatus::Success && i < pl.items.len() {
                    let item = &pl.items[i];
                    let tx_info = match &item.tx_info {
                        None => {
                            return Err(StatsError::TxInfoMissing);
                        },
                        Some(t) => t,
                    };
                    let modulation = match tx_info.modulation {
                        None => {
                            return Err(StatsError::ModulationMissing);
                        },
                        Some(m) => m,
                    };
                    self.tx_count = inc_exec(self.tx_count);
                    bump_freq(&mut self.tx_per_freq_count, tx_info.frequency);
                    bump_modulation(&mut self.tx_per_modulation_count, modulation);
                }
            }
            i = i + 1;
        }
        Ok(())
    }

    /// Hands out the counters and starts counting afresh.
    pub fn export_stats(&mut self) -> (res: gw::GatewayStats)
        ensures
            final(self)@ == StatsView::zero(),
            exported(res, old(self)@),
    {
        let mut old_stats = Stats::new();
        core::mem::swap(self, &mut old_stats);
        gw::GatewayStats {
            gateway_id: String::new(),
            time: None,
            location: None,
            rx_packets_received: old_stats.rx_count,
            rx_packets_received_ok: old_stats.rx_count,
            tx_packets_received: old_stats.tx_count,
            tx_packets_emitted: old_stats.tx_count,
            metadata: HashMap::new(),
            tx_packets_per_status: old_stats.tx_status_count,
            rx_packets_per_frequency: old_stats.rx_per_freq_count,
            tx_packets_per_frequency: old_stats.tx_per_freq_count,
            rx_packets_per_modulation: old_stats.rx_per_modulation_count,
            tx_packets_per_modulation: old_stats.tx_per_modulation_count,
        }
    }
}

/// How long a sent downlink is remembered, waiting for its TX_ACK (milliseconds).
pub const DOWNLINK_CACHE_TTL_MS: u64 = 60_000;

/// A downlink frame being transmitted: its items are tried in turn until one is
/// accepted by the gateway.
pub struct DownlinkCache {
    /// Milliseconds since the Unix epoch after which the entry is dropped.
    pub expire: u64,
    pub frame: gw::DownlinkFrame,
    pub ack_items: Vec<gw::TxAckStatus>,
    /// The item being tried.
    pub index: usize,
}

/// Why a backend operation failed.
#[derive(Clone, Copy, PartialEq, Eq, Structural, Debug)]
pub enum BackendError {
    GatewayIdNotSet,
    NoPullAddr,
    NoCacheItem(u16),
    Conversion(ConversionError),
    Stats(StatsError),
}

/// State of the forwarder towards one packet forwarder; `A` is the type of a
/// socket address.
pub struct State<A> {
    /// Hex id of the gateway, empty until it is known.
    pub gateway_id: String,
    pub downlink_cache: HashMap<u16, DownlinkCache>,
    /// Where PULL_DATA last came from: PULL_RESP datagrams go there.
    pub pull_addr: Option<A>,
    pub stats: Stats,
}

/// What to do after a TX_ACK.
pub enum TxAckAction<A> {
    /// Publish the acknowledgement of the whole downlink.
    SendAck(gw::DownlinkTxAck),
    /// Try the next item: send this PULL_RESP to this address.
    SendPullResp(PullResp, A),
}

/// The token of a downlink: the low 16 bits of its id.
pub open spec fn downlink_token(downlink_id: u32) -> u16 {
    (downlink_id % 0x1_0000) as u16
}

/// The entries of a downlink cache that have not expired at `now`.
pub open spec fn fresh_entries(m: Map<u16, DownlinkCache>, now: u64) -> Map<u16, DownlinkCache> {
    Map::new(|k: u16| m.contains_key(k) && m[k].expire >= now, |k: u16| m[k])
}

/// The PULL_RESP for item `i` of a frame, and where to send it; the error that
/// comes first otherwise.
pub open spec fn pull_resp_ok<A>(
    res: Result<(PullResp, A), BackendError>,
    pl: gw::DownlinkFrame,
    i: usize,
    pull_addr: Option<A>,
) -> bool {
    match spec_downlink_parts(pl, i) {
        Err(e) => res == Err::<(PullResp, A), BackendError>(BackendError::Conversion(e)),
        Ok((tx, tp, mp)) => match spec_downlink_timing(tx.context@, tp) {
            Err(e) => res == Err::<(PullResp, A), BackendError>(BackendError::Conversion(e)),
            Ok((tmst, tmms)) => match pull_addr {
                None => res == Err::<(PullResp, A), BackendError>(BackendError::NoPullAddr),
                Some(addr) => res matches Ok((r, a)) && a == addr && r.random_token
                    == downlink_token(pl.downlink_id) && is_txpk(
                    r.payload.txpk,
                    pl.items[i as int],
                    tx,
                    tp,
                    mp,
                    tmst,
                    tmms,
                ),
            },
        },
    }
}

impl<A: Copy> State<A> {
    /// Every cached downlink is filed under its own token.
    pub open spec fn wf(&self) -> bool {
        forall|k: u16| #[trigger]
            self.downlink_cache@.contains_key(k) ==> downlink_token(
                self.downlink_cache@[k].frame.downlink_id,
            ) == k
    }

    /// A state for a gateway whose id may already be configured (empty otherwise).
    pub fn new(gateway_id: String) -> (s: State<A>)
        ensures
            s.wf(),
            s.gateway_id == gateway_id,
            s.downlink_cache@ == Map::<u16, DownlinkCache>::empty(),
            s.pull_addr is None,
            s.stats@ == StatsView::zero(),
    {
        State { gateway_id, downlink_cache: HashMap::new(), pull_addr: None, stats: Stats::new() }
    }

    /// Records the gateway id of a PULL_DATA, as hex.
    pub fn set_gateway_id(&mut self, gateway_id: &[u8])
        ensures
            final(self).gateway_id@ == hex_lower(gateway_id@),
            final(self).downlink_cache == old(self).downlink_cache,
            final(self).pull_addr == old(self).pull_addr,
            final(self).stats == old(self).stats,
    {
        self.gateway_id = hex_encode(gateway_id);
    }

    /// The gateway id, once known.
    pub fn get_gateway_id(&self) -> (res: Result<String, BackendError>)
        ensures
            self.gateway_id@.len() == 0 ==> res == Err::<String, BackendError>(
                BackendError::GatewayIdNotSet,
            ),
            self.gateway_id@.len() != 0 ==> (res matches Ok(g) && g@ == self.gateway_id@),
    {
        if self.gateway_id.as_str().is_empty() {
            Err(BackendError::GatewayIdNotSet)
        } else {
            Ok(self.gateway_id.clone())
        }
    }

    pub fn set_pull_addr(&mut self, addr: A)
        ensures
            final(self).pull_addr == Some(addr),
            final(self).gateway_id == old(self).gateway_id,
            final(self).downlink_cache == old(self).downlink_cache,
            final(self).stats == old(self).stats,
    {
        self.pull_addr = Some(addr);
    }

    pub fn get_pull_addr(&self) -> (res: Result<A, BackendError>)
        ensures
            match self.pull_addr {
                Some(a) => res == Ok::<A, BackendError>(a),
                None => res == Err::<A, BackendError>(BackendError::NoPullAddr),
            },
    {
        match self.pull_addr {
            Some(a) => Ok(a),
            None => Err(BackendError::NoPullAddr),
        }
    }

    /// Records an acknowledged PULL_DATA: its gateway id, and its address as the
    /// one PULL_RESP datagrams go to.
    pub fn handle_pull_data(&mut self, pl: &PullData, remote: A)
        ensures
            final(self).gateway_id@ == hex_lower(pl.gateway_id@),
            final(self).pull_addr == Some(remote),
            final(self).downlink_cache == old(self).downlink_cache,
            final(self).stats == old(self).stats,
    {
        self.set_gateway_id(&pl.gateway_id);
        self.set_pull_addr(remote);
    }

    /// Drops the cached downlinks that expired before `now`.
    pub fn clean_downlink_cache(&mut self, now: u64)
        requires
            old(self).wf(),
        ensures
            final(self).wf(),
            final(self).downlink_cache@ == fresh_entries(old(self).downlink_cache@, now),
            final(self).gateway_id == old(self).gateway_id,
            final(self).pull_addr == old(self).pull_addr,
            final(self).stats == old(self).stats,
    {
        let ghost m0 = self.downlink_cache@;
        let mut keys: Vec<u16> = Vec::new();
        let mut w = VerusForLoopWrapper::new(self.downlink_cache.keys(), Ghost(None));
        let ghost all = w.seq().unref();
        proof {
            assert(all.to_set() == m0.dom());
        }
        loop
            invariant
                w.wf(),
                w.iter.obeys_prophetic_iter_laws(),
                w.seq().unref() == all,
                keys@ == all.take(w.index()),
                all.to_set() == m0.dom(),
                w.iter.decrease() is Some,
            ensures
                keys@ == all,
                all.to_set() == m0.dom(),
            decreases w.iter.decrease()->0,
        {
            match w.next() {
                Some(k) => {
                    proof {
                        assert(all.take(w.index()) == all.take(w.index() - 1).push(*k));
                    }
                    keys.push(*k);
                },
                None => {
                    assert(all.take(w.index()) == all);
                    break;
                },
            }
        }
        let mut i: usize = 0;
        while i < keys.len()
            invariant
                i <= keys.len(),
                keys@.to_set() == m0.dom(),
                forall|k: u16| #[trigger]
                    self.downlink_cache@.contains_key(k) <==> (m0.contains_key(k) && (
                    keys@.take(i as int).contains(k) ==> m0[k].expire >= now)),
                forall|k: u16| #[trigger]
                    self.downlink_cache@.contains_key(k) ==> self.downlink_cache@[k] == m0[k],
                forall|k: u16| #[trigger]
                    m0.contains_key(k) ==> downlink_token(m0[k].frame.downlink_id) == k,
                self.gateway_id == old(self).gateway_id,
                self.pull_addr == old(self).pull_addr,
                self.stats == old(self).stats,
            decreases keys.len() - i,
        {
            let k = keys[i];
            let expired = match self.downlink_cache.get(&k) {
                Some(dc) => dc.expire < now,
                None => false,
            };
            if expired {
                self.downlink_cache.remove(&k);
            }
            proof {
                assert forall|j: u16| keys@.take(i + 1).contains(j) <==> (keys@.take(
                    i as int,
                ).contains(j) || j == k) by {
                    if keys@.take(i + 1).contains(j) {
                        let x = choose|x: int| 0 <= x < i + 1 && #[trigger] keys@.take(i + 1)[x] == j;
                        if x < i {
                            assert(keys@.take(i as int)[x] == j);
                        }
                    }
                    if keys@.take(i as int).contains(j) {
                        let x = choose|x: int| 0 <= x < i && #[trigger] keys@.take(i as int)[x] == j;
                        assert(keys@.take(i + 1)[x] == j);
                    }
                    if j == k {
                        assert(keys@.take(i + 1)[i as int] == j);
                    }
                }
            }
            i = i + 1;
        }
        proof {
            assert(keys@.take(keys.len() as int) == keys@);
            assert forall|k: u16| m0.contains_key(k) implies keys@.contains(k) by {
                assert(keys@.to_set().contains(k));
            }
            assert(self.downlink_cache@ =~= fresh_entries(m0, now));
        }
    }

    pub fn count_uplink(&mut self, pl: &gw::UplinkFrame) -> (res: Result<(), StatsError>)
        ensures
            match pl.tx_info {
                None => res == Err::<(), StatsError>(StatsError::TxInfoMissing) && final(self).stats@
                    == old(self).stats@,
                Some(t) => match t.modulation {
                    None => res == Err::<(), StatsError>(StatsError::ModulationMissing) && final(self).stats@ == old(self).stats@,
                    Some(m) => res is Ok && final(self).stats@ == old(self).stats@.count_rx(
                        t.frequency,
                        m,
                    ),
                },
            },
            final(self).gateway_id == old(self).gateway_id,
            final(self).downlink_cache == old(self).downlink_cache,
            final(self).pull_addr == old(self).pull_addr,
    {
        self.stats.count_uplink(pl)
    }

    pub fn export_stats(&mut self) -> (res: gw::GatewayStats)
        ensures
            final(self).stats@ == StatsView::zero(),
            exported(res, old(self).stats@),
            final(self).gateway_id == old(self).gateway_id,
            final(self).downlink_cache == old(self).downlink_cache,
            final(self).pull_addr == old(self).pull_addr,
    {
        self.stats.export_stats()
    }

    /// Completes the statistics reported in a PUSH_DATA with the forwarder's own
    /// counters, which are exported: the packets received ok and emitted, and the
    /// counts per frequency, modulation and status. The rest is kept.
    pub fn complete_gateway_stats(&mut self, stats: gw::GatewayStats) -> (res: gw::GatewayStats)
        ensures
            final(self).stats@ == StatsView::zero(),
            final(self).gateway_id == old(self).gateway_id,
            final(self).downlink_cache == old(self).downlink_cache,
            final(self).pull_addr == old(self).pull_addr,
            res.gateway_id == stats.gateway_id,
            res.time == stats.time,
            res.location == stats.location,
            res.metadata == stats.metadata,
            res.rx_packets_received == stats.rx_packets_received,
            res.tx_packets_received == stats.tx_packets_received,
            res.rx_packets_received_ok == old(self).stats.rx_count,
            res.tx_packets_emitted == old(self).stats.tx_count,
            res.tx_packets_per_status@ == old(self).stats@.tx_status,
            res.rx_packets_per_frequency@ == old(self).stats@.rx_per_freq,
            res.tx_packets_per_frequency@ == old(self).stats@.tx_per_freq,
            res.rx_packets_per_modulation@ == old(self).stats@.rx_per_modulation,
            res.tx_packets_per_modulation@ == old(self).stats@.tx_per_modulation,
    {
        let s = self.export_stats();
        gw::GatewayStats {
            rx_packets_received_ok: s.rx_packets_received_ok,
            tx_packets_emitted: s.tx_packets_emitted,
            rx_packets_per_frequency: s.rx_packets_per_frequency,
            tx_packets_per_frequency: s.tx_packets_per_frequency,
            rx_packets_per_modulation: s.rx_packets_per_modulation,
            tx_packets_per_modulation: s.tx_packets_per_modulation,
            tx_packets_per_status: s.tx_packets_per_status,
            ..stats
        }
    }

    /// Remembers a downlink (under its token, for a minute from `now`) and makes
    /// the PULL_RESP for item `i`, to be sent to the PULL_DATA address.
    pub fn send_downlink_frame(
        &mut self,
        pl: gw::DownlinkFrame,
        acks: Vec<gw::TxAckStatus>,
        i: usize,
        now: u64,
    ) -> (res: Result<(PullResp, A), BackendError>)
        requires
            old(self).wf(),
            now <= u64::MAX - DOWNLINK_CACHE_TTL_MS,
        ensures
            final(self).wf(),
            final(self).downlink_cache@ == old(self).downlink_cache@.insert(
                downlink_token(pl.downlink_id),
                DownlinkCache {
                    expire: (now + DOWNLINK_CACHE_TTL_MS) as u64,
                    frame: pl,
                    ack_items: acks,
                    index: i,
                },
            ),
            pull_resp_ok(res, pl, i, old(self).pull_addr),
            final(self).gateway_id == old(self).gateway_id,
            final(self).pull_addr == old(self).pull_addr,
            final(self).stats == old(self).stats,
    {
        let token: u16 = (pl.downlink_id % 0x1_0000) as u16;
        let ghost frame = pl;
        self.downlink_cache.insert(
            token,
            DownlinkCache { expire: now + DOWNLINK_CACHE_TTL_MS, frame: pl, ack_items: acks, index: i },
        );
        let entry = self.downlink_cache.get(&token).unwrap();
        let pull_resp = match PullResp::from_proto(&entry.frame, i, token) {
            Ok(r) => r,
            Err(e) => {
                return Err(BackendError::Conversion(e));
            },
        };
        let addr = self.get_pull_addr()?;
        Ok((pull_resp, addr))
    }

    /// Handles a TX_ACK: the gateway's status is recorded for the item being tried.
    /// When the item was accepted, or it was the last one, the acknowledgement of
    /// the whole downlink is counted and returned; otherwise the next item is sent.
    pub fn handle_tx_ack(&mut self, ack: &TxAck, now: u64) -> (res: Result<TxAckAction<A>, BackendError>)
        requires
            old(self).wf(),
            now <= u64::MAX - DOWNLINK_CACHE_TTL_MS,
            fresh_entries(old(self).downlink_cache@, now).contains_key(ack.random_token) ==> ({
                let e = fresh_entries(old(self).downlink_cache@, now)[ack.random_token];
                e.index < e.ack_items.len()
            }),
        ensures
            final(self).wf(),
            final(self).gateway_id == old(self).gateway_id,
            final(self).pull_addr == old(self).pull_addr,
            ({
                let cleaned = fresh_entries(old(self).downlink_cache@, now);
                let tok = ack.random_token;
                if !cleaned.contains_key(tok) {
                    &&& res == Err::<TxAckAction<A>, BackendError>(BackendError::NoCacheItem(tok))
                    &&& final(self).downlink_cache@ == cleaned
                    &&& final(self).stats@ == old(self).stats@
                } else {
                    let e = cleaned[tok];
                    let status = match ack.payload {
                        None => gw::TxAckStatus::Success,
                        Some(p) => spec_tx_ack_status(p.txpk_ack.error@),
                    };
                    let items = e.ack_items@.update(e.index as int, status);
                    if status == gw::TxAckStatus::Success || e.index >= items.len() - 1 {
                        let (v, err) = count_downlink_from(old(self).stats@, e.frame.items@, items, 0);
                        &&& final(self).downlink_cache@ == cleaned
                        &&& final(self).stats@ == v
                        &&& match err {
                            Some(x) => res == Err::<TxAckAction<A>, BackendError>(
                                BackendError::Stats(x),
                            ),
                            None => res matches Ok(TxAckAction::SendAck(a)) && a.gateway_id@
                                == hex_lower(ack.gateway_id@) && a.downlink_id
                                == e.frame.downlink_id && a.items@ == items,
                        }
                    } else {
                        &&& final(self).stats == old(self).stats
                        &&& final(self).downlink_cache@ == cleaned.insert(
                            tok,
                            DownlinkCache {
                                expire: (now + DOWNLINK_CACHE_TTL_MS) as u64,
                                frame: e.frame,
                                ack_items: final(self).downlink_cache@[tok].ack_items,
                                index: (e.index + 1) as usize,
                            },
                        )
                        &&& final(self).downlink_cache@[tok].ack_items@ == items
                        &&& match res {
                            Ok(TxAckAction::SendPullResp(r, a)) => pull_resp_ok(
                                Ok::<(PullResp, A), BackendError>((r, a)),
                                e.frame,
                                (e.index + 1) as usize,
                                old(self).pull_addr,
                            ),
                            Ok(TxAckAction::SendAck(_)) => false,
                            Err(x) => pull_resp_ok(
                                Err::<(PullResp, A), BackendError>(x),
                                e.frame,
                                (e.index + 1) as usize,
                                old(self).pull_addr,
                            ),
                        }
                    }
                }
            }),
    {
        self.clean_downlink_cache(now);
        let tok = ack.random_token;
        let status = ack.to_proto_tx_ack_status();
        let (index, len) = match self.downlink_cache.get(&tok) {
            None => {
                return Err(BackendError::NoCacheItem(tok));
            },
            Some(e) => (e.index, e.ack_items.len()),
        };
        if status == gw::TxAckStatus::Success || index >= len - 1 {
            let entry = self.downlink_cache.get(&tok).unwrap();
            let mut items: Vec<gw::TxAckStatus> = Vec::new();
            let mut j: usize = 0;
            while j < entry.ack_items.len()
                invariant
                    j <= entry.ack_items.len(),
                    index < entry.ack_items.len(),
                    items@ == entry.ack_items@.update(index as int, status).take(j as int),
                decreases entry.ack_items.len() - j,
            {
                if j == index {
                    items.push(status);
                } else {
                    items.push(entry.ack_items[j]);
                }
                proof {
                    assert(entry.ack_items@.update(index as int, status).take(j + 1) == items@);
                }
                j = j + 1;
            }
            proof {
                assert(entry.ack_items@.update(index as int, status).take(j as int) == entry.ack_items@.update(
                    index as int,
                    status,
                ));
            }
            let tx_ack = gw::DownlinkTxAck {
                gateway_id: hex_encode(&ack.gateway_id),
                downlink_id: entry.frame.downlink_id,
                items,
            };
            match self.stats.count_downlink(&entry.frame, &tx_ack) {
                Ok(()) => Ok(TxAckAction::SendAck(tx_ack)),
                Err(e) => Err(BackendError::Stats(e)),
            }
        } else {
            let entry = self.downlink_cache.remove(&tok).unwrap();
            let ghost e0 = entry;
            let mut items = entry.ack_items;
            items.set(index, status);
            let next = index + 1;
            let r = self.send_downlink_frame(entry.frame, items, next, now);
            proof {
                assert(downlink_token(e0.frame.downlink_id) == tok);
                assert(self.downlink_cache@ =~= fresh_entries(old(self).downlink_cache@, now).insert(
                    tok,
                    DownlinkCache {
                        expire: (now + DOWNLINK_CACHE_TTL_MS) as u64,
                        frame: e0.frame,
                        ack_items: self.downlink_cache@[tok].ack_items,
                        index: next,
                    },
                ));
            }
            match r {
                Ok((p, a)) => Ok(TxAckAction::SendPullResp(p, a)),
                Err(x) => Err(x),
            }
        }
    }
}

/// What the receive loop does with a datagram, by its identifier (fourth byte).
#[derive(Clone, Copy, PartialEq, Eq, Structural, Debug)]
pub enum DatagramKind {
    PushData,
    PullData,
    TxAck,
    /// Fewer than four bytes: no identifier to read.
    TooShort(usize),
    /// An identifier that a packet forwarder does not send.
    Unexpected(u8),
}

pub fn datagram_kind(b: &[u8]) -> (res: DatagramKind)
    ensures
        b.len() < 4 ==> res == DatagramKind::TooShort(b.len()),
        b.len() >= 4 ==> res == (if b[3] == structs::PUSH_DATA_ID {
            DatagramKind::PushData
        } else if b[3] == structs::PULL_DATA_ID {
            DatagramKind::PullData
        } else if b[3] == structs::TX_ACK_ID {
            DatagramKind::TxAck
        } else {
            DatagramKind::Unexpected(b[3])
        }),
{
    if b.len() < 4 {
        return DatagramKind::TooShort(b.len());
    }
    if b[3] == structs::PUSH_DATA_ID {
        DatagramKind::PushData
    } else if b[3] == structs::PULL_DATA_ID {
        DatagramKind::PullData
    } else if b[3] == structs::TX_ACK_ID {
        DatagramKind::TxAck
    } else {
        DatagramKind::Unexpected(b[3])
    }
}

/// The acknowledgement a downlink starts with: every item ignored.
pub fn initial_acks(pl: &gw::DownlinkFrame) -> (res: Vec<gw::TxAckStatus>)
    ensures
        res@.len() == pl.items@.len(),
        forall|i: int| 0 <= i < res@.len() ==> res@[i] == gw::TxAckStatus::Ignored,
{
    let mut acks: Vec<gw::TxAckStatus> = Vec::with_capacity(pl.items.len());
    let mut i: usize = 0;
    while i < pl.items.len()
        invariant
            i <= pl.items.len(),
            acks@.len() == i,
            forall|k: int| 0 <= k < i ==> acks@[k] == gw::TxAckStatus::Ignored,
        decreases pl.items.len() - i,
    {
        acks.push(gw::TxAckStatus::Ignored);
        i = i + 1;
    }
    acks
}


/// A downlink stays findable by its token (the random token of its PULL_RESP,
/// echoed in the gateway's TX_ACK) until its time in the cache is up.
pub proof fn sent_downlink_is_found(
    m: Map<u16, DownlinkCache>,
    pl: gw::DownlinkFrame,
    acks: Vec<gw::TxAckStatus>,
    i: usize,
    now: u64,
    later: u64,
)
    requires
        now <= u64::MAX - DOWNLINK_CACHE_TTL_MS,
        later <= now + DOWNLINK_CACHE_TTL_MS,
    ensures
        ({
            let tok = downlink_token(pl.downlink_id);
            let entry = DownlinkCache {
                expire: (now + DOWNLINK_CACHE_TTL_MS) as u64,
                frame: pl,
                ack_items: acks,
                index: i,
            };
            &&& fresh_entries(m.insert(tok, entry), later).contains_key(tok)
            &&& fresh_entries(m.insert(tok, entry), later)[tok] == entry
        }),
{
}

/// Entries are dropped from the downlink cache only once they have expired.
pub proof fn fresh_entries_keep_unexpired(m: Map<u16, DownlinkCache>, now: u64, k: u16)
    requires
        m.contains_key(k),
        m[k].expire >= now,
    ensures
        fresh_entries(m, now).contains_key(k),
        fresh_entries(m, now)[k] == m[k],
{
}

/// The sum of the counts of a per-key count list.
pub open spec fn counts_total<K>(s: Seq<(K, u32)>) -> int
    decreases s.len(),
{
    if s.len() == 0 {
        0
    } else {
        counts_total(s.drop_last()) + s.last().1
    }
}

proof fn lemma_count_le_total<K>(s: Seq<(K, u32)>, i: int)
    requires
        0 <= i < s.len(),
    ensures
        s[i].1 <= counts_total(s),
        counts_total(s) >= 0,
    decreases s.len(),
{
    if i < s.len() - 1 {
        lemma_count_le_total(s.drop_last(), i);
    } else {
        lemma_total_nonneg(s.drop_last());
    }
}

proof fn lemma_total_nonneg<K>(s: Seq<(K, u32)>)
    ensures
        counts_total(s) >= 0,
    decreases s.len(),
{
    if s.len() > 0 {
        lemma_total_nonneg(s.drop_last());
    }
}

proof fn lemma_total_update<K>(s: Seq<(K, u32)>, i: int, e: (K, u32))
    requires
        0 <= i < s.len(),
    ensures
        counts_total(s.update(i, e)) == counts_total(s) - s[i].1 + e.1,
    decreases s.len(),
{
    if i < s.len() - 1 {
        lemma_total_update(s.drop_last(), i, e);
        assert(s.update(i, e).drop_last() =~= s.drop_last().update(i, e));
    } else {
        assert(s.update(i, e).drop_last() =~= s.drop_last());
    }
}

proof fn lemma_bump_list_total<K>(s: Seq<(K, u32)>, k: K)
    requires
        counts_total(s) < u32::MAX,
    ensures
        counts_total(bump_list(s, k)) == counts_total(s) + 1,
{
    match key_index_from(s, k, 0) {
        Some(i) => {
            lemma_key_index_from(s, k, 0);
            lemma_count_le_total(s, i);
            lemma_total_update(s, i, (k, inc(s[i].1)));
        },
        None => {
            assert(s.push((k, 1)).drop_last() =~= s);
        },
    }
}

proof fn lemma_key_index_from<K>(s: Seq<(K, u32)>, k: K, i: int)
    requires
        0 <= i,
    ensures
        key_index_from(s, k, i) matches Some(j) ==> i <= j < s.len() && s[j].0 == k && forall|m: int|
            i <= m < j ==> s[m].0 != k,
        key_index_from(s, k, i) is None ==> forall|m: int| i <= m < s.len() ==> s[m].0 != k,
    decreases s.len() - i,
{
    if i < s.len() && s[i].0 != k {
        lemma_key_index_from(s, k, i + 1);
    }
}

/// The first position from `i` on with key `k` is fixed by the keys alone.
proof fn lemma_key_index_is<K>(s: Seq<(K, u32)>, k: K, i: int, r: Option<int>)
    requires
        0 <= i,
        match r {
            Some(j) => i <= j < s.len() && s[j].0 == k && forall|m: int| i <= m < j ==> s[m].0 != k,
            None => forall|m: int| i <= m < s.len() ==> s[m].0 != k,
        },
    ensures
        key_index_from(s, k, i) == r,
    decreases s.len() - i,
{
    if i < s.len() && s[i].0 != k {
        lemma_key_index_is(s, k, i + 1, r);
    }
}

/// Every counted uplink is counted once in the total and once under its
/// modulation: the per-modulation counts add up to the number of uplinks, as long
/// as the counters do not wrap.
pub proof fn uplink_counted_once(v: StatsView, freq: u32, m: gw::Modulation)
    requires
        counts_total(v.rx_per_modulation) == v.rx_count,
        v.rx_count < u32::MAX,
    ensures
        counts_total(v.count_rx(freq, m).rx_per_modulation) == v.count_rx(freq, m).rx_count,
{
    lemma_bump_list_total(v.rx_per_modulation, m);
}

/// Every emitted downlink is counted once in the total and once under its
/// modulation, as long as the counters do not wrap.
pub proof fn downlink_counted_once(v: StatsView, freq: u32, m: gw::Modulation)
    requires
        counts_total(v.tx_per_modulation) == v.tx_count,
        v.tx_count < u32::MAX,
    ensures
        counts_total(v.count_tx(freq, m).tx_per_modulation) == v.count_tx(freq, m).tx_count,
{
    lemma_bump_list_total(v.tx_per_modulation, m);
}

/// Fresh counters agree: no uplink and no downlink under any modulation or
/// frequency.
pub proof fn zero_stats_agree()
    ensures
        counts_total(StatsView::zero().rx_per_modulation) == StatsView::zero().rx_count,
        counts_total(StatsView::zero().tx_per_modulation) == StatsView::zero().tx_count,
        StatsView::zero().rx_per_freq.dom().finite(),
        StatsView::zero().tx_per_freq.dom().finite(),
        map_total(StatsView::zero().rx_per_freq) == StatsView::zero().rx_count,
        map_total(StatsView::zero().tx_per_freq) == StatsView::zero().tx_count,
{
    assert(Map::<u32, u32>::empty().dom() =~= Set::<u32>::empty());
}

/// Every uplink frame made from a received packet carries a frequency and a
/// modulation, so counting it never fails.
pub proof fn converted_frames_are_countable(
    frames: Seq<gw::UplinkFrame>,
    rx: RxPk,
    gateway_id: Seq<u8>,
    time_fallback_enabled: bool,
    i: int,
)
    requires
        structs::packet_frames(frames, rx, gateway_id, time_fallback_enabled),
        0 <= i < frames.len(),
    ensures
        frames[i].tx_info matches Some(t) && t.modulation is Some,
{
    let (ids, fallback) = choose|ids: Seq<u32>, fallback: Option<gw::Timestamp>|
        {
            &&& ids.len() == rx.rsig.len() + 1
            &&& (fallback is Some <==> (rx.time is None && time_fallback_enabled))
            &&& #[trigger] structs::uplink_frames_of(frames, rx, gateway_id, ids, fallback)
        };
    assert(structs::uplink_frames_of(frames, rx, gateway_id, ids, fallback));
}

/// The sum of the counts of the keys in `s`.
pub open spec fn keys_total(m: Map<u32, u32>, s: Set<u32>) -> int
    decreases s.len(),
    when s.finite()
{
    if s.len() == 0 {
        0
    } else {
        let k = s.choose();
        m[k] + keys_total(m, s.remove(k))
    }
}

/// The sum of the counts of a per-frequency count map.
pub open spec fn map_total(m: Map<u32, u32>) -> int {
    keys_total(m, m.dom())
}

proof fn lemma_keys_total_remove(m: Map<u32, u32>, s: Set<u32>, k: u32)
    requires
        s.finite(),
        s.contains(k),
    ensures
        keys_total(m, s) == m[k] + keys_total(m, s.remove(k)),
    decreases s.len(),
{
    let c = s.choose();
    if c != k {
        lemma_keys_total_remove(m, s.remove(c), k);
        lemma_keys_total_remove(m, s.remove(k), c);
        assert(s.remove(c).remove(k) =~= s.remove(k).remove(c));
    }
}

proof fn lemma_keys_total_agree(m1: Map<u32, u32>, m2: Map<u32, u32>, s: Set<u32>)
    requires
        s.finite(),
        forall|k: u32| #[trigger] s.contains(k) ==> m1[k] == m2[k],
    ensures
        keys_total(m1, s) == keys_total(m2, s),
    decreases s.len(),
{
    if s.len() > 0 {
        lemma_keys_total_agree(m1, m2, s.remove(s.choose()));
    }
}

proof fn lemma_keys_total_nonneg(m: Map<u32, u32>, s: Set<u32>)
    requires
        s.finite(),
    ensures
        keys_total(m, s) >= 0,
    decreases s.len(),
{
    if s.len() > 0 {
        lemma_keys_total_nonneg(m, s.remove(s.choose()));
    }
}

proof fn lemma_bump_map_total(m: Map<u32, u32>, k: u32)
    requires
        m.dom().finite(),
        map_total(m) < u32::MAX,
    ensures
        bump_map(m, k).dom().finite(),
        map_total(bump_map(m, k)) == map_total(m) + 1,
{
    let m2 = bump_map(m, k);
    if m.contains_key(k) {
        assert(m2.dom() =~= m.dom());
        lemma_keys_total_remove(m, m.dom(), k);
        lemma_keys_total_remove(m2, m2.dom(), k);
        lemma_keys_total_nonneg(m, m.dom().remove(k));
        lemma_keys_total_agree(m, m2, m.dom().remove(k));
    } else {
        assert(m2.dom() =~= m.dom().insert(k));
        assert(m2.dom().remove(k) =~= m.dom());
        lemma_keys_total_remove(m2, m2.dom(), k);
        lemma_keys_total_agree(m, m2, m.dom());
    }
}

/// Every counted uplink is counted once under its frequency: the per-frequency
/// counts add up to the number of uplinks, as long as the counters do not wrap.
pub proof fn uplink_frequency_counted_once(v: StatsView, freq: u32, m: gw::Modulation)
    requires
        v.rx_per_freq.dom().finite(),
        map_total(v.rx_per_freq) == v.rx_count,
        v.rx_count < u32::MAX,
    ensures
        v.count_rx(freq, m).rx_per_freq.dom().finite(),
        map_total(v.count_rx(freq, m).rx_per_freq) == v.count_rx(freq, m).rx_count,
{
    lemma_bump_map_total(v.rx_per_freq, freq);
}

/// Every emitted downlink is counted once under its frequency, as long as the
/// counters do not wrap.
pub proof fn downlink_frequency_counted_once(v: StatsView, freq: u32, m: gw::Modulation)
    requires
        v.tx_per_freq.dom().finite(),
        map_total(v.tx_per_freq) == v.tx_count,
        v.tx_count < u32::MAX,
    ensures
        v.count_tx(freq, m).tx_per_freq.dom().finite(),
        map_total(v.count_tx(freq, m).tx_per_freq) == v.count_tx(freq, m).tx_count,
{
    lemma_bump_map_total(v.tx_per_freq, freq);
}

/// How many acknowledgement items, from `i` on, are not `Ignored`.
pub open spec fn not_ignored(acks: Seq<gw::TxAckStatus>, i: int) -> int
    decreases acks.len() - i,
{
    if i < 0 || i >= acks.len() {
        0
    } else {
        (if acks[i] != gw::TxAckStatus::Ignored {
            1int
        } else {
            0int
        }) + not_ignored(acks, i + 1)
    }
}

/// How many items, from `i` on, were emitted: acknowledged with success and part
/// of the frame.
pub open spec fn emitted(items: Seq<gw::DownlinkFrameItem>, acks: Seq<gw::TxAckStatus>, i: int) -> int
    decreases acks.len() - i,
{
    if i < 0 || i >= acks.len() {
        0
    } else {
        (if acks[i] == gw::TxAckStatus::Success && i < items.len() {
            1int
        } else {
            0int
        }) + emitted(items, acks, i + 1)
    }
}

/// Counting a downlink acknowledgement adds one status count per item that is
/// not ignored and one emitted downlink (under its modulation) per successful
/// item of the frame, and leaves the uplink counters alone, as long as the
/// counters do not wrap.
pub proof fn downlink_acks_counted_once(
    v: StatsView,
    items: Seq<gw::DownlinkFrameItem>,
    acks: Seq<gw::TxAckStatus>,
    i: int,
)
    requires
        0 <= i,
        count_downlink_from(v, items, acks, i).1 is None,
        counts_total(v.tx_status) + not_ignored(acks, i) < u32::MAX,
        counts_total(v.tx_per_modulation) == v.tx_count,
        v.tx_count + emitted(items, acks, i) < u32::MAX,
    ensures
        ({
            let w = count_downlink_from(v, items, acks, i).0;
            &&& counts_total(w.tx_status) == counts_total(v.tx_status) + not_ignored(acks, i)
            &&& w.tx_count == v.tx_count + emitted(items, acks, i)
            &&& counts_total(w.tx_per_modulation) == w.tx_count
            &&& w.rx_count == v.rx_count
            &&& w.rx_per_freq == v.rx_per_freq
            &&& w.rx_per_modulation == v.rx_per_modulation
        }),
    decreases acks.len() - i,
{
    lemma_not_ignored_nonneg(acks, i + 1);
    lemma_emitted_nonneg(items, acks, i + 1);
    if i < acks.len() && acks[i] != gw::TxAckStatus::Ignored {
        let v1 = v.count_status(acks[i]);
        lemma_total_nonneg(v.tx_status);
        lemma_bump_list_total(v.tx_status, acks[i]);
        if acks[i] == gw::TxAckStatus::Success && i < items.len() {
            let (freq, m) = item_tx(items[i])->Ok_0;
            lemma_bump_list_total(v1.tx_per_modulation, m);
            downlink_acks_counted_once(v1.count_tx(freq, m), items, acks, i + 1);
        } else {
            downlink_acks_counted_once(v1, items, acks, i + 1);
        }
    } else if i < acks.len() {
        downlink_acks_counted_once(v, items, acks, i + 1);
    }
}

proof fn lemma_not_ignored_nonneg(acks: Seq<gw::TxAckStatus>, i: int)
    ensures
        not_ignored(acks, i) >= 0,
    decreases acks.len() - i,
{
    if 0 <= i < acks.len() {
        lemma_not_ignored_nonneg(acks, i + 1);
    }
}

proof fn lemma_emitted_nonneg(items: Seq<gw::DownlinkFrameItem>, acks: Seq<gw::TxAckStatus>, i: int)
    ensures
        emitted(items, acks, i) >= 0,
    decreases acks.len() - i,
{
    if 0 <= i < acks.len() {
        lemma_emitted_nonneg(items, acks, i + 1);
    }
}

/// No key occurs twice in a per-key count list.
pub open spec fn keys_unique<K>(s: Seq<(K, u32)>) -> bool {
    forall|i: int, j: int| 0 <= i < j < s.len() ==> s[i].0 != s[j].0
}

/// The count of key `k` in a per-key count list (0 when it was never counted).
pub open spec fn count_of<K>(s: Seq<(K, u32)>, k: K) -> int {
    match key_index_from(s, k, 0) {
        Some(i) => s[i].1 as int,
        None => 0,
    }
}

/// The count of frequency `f` (0 when it was never counted).
pub open spec fn freq_count(m: Map<u32, u32>, f: u32) -> int {
    if m.contains_key(f) {
        m[f] as int
    } else {
        0
    }
}

/// Counting key `k` adds one to its count (wrapping), leaves every other key's
/// count alone, and keeps keys unique.
proof fn lemma_bump_list_counts<K>(s: Seq<(K, u32)>, k: K, k2: K)
    ensures
        count_of(bump_list(s, k), k2) == if k2 == k {
            inc(count_of(s, k) as u32) as int
        } else {
            count_of(s, k2)
        },
        keys_unique(s) ==> keys_unique(bump_list(s, k)),
{
    lemma_key_index_from(s, k, 0);
    lemma_key_index_from(s, k2, 0);
    let b = bump_list(s, k);
    match key_index_from(s, k, 0) {
        Some(i) => {
            assert(b.len() == s.len());
            assert forall|m: int| 0 <= m < s.len() implies b[m].0 == s[m].0 by {}
            lemma_key_index_is(b, k2, 0, key_index_from(s, k2, 0));
        },
        None => {
            assert forall|m: int| 0 <= m < s.len() implies b[m].0 == s[m].0 by {}
            if k2 == k {
                lemma_key_index_is(b, k2, 0, Some(s.len() as int));
            } else {
                lemma_key_index_is(b, k2, 0, key_index_from(s, k2, 0));
            }
        },
    }
}

proof fn lemma_bump_map_counts(m: Map<u32, u32>, k: u32, f: u32)
    ensures
        freq_count(bump_map(m, k), f) == if f == k {
            inc(freq_count(m, k) as u32) as int
        } else {
            freq_count(m, f)
        },
{
}

/// Counting an uplink adds one (wrapping) to the count of its frequency and of
/// its modulation and to the total, leaves every other frequency, modulation and
/// the downlink counters alone, and keeps each modulation counted under one key.
pub proof fn uplink_counts_per_key(v: StatsView, freq: u32, m: gw::Modulation, f: u32, m2: gw::Modulation)
    ensures
        ({
            let w = v.count_rx(freq, m);
            &&& w.rx_count == inc(v.rx_count)
            &&& freq_count(w.rx_per_freq, f) == if f == freq {
                inc(freq_count(v.rx_per_freq, freq) as u32) as int
            } else {
                freq_count(v.rx_per_freq, f)
            }
            &&& count_of(w.rx_per_modulation, m2) == if m2 == m {
                inc(count_of(v.rx_per_modulation, m) as u32) as int
            } else {
                count_of(v.rx_per_modulation, m2)
            }
            &&& keys_unique(v.rx_per_modulation) ==> keys_unique(w.rx_per_modulation)
            &&& w.tx_count == v.tx_count && w.tx_per_freq == v.tx_per_freq
            &&& w.tx_per_modulation == v.tx_per_modulation && w.tx_status == v.tx_status
        }),
{
    lemma_bump_map_counts(v.rx_per_freq, freq, f);
    lemma_bump_list_counts(v.rx_per_modulation, m, m2);
}

/// How many acknowledgement items from `i` on have status `st` (ignored items
/// are never counted).
pub open spec fn status_hits(acks: Seq<gw::TxAckStatus>, st: gw::TxAckStatus, i: int) -> int
    decreases acks.len() - i,
{
    if i < 0 || i >= acks.len() {
        0
    } else {
        (if acks[i] == st && st != gw::TxAckStatus::Ignored {
            1int
        } else {
            0int
        }) + status_hits(acks, st, i + 1)
    }
}

/// Item `i` was emitted: acknowledged with success and part of the frame.
pub open spec fn is_emitted(items: Seq<gw::DownlinkFrameItem>, acks: Seq<gw::TxAckStatus>, i: int) -> bool {
    0 <= i < acks.len() && acks[i] == gw::TxAckStatus::Success && i < items.len()
}

/// How many items from `i` on were emitted with modulation `m`.
pub open spec fn emitted_with(
    items: Seq<gw::DownlinkFrameItem>,
    acks: Seq<gw::TxAckStatus>,
    m: gw::Modulation,
    i: int,
) -> int
    decreases acks.len() - i,
{
    if i < 0 || i >= acks.len() {
        0
    } else {
        (if is_emitted(items, acks, i) && (item_tx(items[i]) matches Ok((_, mm)) && mm == m) {
            1int
        } else {
            0int
        }) + emitted_with(items, acks, m, i + 1)
    }
}

/// How many items from `i` on were emitted on frequency `f`.
pub open spec fn emitted_on(items: Seq<gw::DownlinkFrameItem>, acks: Seq<gw::TxAckStatus>, f: u32, i: int) -> int
    decreases acks.len() - i,
{
    if i < 0 || i >= acks.len() {
        0
    } else {
        (if is_emitted(items, acks, i) && (item_tx(items[i]) matches Ok((ff, _)) && ff == f) {
            1int
        } else {
            0int
        }) + emitted_on(items, acks, f, i + 1)
    }
}

proof fn lemma_hits_nonneg(
    items: Seq<gw::DownlinkFrameItem>,
    acks: Seq<gw::TxAckStatus>,
    st: gw::TxAckStatus,
    m: gw::Modulation,
    f: u32,
    i: int,
)
    ensures
        status_hits(acks, st, i) >= 0,
        emitted_with(items, acks, m, i) >= 0,
        emitted_on(items, acks, f, i) >= 0,
    decreases acks.len() - i,
{
    if 0 <= i < acks.len() {
        lemma_hits_nonneg(items, acks, st, m, f, i + 1);
    }
}

/// Counting a downlink acknowledgement, from item `i` on, adds to each status the
/// number of items acknowledged with it (ignored items are not counted), and to
/// each frequency and modulation the number of items emitted with it; the
/// uplink counters stay, and each status and modulation stays under one key. As
/// long as the counts do not wrap.
pub proof fn downlink_counts_per_key(
    v: StatsView,
    items: Seq<gw::DownlinkFrameItem>,
    acks: Seq<gw::TxAckStatus>,
    i: int,
    st: gw::TxAckStatus,
    m: gw::Modulation,
    f: u32,
)
    requires
        0 <= i,
        count_downlink_from(v, items, acks, i).1 is None,
        count_of(v.tx_status, st) + status_hits(acks, st, i) < u32::MAX,
        count_of(v.tx_per_modulation, m) + emitted_with(items, acks, m, i) < u32::MAX,
        freq_count(v.tx_per_freq, f) + emitted_on(items, acks, f, i) < u32::MAX,
    ensures
        ({
            let w = count_downlink_from(v, items, acks, i).0;
            &&& count_of(w.tx_status, st) == count_of(v.tx_status, st) + status_hits(acks, st, i)
            &&& count_of(w.tx_per_modulation, m) == count_of(v.tx_per_modulation, m) + emitted_with(
                items,
                acks,
                m,
                i,
            )
            &&& freq_count(w.tx_per_freq, f) == freq_count(v.tx_per_freq, f) + emitted_on(
                items,
                acks,
                f,
                i,
            )
            &&& keys_unique(v.tx_status) ==> keys_unique(w.tx_status)
            &&& keys_unique(v.tx_per_modulation) ==> keys_unique(w.tx_per_modulation)
            &&& w.rx_count == v.rx_count && w.rx_per_freq == v.rx_per_freq
            &&& w.rx_per_modulation == v.rx_per_modulation
        }),
    decreases acks.len() - i,
{
    lemma_hits_nonneg(items, acks, st, m, f, i + 1);
    lemma_key_index_from(v.tx_status, st, 0);
    lemma_key_index_from(v.tx_per_modulation, m, 0);
    if i < acks.len() && acks[i] != gw::TxAckStatus::Ignored {
        let v1 = v.count_status(acks[i]);
        lemma_bump_list_counts(v.tx_status, acks[i], st);
        if acks[i] == gw::TxAckStatus::Success && i < items.len() {
            let (freq, mm) = item_tx(items[i])->Ok_0;
            lemma_bump_list_counts(v1.tx_per_modulation, mm, m);
            lemma_bump_map_counts(v1.tx_per_freq, freq, f);
            downlink_counts_per_key(v1.count_tx(freq, mm), items, acks, i + 1, st, m, f);
        } else {
            downlink_counts_per_key(v1, items, acks, i + 1, st, m, f);
        }
    } else if i < acks.len() {
        downlink_counts_per_key(v, items, acks, i + 1, st, m, f);
    }
}

/// Fresh counters hold no key twice.
pub proof fn zero_stats_keys_unique()
    ensures
        keys_unique(StatsView::zero().rx_per_modulation),
        keys_unique(StatsView::zero().tx_per_modulation),
        keys_unique(StatsView::zero().tx_status),
{
}

} // verus!
