//! ChirpStack Concentratord backend: which events are forwarded.
use vstd::prelude::*;

use crate::config::{DevAddrPrefix, EuiPrefix, Filters};
use crate::gw;

verus! {

/// What `lrwn_filters::matches` returns for a PHYPayload, with the given DevAddr
/// and JoinEUI prefixes and `lorawan_only` off.
pub uninterp spec fn lorawan_filters_match(
    phy_payload: Seq<u8>,
    dev_addr_prefixes: Seq<DevAddrPrefix>,
    join_eui_prefixes: Seq<EuiPrefix>,
) -> bool;

/// The frame type of a PHYPayload: the three high bits of its first byte.
pub open spec fn frame_type(phy_payload: Seq<u8>) -> u8 {
    phy_payload[0] / 32
}

/// A data uplink (unconfirmed or confirmed) long enough to carry a DevAddr.
pub open spec fn has_dev_addr(phy_payload: Seq<u8>) -> bool {
    &&& phy_payload.len() >= 5
    &&& (frame_type(phy_payload) == 2 || frame_type(phy_payload) == 4)
}

/// A join-request long enough to carry a JoinEUI.
pub open spec fn has_join_eui(phy_payload: Seq<u8>) -> bool {
    &&& phy_payload.len() >= 17
    &&& frame_type(phy_payload) == 0
}

/// The prefix sizes that `lrwn_filters` can compare against this payload without
/// its shift overflowing: for a data uplink every DevAddr prefix has 1 to 32
/// bits, for a join-request every JoinEUI prefix has 1 to 64 bits.
pub open spec fn prefix_sizes_ok(
    phy_payload: Seq<u8>,
    dev_addr_prefixes: Seq<DevAddrPrefix>,
    join_eui_prefixes: Seq<EuiPrefix>,
) -> bool {
    &&& has_dev_addr(phy_payload) ==> forall|i: int|
        0 <= i < dev_addr_prefixes.len() ==> 1 <= #[trigger] dev_addr_prefixes[i].size <= 32
    &&& has_join_eui(phy_payload) ==> forall|i: int|
        0 <= i < join_eui_prefixes.len() ==> 1 <= #[trigger] join_eui_prefixes[i].size <= 64
}

/// `lrwn_filters::matches` with `lorawan_only` off, the prefixes made with
/// `DevAddrPrefix::new` and `EuiPrefix::new`.
///
/// The contract names the result and states what the crate documents: a
/// payload from which neither a DevAddr nor a JoinEUI can be read passes, and
/// so does every data uplink when no DevAddr prefix is given and every
/// join-request when no JoinEUI prefix is given. A prefix size of 0, or larger
/// than the prefix, makes the crate's shift overflow; `requires` leaves those
/// sizes out for the prefixes the payload is compared with.
#[verifier::external_body]
fn filters_match(phy_payload: &[u8], dev_addr_prefixes: &[DevAddrPrefix], join_eui_prefixes: &[EuiPrefix]) -> (res:
    bool)
    requires
        prefix_sizes_ok(phy_payload@, dev_addr_prefixes@, join_eui_prefixes@),
    ensures
        res == lorawan_filters_match(phy_payload@, dev_addr_prefixes@, join_eui_prefixes@),
        !has_dev_addr(phy_payload@) && !has_join_eui(phy_payload@) ==> res,
        has_dev_addr(phy_payload@) && dev_addr_prefixes@.len() == 0 ==> res,
        has_join_eui(phy_payload@) && join_eui_prefixes@.len() == 0 ==> res,
{
    let filters = lrwn_filters::Filters {
        dev_addr_prefixes: dev_addr_prefixes
            .iter()
            .map(|p| lrwn_filters::DevAddrPrefix::new(p.prefix, p.size))
            .collect(),
        join_eui_prefixes: join_eui_prefixes
            .iter()
            .map(|p| lrwn_filters::EuiPrefix::new(p.prefix, p.size))
            .collect(),
        lorawan_only: false,
    };
    lrwn_filters::matches(phy_payload, &filters)
}

/// The forward_crc_ flags let a frame with this receive information through;
/// a frame without receive information is not held back by them.
pub open spec fn crc_passes(rx_info: Option<gw::UplinkRxInfo>, filters: Filters) -> bool {
    match rx_info {
        None => true,
        Some(ri) => match ri.crc_status {
            gw::CrcStatus::CrcOk => filters.forward_crc_ok,
            gw::CrcStatus::BadCrc => filters.forward_crc_invalid,
            gw::CrcStatus::NoCrc => filters.forward_crc_missing,
        },
    }
}

/// What happens to an uplink frame received from the Concentratord.
#[derive(Clone, Copy, PartialEq, Eq, Structural, Debug)]
pub enum UplinkAction {
    /// Published on the uplink event topic.
    Forward,
    /// Dropped by the forward_crc_ flags.
    IgnoredCrc,
    /// Dropped by the DevAddr and JoinEUI prefix filters.
    IgnoredFilters,
}

/// Decides whether an uplink frame is forwarded: first the CRC flags, then the
/// DevAddr and JoinEUI prefix filters.
pub fn uplink_action(frame: &gw::UplinkFrame, filters: &Filters) -> (res: UplinkAction)
    requires
        crc_passes(frame.rx_info, *filters) ==> prefix_sizes_ok(
            frame.phy_payload@,
            filters.dev_addr_prefixes@,
            filters.join_eui_prefixes@,
        ),
    ensures
        !crc_passes(frame.rx_info, *filters) ==> res == UplinkAction::IgnoredCrc,
        crc_passes(frame.rx_info, *filters) ==> res == (if lorawan_filters_match(
            frame.phy_payload@,
            filters.dev_addr_prefixes@,
            filters.join_eui_prefixes@,
        ) {
            UplinkAction::Forward
        } else {
            UplinkAction::IgnoredFilters
        }),
        crc_passes(frame.rx_info, *filters) && filters.dev_addr_prefixes@.len() == 0
            && filters.join_eui_prefixes@.len() == 0 ==> res == UplinkAction::Forward,
{
    let crc_ok = match &frame.rx_info {
        None => true,
        Some(ri) => match ri.crc_status {
            gw::CrcStatus::CrcOk => filters.forward_crc_ok,
            gw::CrcStatus::BadCrc => filters.forward_crc_invalid,
            gw::CrcStatus::NoCrc => filters.forward_crc_missing,
        },
    };
    if !crc_ok {
        return UplinkAction::IgnoredCrc;
    }
    if filters_match(
        frame.phy_payload.as_slice(),
        filters.dev_addr_prefixes.as_slice(),
        filters.join_eui_prefixes.as_slice(),
    ) {
        UplinkAction::Forward
    } else {
        UplinkAction::IgnoredFilters
    }
}

/// Whether `uplink_action` can decide on this frame: the prefixes it would be
/// compared with have sizes that the filter can shift by.
pub fn can_decide(frame: &gw::UplinkFrame, filters: &Filters) -> (res: bool)
    ensures
        res == (crc_passes(frame.rx_info, *filters) ==> prefix_sizes_ok(
            frame.phy_payload@,
            filters.dev_addr_prefixes@,
            filters.join_eui_prefixes@,
        )),
{
    let crc_ok = match &frame.rx_info {
        None => true,
        Some(ri) => match ri.crc_status {
            gw::CrcStatus::CrcOk => filters.forward_crc_ok,
            gw::CrcStatus::BadCrc => filters.forward_crc_invalid,
            gw::CrcStatus::NoCrc => filters.forward_crc_missing,
        },
    };
    if !crc_ok {
        return true;
    }
    assert(crc_passes(frame.rx_info, *filters));
    let p = &frame.phy_payload;
    let ftype: u8 = if p.len() > 0 { p[0] / 32 } else { 0 };
    let dev = p.len() >= 5 && (ftype == 2 || ftype == 4);
    let join = p.len() >= 17 && ftype == 0;
    assert(dev == has_dev_addr(p@));
    assert(join == has_join_eui(p@));
    if dev {
        let mut i: usize = 0;
        while i < filters.dev_addr_prefixes.len()
            invariant
                i <= filters.dev_addr_prefixes.len(),
                dev == has_dev_addr(frame.phy_payload@),
                dev,
                crc_passes(frame.rx_info, *filters),
                forall|k: int| 0 <= k < i ==> 1 <= #[trigger] filters.dev_addr_prefixes@[k].size <= 32,
            decreases filters.dev_addr_prefixes.len() - i,
        {
            let size = filters.dev_addr_prefixes[i].size;
            if size < 1 || size > 32 {
                assert(!(1 <= filters.dev_addr_prefixes@[i as int].size <= 32));
                return false;
            }
            i = i + 1;
        }
    }
    if join {
        let mut i: usize = 0;
        while i < filters.join_eui_prefixes.len()
            invariant
                i <= filters.join_eui_prefixes.len(),
                join == has_join_eui(frame.phy_payload@),
                join,
                crc_passes(frame.rx_info, *filters),
                forall|k: int| 0 <= k < i ==> 1 <= #[trigger] filters.join_eui_prefixes@[k].size <= 64,
            decreases filters.join_eui_prefixes.len() - i,
        {
            let size = filters.join_eui_prefixes[i].size;
            if size < 1 || size > 64 {
                assert(!(1 <= filters.join_eui_prefixes@[i as int].size <= 64));
                return false;
            }
            i = i + 1;
        }
    }
    true
}

/// Length, in bytes, of a gateway id as the Concentratord reports it (hex text).
pub const GATEWAY_ID_LEN: usize = 16;

/// The gateway id reported by the Concentratord has the wrong length.
#[derive(Clone, Debug)]
pub struct InvalidGatewayId {
    pub gateway_id: String,
}

/// Accepts the gateway id reported by the Concentratord if it is 16 bytes long.
pub fn check_gateway_id(gateway_id: String) -> (res: Result<String, InvalidGatewayId>)
    ensures
        vstd::utf8::encode_utf8(gateway_id@).len() == GATEWAY_ID_LEN ==> res == Ok::<
            String,
            InvalidGatewayId,
        >(gateway_id),
        vstd::utf8::encode_utf8(gateway_id@).len() != GATEWAY_ID_LEN ==> (res matches Err(e)
            && e.gateway_id == gateway_id),
{
    if gateway_id.as_str().as_bytes().len() == GATEWAY_ID_LEN {
        Ok(gateway_id)
    } else {
        Err(InvalidGatewayId { gateway_id })
    }
}

/// Each forward_crc_ flag decides for the frames of its own CRC status: turning
/// `forward_crc_invalid` over changes whether a frame with a bad CRC passes and
/// nothing else (likewise `forward_crc_ok` for a good CRC and
/// `forward_crc_missing` for no CRC); with every flag off no frame with receive
/// information passes, with every flag on every frame does.
pub proof fn crc_flags_decide_their_status(ri: gw::UplinkRxInfo, f: Filters)
    ensures
        crc_passes(Some(ri), Filters { forward_crc_invalid: !f.forward_crc_invalid, ..f }) != crc_passes(
            Some(ri),
            f,
        ) <==> ri.crc_status == gw::CrcStatus::BadCrc,
        crc_passes(Some(ri), Filters { forward_crc_ok: !f.forward_crc_ok, ..f }) != crc_passes(
            Some(ri),
            f,
        ) <==> ri.crc_status == gw::CrcStatus::CrcOk,
        crc_passes(Some(ri), Filters { forward_crc_missing: !f.forward_crc_missing, ..f }) != crc_passes(
            Some(ri),
            f,
        ) <==> ri.crc_status == gw::CrcStatus::NoCrc,
        !f.forward_crc_ok && !f.forward_crc_invalid && !f.forward_crc_missing ==> !crc_passes(
            Some(ri),
            f,
        ),
        f.forward_crc_ok && f.forward_crc_invalid && f.forward_crc_missing ==> crc_passes(Some(ri), f),
{
}

/// The CRC status alone, with the flag named after it, decides whether a frame
/// passes: a bad CRC exactly when `forward_crc_invalid` is set, no CRC exactly
/// when `forward_crc_missing` is set, a good CRC exactly when `forward_crc_ok` is.
pub proof fn crc_status_flag(ri: gw::UplinkRxInfo, f: Filters)
    ensures
        ri.crc_status == gw::CrcStatus::BadCrc ==> (crc_passes(Some(ri), f) <==> f.forward_crc_invalid),
        ri.crc_status == gw::CrcStatus::NoCrc ==> (crc_passes(Some(ri), f) <==> f.forward_crc_missing),
        ri.crc_status == gw::CrcStatus::CrcOk ==> (crc_passes(Some(ri), f) <==> f.forward_crc_ok),
{
}

} // verus!
