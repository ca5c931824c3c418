//! Gateway backends: the Semtech UDP packet forwarder and ChirpStack Concentratord.
pub mod concentratord;
pub mod semtech_udp;

use vstd::prelude::*;

use crate::text::chars_of;

verus! {

/// The backends a gateway can be reached through.
#[derive(Clone, Copy, PartialEq, Eq, Structural, Debug)]
pub enum BackendKind {
    SemtechUdp,
    Concentratord,
}

/// The configured backend name names no backend.
#[derive(Clone, PartialEq, Eq, Debug)]
pub struct UnexpectedBackend {
    pub name: String,
}

/// The backend named by the configuration (`semtech_udp` or `concentratord`).
pub fn backend_kind(enabled: &str) -> (res: Result<BackendKind, UnexpectedBackend>)
    ensures
        enabled@ == "semtech_udp"@ ==> res == Ok::<BackendKind, UnexpectedBackend>(
            BackendKind::SemtechUdp,
        ),
        enabled@ == "concentratord"@ ==> res == Ok::<BackendKind, UnexpectedBackend>(
            BackendKind::Concentratord,
        ),
        enabled@ != "semtech_udp"@ && enabled@ != "concentratord"@ ==> (res matches Err(e)
            && e.name@ == enabled@),
{
    proof {
        reveal_strlit("semtech_udp");
        reveal_strlit("concentratord");
        assert("semtech_udp"@.len() != "concentratord"@.len());
    }
    let v = chars_of(enabled);
    if crate::text::chars_eq(v.as_slice(), "semtech_udp") {
        Ok(BackendKind::SemtechUdp)
    } else if crate::text::chars_eq(v.as_slice(), "concentratord") {
        Ok(BackendKind::Concentratord)
    } else {
        Err(UnexpectedBackend { name: String::from_str(enabled) })
    }
}

} // verus!
