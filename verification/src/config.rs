//! Configuration sections and their defaults.
use std::collections::HashMap;
use std::time::Duration;

use vstd::prelude::*;
use vstd::string::StringSliceAdditionalSpecFns;

verus! {

/// A DevAddr prefix: the `size` most significant bits of `prefix` (big endian).
#[derive(Clone, Copy, PartialEq, Eq, Debug)]
pub struct DevAddrPrefix {
    pub prefix: [u8; 4],
    pub size: u32,
}

/// A JoinEUI prefix: the `size` most significant bits of `prefix` (big endian).
#[derive(Clone, Copy, PartialEq, Eq, Debug)]
pub struct EuiPrefix {
    pub prefix: [u8; 8],
    pub size: u32,
}

/// Why the text of a prefix is refused.
#[derive(Clone, Copy, PartialEq, Eq, Structural, Debug)]
pub enum PrefixError {
    /// Not `<hex>/<size>` with the right number of hexadecimal digits.
    Format,
    /// A size larger than the prefix has bits.
    Size,
    /// A character of the prefix is no hexadecimal digit.
    Hex,
}

/// `p` is the position of the one `/` in `b`.
pub open spec fn is_only_slash(b: Seq<u8>, p: int) -> bool {
    &&& 0 <= p < b.len()
    &&& b[p] == 47
    &&& forall|k: int| 0 <= k < b.len() && k != p ==> b[k] != 47
}

/// Bytes read as characters one by one (exact for ASCII).
pub open spec fn byte_chars(b: Seq<u8>) -> Seq<char> {
    b.map_values(|x: u8| x as char)
}

/// What the text `<hex>/<size>` of a prefix of `n` bytes gives, `max` being the
/// largest size: exactly one `/`, `2 * n` hexadecimal digits before it, and a
/// decimal size after it.
pub open spec fn spec_parse_prefix(b: Seq<u8>, n: nat, max: u32) -> Result<(Seq<u8>, u32), PrefixError> {
    if exists|p: int| is_only_slash(b, p) {
        let p = choose|p: int| is_only_slash(b, p);
        if p != 2 * n {
            Err(PrefixError::Format)
        } else {
            match crate::text::hex_decoded(b.take(p)) {
                None => Err(PrefixError::Hex),
                Some(v) => match crate::text::spec_parse_u32(byte_chars(b.skip(p + 1))) {
                    None => Err(PrefixError::Format),
                    Some(size) => if size > max {
                        Err(PrefixError::Size)
                    } else {
                        Ok((v, size))
                    },
                },
            }
        }
    } else {
        Err(PrefixError::Format)
    }
}

fn parse_prefix(s: &str, n: usize, max: u32) -> (res: Result<(Vec<u8>, u32), PrefixError>)
    requires
        n <= 8,
    ensures
        match spec_parse_prefix(s.spec_bytes(), n as nat, max) {
            Ok((v, size)) => res matches Ok(r) && r.0@ == v && r.1 == size,
            Err(e) => res == Err::<(Vec<u8>, u32), PrefixError>(e),
        },
{
    let b = s.as_bytes();
    let mut first: Option<usize> = None;
    let mut twice = false;
    let mut i: usize = 0;
    while i < b.len()
        invariant
            i <= b.len(),
            match first {
                None => forall|k: int| 0 <= k < i ==> b@[k] != 47,
                Some(p) => p < i && b@[p as int] == 47 && forall|k: int| 0 <= k < p ==> b@[k] != 47,
            },
            !twice ==> (first matches Some(p) ==> forall|k: int| p < k < i ==> b@[k] != 47),
            twice ==> (first matches Some(p) && exists|k: int| p < k < i && b@[k] == 47),
        decreases b.len() - i,
    {
        if b[i] == 47 {
            if first.is_none() {
                first = Some(i);
            } else {
                twice = true;
            }
        }
        i = i + 1;
    }
    let p = match first {
        None => {
            return Err(PrefixError::Format);
        },
        Some(p) => p,
    };
    if twice {
        proof {
            let k = choose|k: int| p < k < b@.len() && b@[k] == 47;
            assert forall|q: int| !is_only_slash(b@, q) by {
                if is_only_slash(b@, q) {
                    if q != p as int {
                        assert(b@[p as int] != 47);
                    } else {
                        assert(b@[k] != 47);
                    }
                }
            }
        }
        return Err(PrefixError::Format);
    }
    assert(is_only_slash(b@, p as int));
    assert forall|q: int| is_only_slash(b@, q) implies q == p as int by {
        if q != p as int {
            assert(b@[p as int] != 47);
        }
    }
    if p != 2 * n {
        return Err(PrefixError::Format);
    }
    let hex = vstd::slice::slice_subrange(b, 0, p);
    assert(hex@ == b@.take(p as int));
    let v = match crate::text::hex_decode(hex, n) {
        None => {
            return Err(PrefixError::Hex);
        },
        Some(v) => v,
    };
    let mut digits: Vec<char> = Vec::new();
    let mut j: usize = p + 1;
    while j < b.len()
        invariant
            p + 1 <= j <= b.len(),
            digits@ == byte_chars(b@.skip(p + 1).take(j - (p + 1))),
        decreases b.len() - j,
    {
        digits.push(b[j] as char);
        assert(byte_chars(b@.skip(p + 1).take(j + 1 - (p + 1))) == byte_chars(
            b@.skip(p + 1).take(j - (p + 1)),
        ).push(b@[j as int] as char));
        j = j + 1;
    }
    assert(b@.skip(p + 1).take(j - (p + 1)) == b@.skip(p + 1));
    let size = match crate::text::parse_u32(digits.as_slice()) {
        None => {
            return Err(PrefixError::Format);
        },
        Some(size) => size,
    };
    if size > max {
        return Err(PrefixError::Size);
    }
    Ok((v, size))
}

impl DevAddrPrefix {
    /// Reads the text `aabbccdd/size` of a DevAddr prefix (size at most 32).
    pub fn parse(s: &str) -> (res: Result<DevAddrPrefix, PrefixError>)
        ensures
            match spec_parse_prefix(s.spec_bytes(), 4, 32) {
                Ok((v, size)) => res matches Ok(r) && r.prefix@ == v && r.size == size,
                Err(e) => res == Err::<DevAddrPrefix, PrefixError>(e),
            },
    {
        let (v, size) = parse_prefix(s, 4, 32)?;
        let prefix = [v[0], v[1], v[2], v[3]];
        assert(prefix@ =~= v@);
        Ok(DevAddrPrefix { prefix, size })
    }

    /// The text of the prefix: lower-case hex, `/`, the size.
    pub fn to_text(&self) -> (res: String)
        ensures
            res@ == crate::text::hex_lower(self.prefix@) + "/"@ + crate::text::decimal(self.size as nat),
    {
        let mut s = crate::text::hex_encode(&self.prefix);
        s.append("/");
        crate::text::push_decimal(&mut s, self.size);
        s
    }
}

impl EuiPrefix {
    /// Reads the text `0011223344556677/size` of a JoinEUI prefix (size at most 64).
    pub fn parse(s: &str) -> (res: Result<EuiPrefix, PrefixError>)
        ensures
            match spec_parse_prefix(s.spec_bytes(), 8, 64) {
                Ok((v, size)) => res matches Ok(r) && r.prefix@ == v && r.size == size,
                Err(e) => res == Err::<EuiPrefix, PrefixError>(e),
            },
    {
        let (v, size) = parse_prefix(s, 8, 64)?;
        let prefix = [v[0], v[1], v[2], v[3], v[4], v[5], v[6], v[7]];
        assert(prefix@ =~= v@);
        Ok(EuiPrefix { prefix, size })
    }

    /// The text of the prefix: lower-case hex, `/`, the size.
    pub fn to_text(&self) -> (res: String)
        ensures
            res@ == crate::text::hex_lower(self.prefix@) + "/"@ + crate::text::decimal(self.size as nat),
    {
        let mut s = crate::text::hex_encode(&self.prefix);
        s.append("/");
        crate::text::push_decimal(&mut s, self.size);
        s
    }
}

/// What `Duration::from_secs` returns for a number of seconds.
pub uninterp spec fn duration_from_secs(secs: u64) -> Duration;

/// `Duration::from_secs`; claims only that the result is `duration_from_secs` of the
/// seconds.
#[verifier::external_body]
fn duration_secs(secs: u64) -> (d: Duration)
    ensures
        d == duration_from_secs(secs),
{
    Duration::from_secs(secs)
}

pub struct Logging {
    pub level: String,
    pub log_to_syslog: bool,
}

/// `v` holds the default `Logging` settings.
pub open spec fn default_logging(v: Logging) -> bool {
    &&& v.level@ == "info"@
    &&& !v.log_to_syslog
}

impl Default for Logging {
    fn default() -> (res: Self)
        ensures
            default_logging(res),
    {
        Logging { level: String::from_str("info"), log_to_syslog: false }
    }
}

pub struct Mqtt {
    pub topic_prefix: String,
    pub json: bool,
    pub server: String,
    pub username: String,
    pub password: String,
    pub qos: u8,
    pub clean_session: bool,
    pub client_id: String,
    pub keep_alive_interval: Duration,
    pub reconnect_interval: Duration,
    pub ca_cert: String,
    pub tls_cert: String,
    pub tls_key: String,
}

/// `v` holds the default `Mqtt` settings.
pub open spec fn default_mqtt(v: Mqtt) -> bool {
    &&& v.topic_prefix@ == "eu868"@
    &&& !v.json
    &&& v.server@ == "tcp://127.0.0.1:1883"@
    &&& v.username@.len() == 0
    &&& v.password@.len() == 0
    &&& v.qos == 0
    &&& !v.clean_session
    &&& v.client_id@.len() == 0
    &&& v.keep_alive_interval == duration_from_secs(30)
    &&& v.reconnect_interval == duration_from_secs(1)
    &&& v.ca_cert@.len() == 0
    &&& v.tls_cert@.len() == 0
    &&& v.tls_key@.len() == 0
}

impl Default for Mqtt {
    fn default() -> (res: Self)
        ensures
            default_mqtt(res),
    {
        Mqtt {
            topic_prefix: String::from_str("eu868"),
            json: false,
            server: String::from_str("tcp://127.0.0.1:1883"),
            username: String::new(),
            password: String::new(),
            qos: 0,
            clean_session: false,
            client_id: String::new(),
            keep_alive_interval: duration_secs(30),
            reconnect_interval: duration_secs(1),
            ca_cert: String::new(),
            tls_cert: String::new(),
            tls_key: String::new(),
        }
    }
}

/// Which frames a Concentratord backend forwards.
pub struct Filters {
    pub forward_crc_ok: bool,
    pub forward_crc_invalid: bool,
    pub forward_crc_missing: bool,
    pub dev_addr_prefixes: Vec<DevAddrPrefix>,
    pub join_eui_prefixes: Vec<EuiPrefix>,
}

/// `v` holds the default `Filters` settings.
pub open spec fn default_filters(v: Filters) -> bool {
    &&& v.forward_crc_ok
    &&& !v.forward_crc_invalid
    &&& !v.forward_crc_missing
    &&& v.dev_addr_prefixes@.len() == 0
    &&& v.join_eui_prefixes@.len() == 0
}

impl Default for Filters {
    fn default() -> (res: Self)
        ensures
            default_filters(res),
    {
        Filters {
            forward_crc_ok: true,
            forward_crc_invalid: false,
            forward_crc_missing: false,
            dev_addr_prefixes: Vec::new(),
            join_eui_prefixes: Vec::new(),
        }
    }
}

pub struct Concentratord {
    pub event_url: String,
    pub command_url: String,
}

/// `v` holds the default `Concentratord` settings.
pub open spec fn default_concentratord(v: Concentratord) -> bool {
    &&& v.event_url@ == "ipc:///tmp/concentratord_event"@
    &&& v.command_url@ == "ipc:///tmp/concentratord_command"@
}

impl Default for Concentratord {
    fn default() -> (res: Self)
        ensures
            default_concentratord(res),
    {
        Concentratord {
            event_url: String::from_str("ipc:///tmp/concentratord_event"),
            command_url: String::from_str("ipc:///tmp/concentratord_command"),
        }
    }
}

pub struct SemtechUdp {
    pub bind: String,
    pub time_fallback_enabled: bool,
}

/// `v` holds the default `SemtechUdp` settings.
pub open spec fn default_semtech_udp(v: SemtechUdp) -> bool {
    &&& v.bind@ == "0.0.0.0:1700"@
    &&& !v.time_fallback_enabled
}

impl Default for SemtechUdp {
    fn default() -> (res: Self)
        ensures
            default_semtech_udp(res),
    {
        SemtechUdp { bind: String::from_str("0.0.0.0:1700"), time_fallback_enabled: false }
    }
}

pub struct Backend {
    pub enabled: String,
    pub filters: Filters,
    pub gateway_id: String,
    pub semtech_udp: SemtechUdp,
    pub concentratord: Concentratord,
}

/// `v` holds the default `Backend` settings.
pub open spec fn default_backend(v: Backend) -> bool {
    &&& v.enabled@ == "semtech_udp"@
    &&& default_filters(v.filters)
    &&& v.gateway_id@.len() == 0
    &&& default_semtech_udp(v.semtech_udp)
    &&& default_concentratord(v.concentratord)
}

impl Default for Backend {
    fn default() -> (res: Self)
        ensures
            default_backend(res),
    {
        Backend {
            enabled: String::from_str("semtech_udp"),
            filters: Filters::default(),
            gateway_id: String::new(),
            semtech_udp: SemtechUdp::default(),
            concentratord: Concentratord::default(),
        }
    }
}

/// Static metadata, and commands whose output adds metadata.
pub struct Metadata {
    pub static_values: HashMap<String, String>,
    pub commands: HashMap<String, Vec<String>>,
    /// Separates key and value in the output of a metadata command.
    pub split_delimiter: String,
}

/// `v` holds the default `Metadata` settings.
pub open spec fn default_metadata(v: Metadata) -> bool {
    &&& v.static_values@ == Map::<String, String>::empty()
    &&& v.commands@ == Map::<String, Vec<String>>::empty()
    &&& v.split_delimiter@ == "="@
}

impl Default for Metadata {
    fn default() -> (res: Self)
        ensures
            default_metadata(res),
    {
        Metadata {
            static_values: HashMap::new(),
            commands: HashMap::new(),
            split_delimiter: String::from_str("="),
        }
    }
}

/// Commands run on MQTT connection events.
pub struct Callbacks {
    pub on_mqtt_connected: Vec<String>,
    pub on_mqtt_connection_error: Vec<String>,
}

/// `v` holds the default `Callbacks` settings.
pub open spec fn default_callbacks(v: Callbacks) -> bool {
    &&& v.on_mqtt_connected@.len() == 0
    &&& v.on_mqtt_connection_error@.len() == 0
}

impl Default for Callbacks {
    fn default() -> (res: Self)
        ensures
            default_callbacks(res),
    {
        Callbacks { on_mqtt_connected: Vec::new(), on_mqtt_connection_error: Vec::new() }
    }
}

pub struct Gateway {
    pub gateway_id: Option<String>,
}

/// `v` holds the default `Gateway` settings.
pub open spec fn default_gateway(v: Gateway) -> bool {
    &&& v.gateway_id is None
}

impl Default for Gateway {
    fn default() -> (res: Self)
        ensures
            default_gateway(res),
    {
        Gateway { gateway_id: None }
    }
}

/// The whole configuration.
pub struct Configuration {
    pub logging: Logging,
    pub mqtt: Mqtt,
    pub backend: Backend,
    pub metadata: Metadata,
    /// Commands that a gateway command request can run: the program and its arguments.
    pub commands: HashMap<String, Vec<String>>,
    pub callbacks: Callbacks,
    pub gateway: Gateway,
}

impl Default for Configuration {
    fn default() -> (res: Self)
        ensures
            default_logging(res.logging),
            default_mqtt(res.mqtt),
            default_backend(res.backend),
            default_metadata(res.metadata),
            res.commands@ == Map::<String, Vec<String>>::empty(),
            default_callbacks(res.callbacks),
            default_gateway(res.gateway),
    {
        Configuration {
            logging: Logging::default(),
            mqtt: Mqtt::default(),
            backend: Backend::default(),
            metadata: Metadata::default(),
            commands: HashMap::new(),
            callbacks: Callbacks::default(),
            gateway: Gateway::default(),
        }
    }
}

/// The configuration text with `$NAME` replaced by `value`, for each `(NAME,
/// value)` of `vars` in turn (the first `n` of them).
pub open spec fn substitute_vars(content: Seq<char>, vars: Seq<(String, String)>, n: int) -> Seq<char>
    decreases n,
{
    if n <= 0 || n > vars.len() {
        content
    } else {
        crate::text::replace_from(
            substitute_vars(content, vars, n - 1),
            "$"@ + vars[n - 1].0@,
            vars[n - 1].1@,
            0,
        )
    }
}

/// Replaces `$NAME` in the configuration text by the value of each variable in
/// turn: a later variable also applies to what an earlier one put in.
pub fn substitute_env(content: &str, vars: &[(String, String)]) -> (res: String)
    ensures
        res@ == substitute_vars(content@, vars@, vars@.len() as int),
{
    let mut text = crate::text::chars_of(content);
    let mut i: usize = 0;
    while i < vars.len()
        invariant
            i <= vars.len(),
            text@ == substitute_vars(content@, vars@, i as int),
        decreases vars.len() - i,
    {
        let mut pattern = crate::text::chars_of("$");
        let name = crate::text::chars_of(vars[i].0.as_str());
        let value = crate::text::chars_of(vars[i].1.as_str());
        let mut k: usize = 0;
        let ghost dollar = pattern@;
        while k < name.len()
            invariant
                k <= name.len(),
                pattern@ == dollar + name@.take(k as int),
            decreases name.len() - k,
        {
            pattern.push(name[k]);
            assert(name@.take(k + 1) == name@.take(k as int).push(name@[k as int]));
            k = k + 1;
        }
        proof {
            reveal_strlit("$");
            assert(name@.take(k as int) == name@);
        }
        text = crate::text::replace_all(text.as_slice(), pattern.as_slice(), value.as_slice());
        i = i + 1;
    }
    crate::text::string_from_chars(text.as_slice())
}

} // verus!
