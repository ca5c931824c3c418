//! MQTT topics of a gateway and the decisions of the MQTT client setup.
use vstd::prelude::*;

use crate::text::{chars_of, index_of_char, lemma_index_of_char, lemma_split_append, split_char, split_on};

verus! {

/// `prefix + "gateway/" + gateway_id + "/state/" + state`.
pub open spec fn state_topic(prefix: Seq<char>, gateway_id: Seq<char>, state: Seq<char>) -> Seq<char> {
    prefix + "gateway/"@ + gateway_id + "/state/"@ + state
}

pub open spec fn event_topic(prefix: Seq<char>, gateway_id: Seq<char>, event: Seq<char>) -> Seq<char> {
    prefix + "gateway/"@ + gateway_id + "/event/"@ + event
}

pub open spec fn command_topic(prefix: Seq<char>, gateway_id: Seq<char>, command: Seq<char>) -> Seq<char> {
    prefix + "gateway/"@ + gateway_id + "/command/"@ + command
}

/// Topic of a gateway state (e.g. `conn`).
pub fn get_state_topic(prefix: &str, gateway_id: &str, state: &str) -> (res: String)
    ensures
        res@ == state_topic(prefix@, gateway_id@, state@),
{
    let mut s = String::from_str(prefix);
    s.append("gateway/");
    s.append(gateway_id);
    s.append("/state/");
    s.append(state);
    s
}

/// Topic of a gateway event (e.g. `up`, `stats`, `ack`).
pub fn get_event_topic(prefix: &str, gateway_id: &str, event: &str) -> (res: String)
    ensures
        res@ == event_topic(prefix@, gateway_id@, event@),
{
    let mut s = String::from_str(prefix);
    s.append("gateway/");
    s.append(gateway_id);
    s.append("/event/");
    s.append(event);
    s
}

/// Topic of a gateway command (e.g. `down`, or `+` to subscribe to all).
pub fn get_command_topic(prefix: &str, gateway_id: &str, command: &str) -> (res: String)
    ensures
        res@ == command_topic(prefix@, gateway_id@, command@),
{
    let mut s = String::from_str(prefix);
    s.append("gateway/");
    s.append(gateway_id);
    s.append("/command/");
    s.append(command);
    s
}

/// The prefix that topics start with: empty, or the configured prefix and `/`.
pub fn topic_prefix(configured: &str) -> (res: String)
    ensures
        res@ == if configured@.len() == 0 {
            Seq::<char>::empty()
        } else {
            configured@ + "/"@
        },
{
    if configured.is_empty() {
        String::new()
    } else {
        let mut s = String::from_str(configured);
        s.append("/");
        s
    }
}

/// A command a gateway accepts on its command topics.
#[derive(Clone, Copy, PartialEq, Eq, Structural, Debug)]
pub enum Command {
    Down,
    Config,
    Exec,
}

pub open spec fn command_name(c: Command) -> Seq<char> {
    match c {
        Command::Down => "down"@,
        Command::Config => "config"@,
        Command::Exec => "exec"@,
    }
}

#[derive(Clone, PartialEq, Eq, Debug)]
pub enum TopicError {
    /// Fewer than four levels.
    TooFewLevels,
    /// The last level names no command.
    UnexpectedCommand(String),
}

/// What a command topic `.../[gateway id]/command/[command]` says: the gateway
/// id and the command, or why it says nothing.
pub open spec fn spec_parse_command_topic(topic: Seq<char>) -> Result<(Seq<char>, Command), Seq<char>> {
    let parts = split_char(topic, '/');
    if parts.len() < 4 {
        Err(Seq::empty())
    } else {
        let gateway_id = parts[parts.len() - 3];
        let command = parts[parts.len() - 1];
        if command == "down"@ {
            Ok((gateway_id, Command::Down))
        } else if command == "config"@ {
            Ok((gateway_id, Command::Config))
        } else if command == "exec"@ {
            Ok((gateway_id, Command::Exec))
        } else {
            Err(command)
        }
    }
}

/// Reads a command topic `.../[gateway id]/command/[command]`: the gateway id
/// (third level from the end) and the command (last level).
pub fn parse_command_topic(topic: &str) -> (res: Result<(String, Command), TopicError>)
    ensures
        match spec_parse_command_topic(topic@) {
            Ok((g, c)) => res matches Ok(r) && r.0@ == g && r.1 == c,
            Err(cmd) => match res {
                Err(TopicError::TooFewLevels) => split_char(topic@, '/').len() < 4,
                Err(TopicError::UnexpectedCommand(s)) => split_char(topic@, '/').len() >= 4 && s@
                    == cmd,
                _ => false,
            },
        },
{
    let v = chars_of(topic);
    let parts = split_on(v.as_slice(), '/');
    let n = parts.len();
    if n < 4 {
        return Err(TopicError::TooFewLevels);
    }
    let gateway_id = crate::text::string_from_chars(parts[n - 3].as_slice());
    let command = parts[n - 1].as_slice();
    if crate::text::chars_eq(command, "down") {
        Ok((gateway_id, Command::Down))
    } else if crate::text::chars_eq(command, "config") {
        Ok((gateway_id, Command::Config))
    } else if crate::text::chars_eq(command, "exec") {
        Ok((gateway_id, Command::Exec))
    } else {
        Err(TopicError::UnexpectedCommand(crate::text::string_from_chars(command)))
    }
}

/// A command sent on a gateway's command topic is read back with that gateway's id
/// and that command, when the id has no `/`.
pub proof fn command_topic_roundtrip(prefix: Seq<char>, gateway_id: Seq<char>, c: Command)
    requires
        !gateway_id.contains('/'),
    ensures
        spec_parse_command_topic(command_topic(prefix, gateway_id, command_name(c))) == Ok::<
            (Seq<char>, Command),
            Seq<char>,
        >((gateway_id, c)),
{
    reveal_strlit("gateway/");
    reveal_strlit("/command/");
    reveal_strlit("down");
    reveal_strlit("config");
    reveal_strlit("exec");
    reveal_strlit("command");
    reveal_strlit("gateway");
    let name = command_name(c);
    assert(!name.contains('/')) by {
        if name.contains('/') {
            let k = choose|k: int| 0 <= k < name.len() && name[k] == '/';
        }
    }
    assert(!"command"@.contains('/')) by {
        if "command"@.contains('/') {
            let k = choose|k: int| 0 <= k < "command"@.len() && "command"@[k] == '/';
        }
    }
    let a = prefix + "gateway"@;
    let y = a + seq!['/'] + gateway_id;
    let x = y + seq!['/'] + "command"@;
    let t = x + seq!['/'] + name;
    assert(t =~= command_topic(prefix, gateway_id, name));
    lemma_split_append(x, name, '/');
    lemma_split_append(y, "command"@, '/');
    lemma_split_append(a, gateway_id, '/');
    assert(split_char(a, '/').len() >= 1) by {
        if index_of_char(a, '/') is None {
        } else {
            lemma_index_of_char(a, '/');
        }
    }
    let parts = split_char(t, '/');
    assert(parts == split_char(a, '/').push(gateway_id).push("command"@).push(name));
    assert(parts[parts.len() - 3] == gateway_id);
    assert(parts[parts.len() - 1] == name);
    assert("down"@.len() == 4 && "config"@.len() == 6 && "exec"@.len() == 4);
    assert("down"@[0] == 'd' && "exec"@[0] == 'e');
}


/// The gateway id of a command payload differs from the one in its topic.
#[derive(Clone, Copy, PartialEq, Eq, Structural, Debug)]
pub struct GatewayIdMismatch;

/// A command is only carried out for the gateway its topic names.
pub fn check_command_gateway_id(payload_gateway_id: &str, topic_gateway_id: &str) -> (res: Result<
    (),
    GatewayIdMismatch,
>)
    ensures
        res is Ok <==> payload_gateway_id@ == topic_gateway_id@,
{
    let p = chars_of(payload_gateway_id);
    if crate::text::chars_eq(p.as_slice(), topic_gateway_id) {
        Ok(())
    } else {
        Err(GatewayIdMismatch)
    }
}

/// What the MQTT event loop observed.
#[derive(Clone, Copy, PartialEq, Eq, Structural, Debug)]
pub enum ClientEvent {
    /// A message was published to a subscribed topic.
    Publish,
    /// The broker answered a connection attempt.
    ConnAck { success: bool },
    /// Any other packet.
    Other,
    /// Polling the connection failed.
    Error,
}

/// What the MQTT event loop does next.
#[derive(Clone, Copy, PartialEq, Eq, Structural, Debug)]
pub enum ClientAction {
    /// Handle the message in a task of its own.
    HandleMessage,
    /// Run the on-connected callback, then (re)subscribe and publish the online state.
    Connected,
    /// Wait the reconnect interval.
    WaitReconnect,
    /// Run the connection-error callback, then wait the reconnect interval.
    ConnectionError,
    Nothing,
}

pub fn client_action(event: ClientEvent) -> (res: ClientAction)
    ensures
        res == match event {
            ClientEvent::Publish => ClientAction::HandleMessage,
            ClientEvent::ConnAck { success } => if success {
                ClientAction::Connected
            } else {
                ClientAction::WaitReconnect
            },
            ClientEvent::Other => ClientAction::Nothing,
            ClientEvent::Error => ClientAction::ConnectionError,
        },
{
    match event {
        ClientEvent::Publish => ClientAction::HandleMessage,
        ClientEvent::ConnAck { success } => if success {
            ClientAction::Connected
        } else {
            ClientAction::WaitReconnect
        },
        ClientEvent::Other => ClientAction::Nothing,
        ClientEvent::Error => ClientAction::ConnectionError,
    }
}

/// MQTT quality of service.
#[derive(Clone, Copy, PartialEq, Eq, Structural, Debug)]
pub enum QoS {
    AtMostOnce,
    AtLeastOnce,
    ExactlyOnce,
}

/// Why the MQTT client cannot be set up from the configuration.
#[derive(Clone, PartialEq, Eq, Debug)]
pub enum SetupError {
    InvalidQos(u8),
    /// The server is not a URL.
    InvalidUrl,
    InvalidScheme(String),
    /// TLS settings are given, but the transport is neither TLS nor secure websockets.
    TlsNotSupported,
}

/// The quality of service of a configured level: 0, 1 or 2.
pub fn qos_from_level(level: u8) -> (res: Result<QoS, SetupError>)
    ensures
        level == 0 ==> res == Ok::<QoS, SetupError>(QoS::AtMostOnce),
        level == 1 ==> res == Ok::<QoS, SetupError>(QoS::AtLeastOnce),
        level == 2 ==> res == Ok::<QoS, SetupError>(QoS::ExactlyOnce),
        level > 2 ==> res == Err::<QoS, SetupError>(SetupError::InvalidQos(level)),
{
    if level == 0 {
        Ok(QoS::AtMostOnce)
    } else if level == 1 {
        Ok(QoS::AtLeastOnce)
    } else if level == 2 {
        Ok(QoS::ExactlyOnce)
    } else {
        Err(SetupError::InvalidQos(level))
    }
}

/// The client id: the configured one, or the gateway id when none is configured.
pub fn client_id(configured: &str, gateway_id: &str) -> (res: String)
    ensures
        res@ == if configured@.len() == 0 {
            gateway_id@
        } else {
            configured@
        },
{
    if configured.is_empty() {
        String::from_str(gateway_id)
    } else {
        String::from_str(configured)
    }
}

/// The credentials to log in with: only when a user name or a password is configured.
pub fn credentials(username: &str, password: &str) -> (res: Option<(String, String)>)
    ensures
        match res {
            Some((u, p)) => (username@.len() != 0 || password@.len() != 0) && u@ == username@
                && p@ == password@,
            None => username@.len() == 0 && password@.len() == 0,
        },
{
    if !username.is_empty() || !password.is_empty() {
        Some((String::from_str(username), String::from_str(password)))
    } else {
        None
    }
}

/// The TLS files to load: a CA certificate file, and whether the client
/// authenticates with a certificate and key.
pub struct TlsSettings {
    pub ca_cert: Option<String>,
    pub client_auth: bool,
}

/// TLS is configured when any of the CA certificate, client certificate or key
/// is; the client authenticates unless both certificate and key are empty.
pub fn tls_settings(ca_cert: &str, tls_cert: &str, tls_key: &str) -> (res: Option<TlsSettings>)
    ensures
        match res {
            None => ca_cert@.len() == 0 && tls_cert@.len() == 0 && tls_key@.len() == 0,
            Some(t) => {
                &&& (ca_cert@.len() != 0 || tls_cert@.len() != 0 || tls_key@.len() != 0)
                &&& (match t.ca_cert {
                    Some(c) => ca_cert@.len() != 0 && c@ == ca_cert@,
                    None => ca_cert@.len() == 0,
                })
                &&& t.client_auth == !(tls_cert@.len() == 0 && tls_key@.len() == 0)
            },
        },
{
    if ca_cert.is_empty() && tls_cert.is_empty() && tls_key.is_empty() {
        return None;
    }
    Some(
        TlsSettings {
            ca_cert: if ca_cert.is_empty() {
                None
            } else {
                Some(String::from_str(ca_cert))
            },
            client_auth: !(tls_cert.is_empty() && tls_key.is_empty()),
        },
    )
}

/// How the client reaches the server.
#[derive(Clone, Copy, PartialEq, Eq, Structural, Debug)]
pub enum Transport {
    Tcp,
    Tls,
    Ws,
    Wss,
}

/// The transport once TLS settings are applied: TLS and secure websockets only.
pub fn tls_transport(t: Transport) -> (res: Result<Transport, SetupError>)
    ensures
        (t == Transport::Tls || t == Transport::Wss) ==> res == Ok::<Transport, SetupError>(t),
        (t == Transport::Tcp || t == Transport::Ws) ==> res == Err::<Transport, SetupError>(
            SetupError::TlsNotSupported,
        ),
{
    match t {
        Transport::Tls => Ok(Transport::Tls),
        Transport::Wss => Ok(Transport::Wss),
        _ => Err(SetupError::TlsNotSupported),
    }
}

/// Scheme, host and explicit (non-default) port of a URL.
pub struct ServerUrl {
    pub scheme: String,
    pub host: Option<String>,
    pub port: Option<u16>,
}

/// What `url::Url::parse` makes of a server text: its scheme, host and explicit
/// port, or nothing when it is no URL.
pub uninterp spec fn url_parts(server: Seq<char>) -> Option<(Seq<char>, Option<Seq<char>>, Option<u16>)>;

/// Parses the server URL with `url::Url::parse` and reads `scheme`, `host_str`
/// and `port` of the result. Claims only that the result is `url_parts` of the
/// text, a function of the text alone.
#[verifier::external_body]
fn parse_server_url(server: &str) -> (res: Option<ServerUrl>)
    ensures
        match res {
            Some(u) => url_parts(server@) == Some(
                (
                    u.scheme@,
                    match u.host {
                        Some(h) => Some(h@),
                        None => None::<Seq<char>>,
                    },
                    u.port,
                ),
            ),
            None => url_parts(server@) is None,
        },
{
    match url::Url::parse(server) {
        Ok(u) => Some(
            ServerUrl {
                scheme: u.scheme().to_string(),
                host: u.host_str().map(|h| h.to_string()),
                port: u.port(),
            },
        ),
        Err(_) => None,
    }
}

/// Where and how to connect.
pub struct Endpoint {
    pub transport: Transport,
    pub host: String,
    pub port: u16,
}

/// The endpoint for a parsed server URL: `mqtt`/`tcp` (port 1883) and
/// `mqtts`/`ssl` (8883) connect to the URL's host; `ws` (80) and `wss` (443)
/// pass the whole server text as the host.
pub open spec fn spec_endpoint(
    server: Seq<char>,
    scheme: Seq<char>,
    host: Option<Seq<char>>,
    port: Option<u16>,
) -> Option<(Transport, Seq<char>, u16)> {
    let h = match host {
        Some(h) => h,
        None => Seq::<char>::empty(),
    };
    let p = |d: u16|
        match port {
            Some(p) => p,
            None => d,
        };
    if scheme == "mqtt"@ || scheme == "tcp"@ {
        Some((Transport::Tcp, h, p(1883)))
    } else if scheme == "mqtts"@ || scheme == "ssl"@ {
        Some((Transport::Tls, h, p(8883)))
    } else if scheme == "ws"@ {
        Some((Transport::Ws, server, p(80)))
    } else if scheme == "wss"@ {
        Some((Transport::Wss, server, p(443)))
    } else {
        None
    }
}

/// The endpoint for a server whose URL has been parsed into `url`.
pub fn endpoint_for(server: &str, url: &ServerUrl) -> (res: Result<Endpoint, SetupError>)
    ensures
        match spec_endpoint(
            server@,
            url.scheme@,
            match url.host {
                Some(h) => Some(h@),
                None => None::<Seq<char>>,
            },
            url.port,
        ) {
            Some((t, h, p)) => res matches Ok(e) && e.transport == t && e.host@ == h && e.port == p,
            None => res matches Err(SetupError::InvalidScheme(s)) && s@ == url.scheme@,
        },
{
    let scheme = chars_of(url.scheme.as_str());
    let scheme = scheme.as_slice();
    let host = match &url.host {
        Some(h) => String::from_str(h.as_str()),
        None => String::new(),
    };
    let port = |d: u16| -> (r: u16)
        ensures
            r == match url.port {
                Some(p) => p,
                None => d,
            },
        {
            match url.port {
                Some(p) => p,
                None => d,
            }
        };
    if crate::text::chars_eq(scheme, "mqtt") || crate::text::chars_eq(scheme, "tcp") {
        Ok(Endpoint { transport: Transport::Tcp, host, port: port(1883) })
    } else if crate::text::chars_eq(scheme, "mqtts") || crate::text::chars_eq(scheme, "ssl") {
        Ok(Endpoint { transport: Transport::Tls, host, port: port(8883) })
    } else if crate::text::chars_eq(scheme, "ws") {
        Ok(Endpoint { transport: Transport::Ws, host: String::from_str(server), port: port(80) })
    } else if crate::text::chars_eq(scheme, "wss") {
        Ok(Endpoint { transport: Transport::Wss, host: String::from_str(server), port: port(443) })
    } else {
        Err(SetupError::InvalidScheme(String::from_str(url.scheme.as_str())))
    }
}

/// The endpoint of the configured server URL.
pub fn server_endpoint(server: &str) -> (res: Result<Endpoint, SetupError>)
    ensures
        match url_parts(server@) {
            None => res == Err::<Endpoint, SetupError>(SetupError::InvalidUrl),
            Some((scheme, host, port)) => match spec_endpoint(server@, scheme, host, port) {
                Some((t, h, p)) => res matches Ok(e) && e.transport == t && e.host@ == h && e.port
                    == p,
                None => res matches Err(SetupError::InvalidScheme(s)) && s@ == scheme,
            },
        },
{
    match parse_server_url(server) {
        None => Err(SetupError::InvalidUrl),
        Some(u) => endpoint_for(server, &u),
    }
}

/// `mqtts` and `ssl` name the same endpoint: TLS to the URL's host, on the URL's
/// port or else 8883; `mqtt` and `tcp` likewise give plain TCP, on port 1883 by
/// default; `ws` and `wss` connect to the whole server text, on port 80 and 443
/// by default.
pub proof fn scheme_endpoints(server: Seq<char>, host: Option<Seq<char>>, port: Option<u16>)
    ensures
        ({
            let h = match host {
                Some(h) => h,
                None => Seq::<char>::empty(),
            };
            let p = |d: u16|
                match port {
                    Some(x) => x,
                    None => d,
                };
            &&& spec_endpoint(server, "mqtts"@, host, port) == spec_endpoint(server, "ssl"@, host, port)
            &&& spec_endpoint(server, "ssl"@, host, port) == Some((Transport::Tls, h, p(8883)))
            &&& spec_endpoint(server, "mqtt"@, host, port) == spec_endpoint(server, "tcp"@, host, port)
            &&& spec_endpoint(server, "tcp"@, host, port) == Some((Transport::Tcp, h, p(1883)))
            &&& spec_endpoint(server, "ws"@, host, port) == Some((Transport::Ws, server, p(80)))
            &&& spec_endpoint(server, "wss"@, host, port) == Some((Transport::Wss, server, p(443)))
        }),
{
    reveal_strlit("mqtt");
    reveal_strlit("tcp");
    reveal_strlit("mqtts");
    reveal_strlit("ssl");
    reveal_strlit("ws");
    reveal_strlit("wss");
    assert("mqtt"@.len() == 4 && "tcp"@.len() == 3 && "mqtts"@.len() == 5 && "ssl"@.len() == 3);
    assert("ws"@.len() == 2 && "wss"@.len() == 3);
    assert("mqtt"@[0] == 'm' && "tcp"@[0] == 't' && "ssl"@[0] == 's' && "wss"@[0] == 'w');
    assert("mqtts"@[0] == 'm' && "ws"@[0] == 'w');
}

} // verus!
