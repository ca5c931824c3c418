use chirpstack_mqtt_forwarder::mqtt::{
    check_command_gateway_id, client_action, client_id, credentials, get_command_topic,
    get_event_topic, get_state_topic, parse_command_topic, qos_from_level, server_endpoint,
    tls_settings, tls_transport, topic_prefix, ClientAction, ClientEvent, Command,
    GatewayIdMismatch, QoS, SetupError, TopicError, Transport,
};

#[test]
fn topics_of_a_gateway() {
    let prefix = topic_prefix("eu868");
    assert_eq!(prefix, "eu868/");
    assert_eq!(
        get_state_topic(&prefix, "0102030405060708", "conn"),
        "eu868/gateway/0102030405060708/state/conn"
    );
    assert_eq!(
        get_event_topic(&prefix, "0102030405060708", "up"),
        "eu868/gateway/0102030405060708/event/up"
    );
    assert_eq!(
        get_command_topic(&prefix, "0102030405060708", "down"),
        "eu868/gateway/0102030405060708/command/down"
    );
    assert_eq!(get_event_topic(&topic_prefix(""), "01", "stats"), "gateway/01/event/stats");
}

#[test]
fn command_topics_are_read() {
    assert_eq!(
        parse_command_topic("eu868/gateway/0102030405060708/command/down"),
        Ok(("0102030405060708".to_string(), Command::Down))
    );
    assert_eq!(
        parse_command_topic("gateway/0102030405060708/command/config"),
        Ok(("0102030405060708".to_string(), Command::Config))
    );
    assert_eq!(
        parse_command_topic("gateway/0102030405060708/command/exec"),
        Ok(("0102030405060708".to_string(), Command::Exec))
    );
    assert_eq!(parse_command_topic("gateway/01/down"), Err(TopicError::TooFewLevels));
    assert_eq!(
        parse_command_topic("gateway/01/command/reboot"),
        Err(TopicError::UnexpectedCommand("reboot".to_string()))
    );
}

#[test]
fn command_must_name_this_gateway() {
    assert_eq!(check_command_gateway_id("0102030405060708", "0102030405060708"), Ok(()));
    assert_eq!(check_command_gateway_id("0102030405060709", "0102030405060708"), Err(GatewayIdMismatch));
}

#[test]
fn client_settings() {
    assert_eq!(qos_from_level(0), Ok(QoS::AtMostOnce));
    assert_eq!(qos_from_level(1), Ok(QoS::AtLeastOnce));
    assert_eq!(qos_from_level(2), Ok(QoS::ExactlyOnce));
    assert_eq!(qos_from_level(3), Err(SetupError::InvalidQos(3)));
    assert_eq!(client_id("", "0102030405060708"), "0102030405060708");
    assert_eq!(client_id("my-client", "0102030405060708"), "my-client");
    assert_eq!(credentials("", ""), None);
    assert_eq!(credentials("user", ""), Some(("user".to_string(), String::new())));
}

#[test]
fn tls_is_configured_by_any_file() {
    assert!(tls_settings("", "", "").is_none());
    let t = tls_settings("/ca.pem", "", "").unwrap();
    assert_eq!(t.ca_cert, Some("/ca.pem".to_string()));
    assert!(!t.client_auth);
    let t = tls_settings("", "/cert.pem", "/key.pem").unwrap();
    assert_eq!(t.ca_cert, None);
    assert!(t.client_auth);
    assert_eq!(tls_transport(Transport::Tls), Ok(Transport::Tls));
    assert_eq!(tls_transport(Transport::Wss), Ok(Transport::Wss));
    assert_eq!(tls_transport(Transport::Tcp), Err(SetupError::TlsNotSupported));
}

#[test]
fn server_urls() {
    let e = server_endpoint("tcp://127.0.0.1:1883").unwrap();
    assert_eq!((e.transport, e.host.as_str(), e.port), (Transport::Tcp, "127.0.0.1", 1883));
    let e = server_endpoint("mqtt://broker").unwrap();
    assert_eq!((e.transport, e.host.as_str(), e.port), (Transport::Tcp, "broker", 1883));
    let e = server_endpoint("ssl://broker").unwrap();
    assert_eq!((e.transport, e.host.as_str(), e.port), (Transport::Tls, "broker", 8883));
    let e = server_endpoint("mqtts://broker:1884").unwrap();
    assert_eq!((e.transport, e.host.as_str(), e.port), (Transport::Tls, "broker", 1884));
    let e = server_endpoint("ws://broker:8080/mqtt").unwrap();
    assert_eq!((e.transport, e.host.as_str(), e.port), (Transport::Ws, "ws://broker:8080/mqtt", 8080));
    let e = server_endpoint("wss://broker/mqtt").unwrap();
    assert_eq!((e.transport, e.host.as_str(), e.port), (Transport::Wss, "wss://broker/mqtt", 443));
    assert!(matches!(server_endpoint("broker"), Err(SetupError::InvalidUrl)));
    assert!(matches!(
        server_endpoint("http://broker"),
        Err(SetupError::InvalidScheme(s)) if s == "http"
    ));
}

#[test]
fn event_loop_decisions() {
    assert_eq!(client_action(ClientEvent::Publish), ClientAction::HandleMessage);
    assert_eq!(client_action(ClientEvent::ConnAck { success: true }), ClientAction::Connected);
    assert_eq!(client_action(ClientEvent::ConnAck { success: false }), ClientAction::WaitReconnect);
    assert_eq!(client_action(ClientEvent::Error), ClientAction::ConnectionError);
    assert_eq!(client_action(ClientEvent::Other), ClientAction::Nothing);
}
