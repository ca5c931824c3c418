use chirpstack_mqtt_forwarder::config::{
    substitute_env, Backend, Callbacks, Concentratord, Filters, Gateway, Logging, Metadata, Mqtt,
    SemtechUdp,
};
use chirpstack_mqtt_forwarder::metadata::parse_command_output;

fn entries(v: &[(&str, &str)]) -> Vec<(String, String)> {
    v.iter().map(|(k, v)| (k.to_string(), v.to_string())).collect()
}

#[test]
fn single_line_without_delimiter_is_the_value() {
    assert_eq!(parse_command_output("hello", "hello world\n", "="), entries(&[("hello", "hello world")]));
}

#[test]
fn single_line_with_delimiter_is_a_prefixed_entry() {
    assert_eq!(parse_command_output("temp", " cpu = 42 \n", "="), entries(&[("temp_cpu", "42")]));
}

#[test]
fn multi_line_output_keeps_lines_with_delimiter() {
    assert_eq!(
        parse_command_output("sys", "a: 1\r\nno delimiter\nb:2\n", ":"),
        entries(&[("sys_a", "1"), ("sys_b", "2")])
    );
}

#[test]
fn empty_output_gives_nothing() {
    assert_eq!(parse_command_output("x", "", "="), entries(&[]));
}

#[test]
fn configuration_defaults() {
    let l = Logging::default();
    assert_eq!((l.level.as_str(), l.log_to_syslog), ("info", false));
    let m = Mqtt::default();
    assert_eq!(m.topic_prefix, "eu868");
    assert_eq!(m.server, "tcp://127.0.0.1:1883");
    assert_eq!(m.qos, 0);
    assert_eq!(m.keep_alive_interval, std::time::Duration::from_secs(30));
    assert_eq!(m.reconnect_interval, std::time::Duration::from_secs(1));
    let b = Backend::default();
    assert_eq!(b.enabled, "semtech_udp");
    assert_eq!(b.semtech_udp.bind, "0.0.0.0:1700");
    assert_eq!(b.concentratord.event_url, "ipc:///tmp/concentratord_event");
    assert_eq!(Concentratord::default().command_url, "ipc:///tmp/concentratord_command");
    assert!(!SemtechUdp::default().time_fallback_enabled);
    let f = Filters::default();
    assert!(f.forward_crc_ok && !f.forward_crc_invalid && !f.forward_crc_missing);
    let md = Metadata::default();
    assert!(md.static_values.is_empty() && md.commands.is_empty());
    assert_eq!(md.split_delimiter, "=");
    assert!(Callbacks::default().on_mqtt_connected.is_empty());
    assert!(Gateway::default().gateway_id.is_none());
}

#[test]
fn environment_variables_are_substituted() {
    let vars = vec![
        ("SERVER".to_string(), "tcp://broker:1883".to_string()),
        ("PREFIX".to_string(), "eu868".to_string()),
    ];
    assert_eq!(
        substitute_env("server=\"$SERVER\"\ntopic_prefix=\"$PREFIX\"\n", &vars),
        "server=\"tcp://broker:1883\"\ntopic_prefix=\"eu868\"\n"
    );
    assert_eq!(substitute_env("$PREFIX$PREFIX $OTHER", &vars), "eu868eu868 $OTHER");
    // A value may hold a later variable's name: it is replaced in turn.
    let chained = vec![("A".to_string(), "$B".to_string()), ("B".to_string(), "x".to_string())];
    assert_eq!(substitute_env("$A", &chained), "x");
}

#[test]
fn unicode_whitespace_is_trimmed() {
    assert_eq!(
        parse_command_output("name", "\u{a0}key\u{2003}=\u{3000}value\t\n", "="),
        entries(&[("name_key", "value")])
    );
}

#[test]
fn metadata_entries_in_insertion_order() {
    let static_values = entries(&[("foo", "bar")]);
    let command_entries = entries(&[("hello", "hello world"), ("foo", "baz")]);
    let all = chirpstack_mqtt_forwarder::metadata::metadata_entries(&static_values, "4.0.0", &command_entries);
    assert_eq!(
        all,
        entries(&[("foo", "bar"), ("mqtt_forwarder_version", "4.0.0"), ("hello", "hello world"), ("foo", "baz")])
    );
    let m: std::collections::HashMap<String, String> = all.into_iter().collect();
    assert_eq!(m.get("foo").map(|s| s.as_str()), Some("baz"));
}
