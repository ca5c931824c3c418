# ChirpStack MQTT Forwarder

Forwards the traffic of a LoRa gateway, reached through a Semtech UDP packet
forwarder or a ChirpStack Concentratord, to an MQTT broker.

The forwarding logic is a library verified with Verus:

- `src/backend/semtech_udp/structs.rs`: the Semtech UDP datagrams (PUSH_DATA,
  PUSH_ACK, PULL_DATA, PULL_ACK, PULL_RESP, TX_ACK), the text forms of the
  radio parameters, and the conversions between received/transmitted packets
  and gateway messages.
- `src/backend/semtech_udp/mod.rs`: the forwarder state (gateway id, pull
  address, downlink cache, traffic counters) and the decisions taken on each
  datagram.
- `src/backend/concentratord.rs`: which Concentratord uplinks are forwarded.
- `src/mqtt.rs`: topics and the MQTT client settings.
- `src/commands.rs`, `src/metadata.rs`, `src/config.rs`: gateway commands,
  metadata command output, configuration defaults.
- `src/gw.rs`: the gateway messages as plain values; `src/text.rs`: text helpers.

`app/` holds the program around it: sockets, MQTT client, processes, JSON and
protobuf encoding.
