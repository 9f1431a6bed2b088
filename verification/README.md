# aqua

An MQTT broker library with its contracts proved by Verus, and the broker
program around it.

- `src/mqtt_coder/` — the packet codec of MQTT 3.1.1 / 5.0: the fixed header,
  CONNECT and PUBLISH decoding, CONNACK encoding, the variable byte integer,
  and the streaming decoder that reads a packet section by section.
- `src/mqtt_decoder/` and `src/mqtt.rs` — two more CONNECT parsers that read
  a whole packet from the start of a buffer; their refusals carry the text
  that the broker reports.
- `src/aqua/` — the broker: the decisions of a connection's poll loop, the
  acknowledgements of PUBLISH and SUBSCRIBE, the retained-message store with
  its topic-filter matching, and the session bookkeeping (writer queues,
  client identifiers, packets in flight).
- `src/text.rs` — numbers written out in decimal and hexadecimal for those
  texts.
- `src/buffers.rs`, `src/concurrent_maps.rs` — the byte buffers of `bytes`
  and the concurrent map of `dashmap` as the verified code sees them.
- `app/` — the program: the TCP accept loop, the connection tasks, the tower
  services, and copies of the error types that carry `Display`.
- `tests/` — the packet scenarios and unit tests of the library.
