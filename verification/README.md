# rmqtt

A small MQTT 3.1.1 client whose packet encoding and session bookkeeping
carry machine-checked contracts.

- `src/mqtt.rs`: control packets, their constructors and byte encodings
  (string fields, the remaining-length format, the CONNECT packet built from
  its fields), with the round trip of the remaining-length encoding proved.
- `src/builder.rs`: `MqttSessionBuilder`, the CONNECT it describes, and the
  CONNACK decision.
- `src/session.rs`: the session's bookkeeping: packet identifiers, pending
  publications, subscriptions and unsubscriptions, received messages, the
  packets that publish, subscribe and unsubscribe send, and what each packet
  from the broker does to them and what it is answered with.
- `src/clock.rs`: deadlines and keep-alive decisions over the wall clock, read
  through the `time` crate.
- `app/`: the TCP connection and the blocking waits, driving the library.
