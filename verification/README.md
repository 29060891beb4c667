# hakoniwa_conductor

The Hakoniwa conductor coordinates a distributed Hakoniwa simulation: a
server next to the Hakoniwa core and clients on other machines, which
exchange PDU data over UDP or MQTT.

- `src/` is the verified library (Verus): the core's state and event codes
  (`api`), the PDU channel registry (`pdu`), decimal text and port parsing
  (`text`), the MQTT broker setting and topic names (`mqtt`), the UDP
  packet framing of PDU data (`udp`), the service's messages (`messages`),
  the server's answers (`server`), the client's configuration (`loader`)
  and the client's decisions (`client`).
- `app/` is the server program around it: bindings to the core's C
  library, the UDP and MQTT transport of PDU data and the master loop. It
  also holds the handlers of the service's requests and the client's
  start-up and cycles, written against the calls the client makes of the
  server; the gRPC code that would carry those calls is generated from the
  service's protocol definition, which this tree does not hold, so nothing
  serves or calls them yet.
- `tests/` runs the library on concrete values.
