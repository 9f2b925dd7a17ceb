# yeelight_miio

A verified core for talking to Yeelight lamps over the Xiaomi miIO protocol.

- `src/` is the library, checked by Verus:
  - `types` – requests, results and errors;
  - `text` – the standard-library text operations the protocol uses, with their contracts;
  - `crypto` – token parsing, MD5 key derivation, AES-128-CBC sealing and opening of payloads;
  - `protocol` – packet framing, the hello packet and its reply, address splitting, and the
    hello handshake as a state machine;
  - `network` – the decisions of the diagnostics probes and of the broadcast scan;
  - `commands` – a command session: payload, encrypted packet, reading the answer.
- `app/` is the unverified shell: sockets, timeouts and the handlers the frontend calls.
  It drives the library's state machines and converts to and from serialisable types.
- `tests/` exercise the library on concrete values.
