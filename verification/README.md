# switcher

A BLE relay dongle and the hub that bridges it, with the logic verified by Verus.

`src/` is the verified library:

- `protocol` — the wire format of commands, relay states, health and identity payloads, with encode/decode round-trip lemmas.
- `firmware` — the relay state machine that runs on the dongle.
- `gatt` — what each GATT characteristic reads and accepts, and how the dongle answers BLE requests.
- `board` — the dongle's id, advertised name, pin polarities and how REGOUT0 is brought to 3.0 V.
- `device_id` — device ids as sixteen lowercase hexadecimal characters.
- `text` — character-level facts about the standard string operations used.
- `ble` — hub-side payload decoding, address normalisation, dongle recognition and the choice of which peripheral to connect to, an in-memory dongle.
- `bridge` — the hub's status for one dongle and how events update it.
- `persistence` — what the hub remembers between runs, kept in device-id order.
- `config` — the registered dongles, the rules that make a configuration valid, and why normalising twice changes nothing.
- `matter` — the Matter node layout (endpoints, device types, clusters) and request routing.

`app/` is the hub program: JSON files, async BLE clients, bridges and the persistence task.
