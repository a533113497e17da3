# espcap

WiFi/BLE capture for ESP32-S3 and ESP32-C5 boards, and the `espcap` CLI that
configures the firmware over USB serial and records its JSONL or framed PCAP
output.

`src/` is the library, verified with Verus:

- `types`, `mac`, `text`, `error`: radio and band settings, hop masks and hop
  sequences, MAC/OUI text, shared text helpers and errors.
- `wifi`, `ble`, `pcap`, `ring`, `dedup`: 802.11 and BLE advertising parsers,
  the serial framing and PCAP records, the capture queue and the MAC table.
- `filter`, `pattern`, `command`, `config`, `event`: filters, commands, the
  device configuration and how `set` changes it, and the event lines.
- `device`: what the firmware does with a command, a captured frame or an
  advertisement, and how its hop task and receive path step.
- `host`: the CLI's options, OUI list, status checks, reply waits and output
  splitting.

`app/` is the CLI program: argument parsing, the JSON wire format (serde),
serial I/O and files. `tests/` exercises the library.
