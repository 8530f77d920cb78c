# krc20

KRC-20 token inscriptions on Kaspa, verified with Verus.

- `src/` is the verified library: operation types and payloads (`optypes`, `operations`),
  the script decoder and the inscription scan (`script`, `detect`), the inscription
  envelope and text escaping (`envelope`), commit and reveal transactions over plain
  transaction data (`transactions`), and the proof that an enveloped inscription is read
  back by the scan (`round_trip`).
- `tests/` runs the library on concrete values.
- `app/` holds the JSON form of the payloads (serde), detection on kaspa transaction types,
  the conversions to kaspa's transaction types and the demo program.
