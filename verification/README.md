# siege_tower_backend

Structural monitoring backend for a reconstructed Ming-dynasty siege tower,
with its decision and text logic written in Verus and proved against its
contracts.

- `src/` is the verified library: soil and alert vocabularies, the alert
  cooldown manager, sensor batch acceptance, FEM mesh topology, connection
  settings and MQTT topic names, ClickHouse request text, percent-encoding,
  moat recommendations and the preset towers. Each public function that
  computes something states its result in `ensures` (the constructors of
  the field-less analyzer handles have nothing to state); the laws the
  library keeps are public proof functions named `lemma_*`.
- `tests/` runs the library on concrete values.
- `app/` is the server around it: HTTP handlers, MQTT and ClickHouse I/O,
  Prometheus metrics, and the floating-point FEM, soil and stability
  analyses.

The clock (`chrono::Utc::now`), `str::to_lowercase` and `String::push` are
the only calls src/ trusts without proof; their contracts stand beside the
calls in `src/clock.rs`, `src/models.rs` and `src/text.rs`.
