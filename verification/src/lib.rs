//! Decision and text logic of the siege-tower structural monitoring
//! backend: soil and alert vocabularies, alert cooldown bookkeeping,
//! sensor batch checks, FEM mesh topology, configuration values and the
//! ClickHouse request text.
pub mod text;
pub mod models;
pub mod clock;
pub mod alerting;
pub mod batch;
pub mod mesh;
pub mod config;
pub mod clickhouse;
pub mod analyzers;
pub mod response;
pub mod presets;
