//! Decision core of a durable trading-state store.

pub mod text;
pub mod error;
pub mod json;
pub mod domain;
pub mod model;
pub mod numbers;
pub mod deliveries;
pub mod sessions;
pub mod selection;
pub mod columns;
pub mod attempts;
pub mod trading;
pub mod plans;
pub mod lifecycle;
pub mod risk;
pub mod commands;
pub mod workflow;
pub mod workflow_records;
pub mod wire;
pub mod core_events;
pub mod circuit_breaker;
pub mod snapshots;
pub mod reconciliation;
pub mod reconciliation_rows;
pub mod latest;
pub mod checkpoint;
pub mod projection;
pub mod rebuild;
pub mod convergence;
pub mod integrity;
pub mod evidence;
pub mod ingest;
pub mod event_stream;
pub mod transport_events;
pub mod listing;
pub mod options;
pub mod migrations;
pub mod control_plane;
pub mod outbound_work;
pub mod inbound_durability;
pub mod risk_capacity;
pub mod transaction_snapshot;
pub mod risk_snapshot;
pub mod latest_state;
pub mod readback;
