//! Domain logic of a manufacturing execution system: lifecycles, the machine
//! state engine, downtime analytics, quality and maintenance rules, barcode
//! and sync framing, diagnostics redaction, and the agent front-door decisions.

pub mod text;
pub mod agent;
pub mod analytics;
pub mod api;
pub mod barcode;
pub mod client;
pub mod cmms;
pub mod decimal;
pub mod diagnostics;
pub mod dnc;
pub mod hex;
pub mod id;
pub mod json;
pub mod planned_overlay;
pub mod qms;
pub mod redact;
pub mod repo;
pub mod roles;
pub mod sort;
pub mod shifts;
pub mod state_machine;
pub mod sync;
pub mod work_order;
