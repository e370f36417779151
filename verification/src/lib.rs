//! Hot-reload pipeline for a hierarchical rule-configuration document.
//!
//! The crate models a configuration document (groups of rule declarations
//! with strict scalar decoding), a polling watcher that republishes only
//! real changes, and a dispatcher that fans work out over the active rule
//! kinds of each published snapshot.

pub mod business_rule_error;
pub mod config;
pub mod configuration_service;
pub mod decode;
pub mod errors;
pub mod handlers;
pub mod rule_types;
pub mod rule_validation_error;
pub mod rule_validation_service;
pub mod scalars;
pub mod text;
pub mod xml;
