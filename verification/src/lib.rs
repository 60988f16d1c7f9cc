//! Reconstruction of Bluetooth device, link and profile lifecycles from a
//! decoded, chronologically ordered controller log.
//!
//! Every executable function is total and carries a contract that equates
//! its effect with a specification function over the mathematical view of
//! the data it touches. The invariants of the analysis state are proved
//! once, over those views.

pub mod text;
pub mod types;
pub mod address;
pub mod time;
pub mod gap;
pub mod profile;
pub mod acl;
pub mod device;
pub mod packet;
pub mod rule;
pub mod acl_laws;
pub mod device_laws;
pub mod rule_laws;
pub mod link_laws;
pub mod report;
pub mod order;
pub mod group;
pub mod stack;
