//! Audit of PX4 flight-controller parameters against their firmware, airframe and VOXL baselines.
//!
//! - Texts and numbers: [`text`], [`numeral`], [`natural`], [`binary`], [`literal`], [`ieee`],
//!   [`table`].
//! - Parameter values and their encodings: [`param`], [`encoding`], [`echo`].
//! - What is documented of parameters: [`model`], [`detail`], [`csource`], [`yaml`], [`firmware`].
//! - Baselines: [`baseline`], [`airframe`], [`source`], [`voxl`], [`voxl_stack`], [`discovery`].
//! - The device: [`connect`], [`serial`], [`frame`], [`vehicle`], [`request`], [`collect`],
//!   [`collector`].
//! - The audit and its writes: [`args`], [`run`], [`audit`], [`plan`], [`confirm`], [`apply`].
//! - The terminal: [`tui`], [`session`], [`screen`], [`draw`], [`output`].
//!
//! What holds of them:
//!
//! - Of texts and numbers: [`text_laws`], [`param_laws`].
//! - Of what is read: [`csource_laws`], [`yaml_laws`], [`airframe_laws`], [`voxl_laws`],
//!   [`reading_laws`].
//! - Of the device and the way to it: [`link_laws`], [`device_laws`].
//! - Of audits, writes and their course: [`audit_laws`], [`write_laws`], [`cycle_laws`],
//!   [`operation_laws`].
//! - Of what is shown and said: [`tui_laws`], [`key_laws`], [`screen_laws`], [`report_laws`].

pub mod airframe;
pub mod airframe_laws;
pub mod apply;
pub mod args;
pub mod audit;
pub mod audit_laws;
pub mod baseline;
pub mod binary;
pub mod collect;
pub mod collector;
pub mod confirm;
pub mod connect;
pub mod csource;
pub mod csource_laws;
pub mod cycle_laws;
pub mod detail;
pub mod device_laws;
pub mod discovery;
pub mod draw;
pub mod echo;
pub mod encoding;
pub mod firmware;
pub mod frame;
pub mod ieee;
pub mod key_laws;
pub mod link_laws;
pub mod literal;
pub mod model;
pub mod natural;
pub mod numeral;
pub mod operation_laws;
pub mod output;
pub mod param;
pub mod param_laws;
pub mod plan;
pub mod reading_laws;
pub mod report_laws;
pub mod request;
pub mod run;
pub mod screen;
pub mod screen_laws;
pub mod serial;
pub mod session;
pub mod source;
pub mod table;
pub mod text;
pub mod text_laws;
pub mod tui;
pub mod tui_laws;
pub mod vehicle;
pub mod voxl;
pub mod voxl_laws;
pub mod voxl_stack;
pub mod write_laws;
pub mod yaml;
pub mod yaml_laws;
