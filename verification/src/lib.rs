//! Handheld power daemon: the decisions behind TDP, cooling, GPU-clock and
//! battery control on handheld PCs, as verified functions on plain values.

pub mod actions;
pub mod asus;
pub mod backend;
pub mod boot;
pub mod calls;
pub mod charge;
pub mod cli;
pub mod commands;
pub mod config;
pub mod conflicts;
pub mod consistency;
pub mod doctor;
pub mod effect;
pub mod error;
pub mod executor;
pub mod fan;
pub mod fan_curve;
pub mod fix;
pub mod gpu_clock;
pub mod inference;
pub mod invariants;
pub mod journal;
pub mod laws;
pub mod lenovo;
pub mod netlink;
pub mod persistence;
pub mod platform_profile;
pub mod polkit;
pub mod power;
pub mod ppd_shim;
pub mod probe;
pub mod profile;
pub mod promises;
pub mod readings;
pub mod reducer;
pub mod request;
pub mod run;
pub mod service;
pub mod single;
pub mod state;
pub mod suspend;
pub mod sysfs;
pub mod telemetry;
pub mod text;
pub mod thermal;
pub mod transition;
pub mod units;
pub mod valve;
