//! Firmware logic of the ATOM VoiceS3R voice terminal.
//!
//! The device connects to one of its stored WiFi networks, or raises a setup portal
//! until it gets one. It listens for its wake words or the button, records a command,
//! sends it to a PC server and plays the spoken reply. This crate holds what is decided
//! and computed on the way; drivers and sockets are around it.
//!
//! - Settings: [`config`], [`storage`], [`storage_laws`]
//! - Setup portal: [`provision`], [`submission`]
//! - From power-on to the assistant: [`boot`], [`wifi`], [`codec`]
//! - The assistant: [`wakeword`], [`turn`], [`sessions`], [`recorder`], [`net`]
//! - Sound: [`audio`]
//! - Diagnostics: [`control`], [`i2cscan`]
//! - Text and numbers: [`text`], [`numbers`]

pub mod audio;
pub mod boot;
pub mod codec;
pub mod config;
pub mod control;
pub mod i2cscan;
pub mod net;
pub mod numbers;
pub mod provision;
pub mod recorder;
pub mod sessions;
pub mod storage;
pub mod storage_laws;
pub mod submission;
pub mod text;
pub mod turn;
pub mod wakeword;
pub mod wifi;
