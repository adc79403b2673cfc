//! hero-init: first-boot configuration of a Linux machine from a SEED
//! device. The library decides everything the tool does — which device to
//! use, which modules still have to run, the exact files, commands and
//! permissions each module needs — and describes those effects as data for
//! the program around it to carry out.

pub mod boot;
pub mod config;
pub mod discovery;
pub mod execution;
pub mod metadata;
pub mod network;
pub mod ops;
pub mod paths;
pub mod state;
pub mod text;
pub mod users;
