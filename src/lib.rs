//! Verified core of a disk-imaging tool: boot-volume naming, first-boot
//! script synthesis, transfer decisions and the worker protocol.

pub mod boot;
pub mod shell;
pub mod text;
pub mod customization;
pub mod transfer;
pub mod engine;
pub mod worker;
pub mod drivelist;
pub mod os_list;
pub mod static_data;
