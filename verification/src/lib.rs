//! Device discovery and hotplug reconciliation for a display-server process.
//!
//! The library classifies input hardware, filters enumeration snapshots of
//! the system device database, decides how a device node is opened when
//! direct access is denied, keeps the registry of currently attached input
//! devices in line with fresh enumeration results, and routes kernel hotplug
//! notifications to the right rescan.  All decisions are made over plain
//! values; the surrounding process performs the operating-system calls and
//! feeds their outcomes back in.

pub mod device_access;
pub mod device_manager;
pub mod device_monitor;
pub mod error;
pub mod input_collector;
pub mod module;
pub mod signals;
pub mod udev;
