//! State tracking for a Bluetooth Low Energy session.
//!
//! A platform backend reports what it sees of the peripherals around it. The
//! session keeps one state per peripheral, decides what an application is told
//! about it, and guards the start and the end of scanning.

pub mod config;
pub mod events;
pub mod laws;
pub mod peripheral;
pub mod registry;
pub mod report_laws;
pub mod scan_laws;
pub mod session;
pub mod types;

pub use config::{Backend, Filter, Platform, SessionConfig};
pub use events::{Anomaly, Event, Outcome, PlatformEvent, PlatformPeripheralProperty};
pub use peripheral::PeripheralStateInner;
pub use session::{
    keep_received, PeripheralState, PlatformRequest, ScanDecision, ScanError, Session,
    EVENT_BUS_CAPACITY,
};
pub use types::{
    Address, AddressType, MacAddressType, PeripheralPropertyId, PlatformPeripheralHandle, MAC,
};
