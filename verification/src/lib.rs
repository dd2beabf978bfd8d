//! Extraction of WiFi access-point records from the text that
//! `netsh wlan show networks mode=Bssid` prints.

pub mod block;
pub mod netsh;
pub mod number;
pub mod pattern;
pub mod signal;
pub mod text;
pub mod wifi;

pub use netsh::parse_netsh;
pub use wifi::{ScanError, Wifi};
