//! The record kept for one access point, and the library's error.

use vstd::prelude::*;

verus! {

/// One access point as the scan reported it.
#[derive(Debug, Clone, PartialEq, Eq)]
pub struct Wifi {
    /// Hardware address of the access point, as written in the scan.
    pub mac: String,
    /// Name of the network.
    pub ssid: String,
    /// Radio channel, as written in the scan.
    pub channel: String,
    /// Signal level in dBm, in decimal.
    pub signal_level: String,
    /// Security label of the network.
    pub security: String,
}

/// The text of the five fields of a `Wifi`.
pub struct WifiView {
    pub mac: Seq<char>,
    pub ssid: Seq<char>,
    pub channel: Seq<char>,
    pub signal_level: Seq<char>,
    pub security: Seq<char>,
}

impl View for Wifi {
    type V = WifiView;

    open spec fn view(&self) -> WifiView {
        WifiView {
            mac: self.mac@,
            ssid: self.ssid@,
            channel: self.channel@,
            signal_level: self.signal_level@,
            security: self.security@,
        }
    }
}

/// The views of a sequence of records.
pub open spec fn wifi_views(records: Seq<Wifi>) -> Seq<WifiView> {
    records.map_values(|w: Wifi| w@)
}

/// What can go wrong in a scan.
#[derive(Debug, Clone, Copy, PartialEq, Eq)]
pub enum ScanError {
    /// One of the parser's regular expressions did not compile.
    SyntaxRegexError,
    /// The scanning command could not be run.
    CommandNotFound,
}

} // verus!
