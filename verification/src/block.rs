//! One block of the scan: the lines that belong to one network name.
//!
//! A block is read line by line. Each line is of one kind and changes at
//! most one of the five things collected for the block: the network name,
//! the security label, and the three lists of hardware addresses, channels
//! and signal levels. The lists are then joined position by position into
//! records.

use crate::number::{decimal, render_i32};
use crate::signal::{signal_dbm, signal_level};
use crate::text::{
    after_colon, before_colon, chars_of, contains, occurs_in, string_of, string_views,
    take_after_colon, take_before_colon, trim, trimmed,
};
use crate::wifi::{wifi_views, Wifi, WifiView};
use vstd::prelude::*;

verus! {

/// What a line of a block contributes.
#[derive(Debug, Clone, Copy, PartialEq, Eq, Structural)]
pub enum LineKind {
    /// The numbered line that carries the network name.
    Ssid,
    /// A line that holds the word `BSSID`: it may carry a hardware address.
    Bssid,
    /// A line that holds the word `Signal`.
    Signal,
    /// A line that holds the word `Channel`.
    Channel,
    /// Any other line with text before its first colon: that text is taken
    /// as the security label.
    Security,
    /// A line that contributes nothing.
    Other,
}

/// The kind of `line`, given whether the pattern of a network-name line
/// matched it. The first of the kinds that fits is the line's kind: the
/// network name goes before the three key words, and these before the
/// security label.
pub open spec fn line_kind(line: Seq<char>, ssid_hit: bool) -> LineKind {
    if ssid_hit {
        LineKind::Ssid
    } else if occurs_in(line, "BSSID"@) {
        LineKind::Bssid
    } else if occurs_in(line, "Signal"@) {
        LineKind::Signal
    } else if occurs_in(line, "Channel"@) {
        LineKind::Channel
    } else if before_colon(line).len() > 0 {
        LineKind::Security
    } else {
        LineKind::Other
    }
}

/// Finds the kind of `line`.
pub fn classify(line: &[char], ssid_hit: bool) -> (kind: LineKind)
    ensures
        kind == line_kind(line@, ssid_hit),
{
    if ssid_hit {
        LineKind::Ssid
    } else if contains(line, chars_of("BSSID").as_slice()) {
        LineKind::Bssid
    } else if contains(line, chars_of("Signal").as_slice()) {
        LineKind::Signal
    } else if contains(line, chars_of("Channel").as_slice()) {
        LineKind::Channel
    } else if take_before_colon(line).len() > 0 {
        LineKind::Security
    } else {
        LineKind::Other
    }
}

/// What has been collected for a block, as mathematical values.
pub struct BlockModel {
    pub ssid: Seq<char>,
    pub security: Seq<char>,
    pub macs: Seq<Seq<char>>,
    pub channels: Seq<Seq<char>>,
    pub signals: Seq<int>,
}

/// What has been collected for a block before its first line.
pub open spec fn empty_block() -> BlockModel {
    BlockModel {
        ssid: Seq::empty(),
        security: Seq::empty(),
        macs: Seq::empty(),
        channels: Seq::empty(),
        signals: Seq::empty(),
    }
}

/// The block after one more line of the given kind. `mac_hit` is the
/// hardware address found in the line, if any; only a `Bssid` line uses it.
pub open spec fn apply_line(
    m: BlockModel,
    line: Seq<char>,
    kind: LineKind,
    mac_hit: Option<Seq<char>>,
) -> BlockModel {
    match kind {
        LineKind::Ssid => BlockModel {
            ssid: match after_colon(line) {
                Some(value) => trimmed(value),
                None => Seq::empty(),
            },
            ..m
        },
        LineKind::Bssid => match mac_hit {
            Some(mac) => BlockModel { macs: m.macs.push(mac), ..m },
            None => m,
        },
        LineKind::Signal => match after_colon(line) {
            Some(value) => BlockModel { signals: m.signals.push(signal_dbm(value)), ..m },
            None => m,
        },
        LineKind::Channel => match after_colon(line) {
            Some(value) => BlockModel { channels: m.channels.push(trimmed(value)), ..m },
            None => m,
        },
        LineKind::Security => BlockModel { security: trimmed(before_colon(line)), ..m },
        LineKind::Other => m,
    }
}

/// The number of records that a block gives: the length of the shortest of
/// its three lists.
pub open spec fn record_count(m: BlockModel) -> nat {
    if m.macs.len() <= m.channels.len() && m.macs.len() <= m.signals.len() {
        m.macs.len()
    } else if m.channels.len() <= m.signals.len() {
        m.channels.len()
    } else {
        m.signals.len()
    }
}

/// The record at position `i` of a block: the entries at `i` of the three
/// lists, with the name and the security label of the block.
pub open spec fn record_at(m: BlockModel, i: int) -> WifiView {
    WifiView {
        mac: m.macs[i],
        ssid: m.ssid,
        channel: m.channels[i],
        signal_level: decimal(m.signals[i]),
        security: m.security,
    }
}

/// The records of a block, in the order of the lists. Entries of a list
/// beyond the shortest list's length give no record.
pub open spec fn records_of(m: BlockModel) -> Seq<WifiView> {
    Seq::new(record_count(m), |i: int| record_at(m, i))
}

/// The text of an optional string.
pub open spec fn text_of(s: Option<String>) -> Option<Seq<char>> {
    match s {
        Some(t) => Some(t@),
        None => None,
    }
}

/// What has been collected for a block.
pub struct BlockScan {
    pub ssid: String,
    pub security: String,
    pub macs: Vec<String>,
    pub channels: Vec<String>,
    pub signals: Vec<i32>,
}

impl View for BlockScan {
    type V = BlockModel;

    open spec fn view(&self) -> BlockModel {
        BlockModel {
            ssid: self.ssid@,
            security: self.security@,
            macs: string_views(self.macs@),
            channels: string_views(self.channels@),
            signals: self.signals@.map_values(|v: i32| v as int),
        }
    }
}

impl BlockScan {
    /// A block of which no line has been read.
    pub fn new() -> (scan: Self)
        ensures
            scan@ == empty_block(),
    {
        let scan = BlockScan {
            ssid: String::new(),
            security: String::new(),
            macs: Vec::new(),
            channels: Vec::new(),
            signals: Vec::new(),
        };
        proof {
            assert(scan@.macs =~= Seq::empty());
            assert(scan@.channels =~= Seq::empty());
            assert(scan@.signals =~= Seq::empty());
        }
        scan
    }

    /// Takes in one more line of the given kind.
    pub fn apply(&mut self, line: &[char], kind: LineKind, mac_hit: Option<String>)
        ensures
            final(self)@ == apply_line(old(self)@, line@, kind, text_of(mac_hit)),
    {
        match kind {
            LineKind::Ssid => {
                self.ssid = match take_after_colon(line) {
                    Some(value) => string_of(trim(value.as_slice()).as_slice()),
                    None => String::new(),
                };
            },
            LineKind::Bssid => {
                if let Some(mac) = mac_hit {
                    self.macs.push(mac);
                    assert(final(self)@.macs =~= old(self)@.macs.push(mac@));
                }
            },
            LineKind::Signal => {
                if let Some(value) = take_after_colon(line) {
                    let dbm = signal_level(value.as_slice());
                    self.signals.push(dbm);
                    assert(final(self)@.signals =~= old(self)@.signals.push(dbm as int));
                }
            },
            LineKind::Channel => {
                if let Some(value) = take_after_colon(line) {
                    let channel = string_of(trim(value.as_slice()).as_slice());
                    self.channels.push(channel);
                    assert(final(self)@.channels =~= old(self)@.channels.push(channel@));
                }
            },
            LineKind::Security => {
                self.security = string_of(trim(take_before_colon(line).as_slice()).as_slice());
            },
            LineKind::Other => {},
        }
    }

    /// The records of the block: one for each position that all three
    /// lists reach, made of the entries at that position.
    pub fn records(&self) -> (out: Vec<Wifi>)
        ensures
            out@.len() == record_count(self@),
            forall|i: int| 0 <= i < out@.len() ==> (#[trigger] out@[i])@ == record_at(self@, i),
            wifi_views(out@) == records_of(self@),
    {
        let mut n: usize = self.macs.len();
        if self.channels.len() < n {
            n = self.channels.len();
        }
        if self.signals.len() < n {
            n = self.signals.len();
        }
        let mut out: Vec<Wifi> = Vec::new();
        let mut i: usize = 0;
        while i < n
            invariant
                i <= n,
                n == record_count(self@),
                out@.len() == i,
                forall|j: int| 0 <= j < i ==> (#[trigger] out@[j])@ == record_at(self@, j),
            decreases n - i,
        {
            let level = render_i32(self.signals[i]);
            let record = Wifi {
                mac: self.macs[i].clone(),
                ssid: self.ssid.clone(),
                channel: self.channels[i].clone(),
                signal_level: string_of(level.as_slice()),
                security: self.security.clone(),
            };
            out.push(record);
            i += 1;
        }
        out
    }
}

} // verus!
