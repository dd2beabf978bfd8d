//! The parser for the text that `netsh wlan show networks mode=Bssid`
//! prints.
//!
//! The text is cut into blocks at every line that starts with `SSID`, each
//! block is read line by line, and the records of all blocks are put
//! together in the order of the blocks. Three regular expressions do the
//! pattern matching; what they find is named in `pattern`, and every
//! contract here says in terms of those names what is returned.

use crate::block::{
    apply_line, classify, empty_block, line_kind, records_of, BlockModel, BlockScan, LineKind,
};
use crate::pattern::{
    compile, compiles, find_text, first_match, split_pieces, split_text, Pattern,
};
use crate::text::{
    before_colon, chars_of, line_views, lines_of, occurs_in, split_lines, string_of,
    string_views, trimmed,
};
use crate::wifi::{wifi_views, ScanError, Wifi, WifiView};
use vstd::prelude::*;

verus! {

/// Where one block ends and the next begins: a line feed and the word
/// `SSID`. The word itself belongs to no block.
pub const BLOCK_PATTERN: &'static str = "\nSSID";

/// The start of the line that carries the network name, as it is left when
/// the word `SSID` is cut off: an optional space, the digits of the
/// network's number, and a colon with a space on either side.
pub const SSID_PATTERN: &'static str = "^ ?[0-9]* : ";

/// A hardware address: six groups of two hexadecimal digits with colons
/// between them, seventeen characters in all.
pub const MAC_PATTERN: &'static str = "(?:[a-fA-F0-9]{2}:){5}[a-fA-F0-9]{2}";

/// Whether `line` carries the network name.
pub open spec fn is_ssid_line(line: Seq<char>) -> bool {
    first_match(SSID_PATTERN@, line).is_some()
}

/// The first hardware address written in `line`, if there is one.
pub open spec fn mac_in(line: Seq<char>) -> Option<Seq<char>> {
    first_match(MAC_PATTERN@, line)
}

/// The kind of `line`.
pub open spec fn kind_of(line: Seq<char>) -> LineKind {
    line_kind(line, is_ssid_line(line))
}

/// What is collected from the given lines, read in order.
pub open spec fn scan_lines(lines: Seq<Seq<char>>) -> BlockModel
    decreases lines.len(),
{
    if lines.len() == 0 {
        empty_block()
    } else {
        apply_line(
            scan_lines(lines.drop_last()),
            lines.last(),
            kind_of(lines.last()),
            mac_in(lines.last()),
        )
    }
}

/// The records of one block of text.
pub open spec fn block_records(block: Seq<char>) -> Seq<WifiView> {
    records_of(scan_lines(lines_of(block)))
}

/// The records of the given blocks, in the order of the blocks.
pub open spec fn all_records(blocks: Seq<Seq<char>>) -> Seq<WifiView>
    decreases blocks.len(),
{
    if blocks.len() == 0 {
        Seq::empty()
    } else {
        all_records(blocks.drop_last()) + block_records(blocks.last())
    }
}

/// The three patterns of the parser compile.
pub open spec fn patterns_compile() -> bool {
    &&& compiles(BLOCK_PATTERN@)
    &&& compiles(SSID_PATTERN@)
    &&& compiles(MAC_PATTERN@)
}

/// What parsing `text` gives: the records of its blocks, or the error where
/// a pattern does not compile.
pub open spec fn parsed(text: Seq<char>) -> Result<Seq<WifiView>, ScanError> {
    if patterns_compile() {
        Ok(all_records(split_pieces(BLOCK_PATTERN@, text)))
    } else {
        Err(ScanError::SyntaxRegexError)
    }
}

/// The mathematical value of a result of parsing.
pub open spec fn result_view(r: Result<Vec<Wifi>, ScanError>) -> Result<Seq<WifiView>, ScanError> {
    match r {
        Ok(records) => Ok(wifi_views(records@)),
        Err(e) => Err(e),
    }
}

/// Reads one block and returns its records.
fn parse_block(block: &str, ssid_regex: &Pattern, mac_regex: &Pattern) -> (out: Vec<Wifi>)
    requires
        ssid_regex@ == SSID_PATTERN@,
        mac_regex@ == MAC_PATTERN@,
    ensures
        wifi_views(out@) == block_records(block@),
{
    let chars = chars_of(block);
    let lines = split_lines(chars.as_slice());
    let ghost all = line_views(lines@);
    let mut scan = BlockScan::new();
    let mut i: usize = 0;
    while i < lines.len()
        invariant
            i <= lines.len(),
            all == line_views(lines@),
            scan@ == scan_lines(all.take(i as int)),
            ssid_regex@ == SSID_PATTERN@,
            mac_regex@ == MAC_PATTERN@,
        decreases lines.len() - i,
    {
        let line = lines[i].as_slice();
        let text = string_of(line);
        let ssid_hit = find_text(ssid_regex, text.as_str()).is_some();
        let kind = classify(line, ssid_hit);
        let mac_hit = match kind {
            LineKind::Bssid => find_text(mac_regex, text.as_str()),
            _ => None,
        };
        proof {
            assert(all.take(i + 1).drop_last() =~= all.take(i as int));
        }
        scan.apply(line, kind, mac_hit);
        i += 1;
    }
    proof {
        assert(all.take(lines.len() as int) =~= all);
    }
    scan.records()
}

/// Parses the text of a scan into one record for each access point.
///
/// Malformed text is never an error: a line that cannot be read
/// contributes nothing. The only error is a pattern that does not compile,
/// and then no record is returned.
pub fn parse_netsh(network_list: &str) -> (r: Result<Vec<Wifi>, ScanError>)
    ensures
        result_view(r) == parsed(network_list@),
        r.is_ok() == patterns_compile(),
        r matches Err(e) ==> e == ScanError::SyntaxRegexError,
{
    let split_regex = match compile(BLOCK_PATTERN) {
        Ok(re) => re,
        Err(_) => {
            return Err(ScanError::SyntaxRegexError);
        },
    };
    let ssid_regex = match compile(SSID_PATTERN) {
        Ok(re) => re,
        Err(_) => {
            return Err(ScanError::SyntaxRegexError);
        },
    };
    let mac_regex = match compile(MAC_PATTERN) {
        Ok(re) => re,
        Err(_) => {
            return Err(ScanError::SyntaxRegexError);
        },
    };
    let blocks = split_text(&split_regex, network_list);
    let ghost all = string_views(blocks@);
    let mut wifis: Vec<Wifi> = Vec::new();
    let mut i: usize = 0;
    while i < blocks.len()
        invariant
            i <= blocks.len(),
            all == string_views(blocks@),
            wifi_views(wifis@) == all_records(all.take(i as int)),
            ssid_regex@ == SSID_PATTERN@,
            mac_regex@ == MAC_PATTERN@,
        decreases blocks.len() - i,
    {
        let mut found = parse_block(blocks[i].as_str(), &ssid_regex, &mac_regex);
        wifis.append(&mut found);
        proof {
            assert(all.take(i + 1).drop_last() =~= all.take(i as int));
        }
        i += 1;
    }
    proof {
        assert(all.take(blocks.len() as int) =~= all);
    }
    Ok(wifis)
}

/// Parsing is a function of the text: two results for the same text hold
/// the same records in the same order, or are the same error.
pub proof fn parse_is_deterministic(
    text: Seq<char>,
    first: Result<Vec<Wifi>, ScanError>,
    second: Result<Vec<Wifi>, ScanError>,
)
    requires
        result_view(first) == parsed(text),
        result_view(second) == parsed(text),
    ensures
        result_view(first) == result_view(second),
{
}

/// A block in which no line holds the word `BSSID` collects no hardware
/// address.
proof fn no_bssid_no_macs(lines: Seq<Seq<char>>)
    requires
        forall|i: int| 0 <= i < lines.len() ==> !occurs_in(#[trigger] lines[i], "BSSID"@),
    ensures
        scan_lines(lines).macs.len() == 0,
    decreases lines.len(),
{
    if lines.len() > 0 {
        no_bssid_no_macs(lines.drop_last());
    }
}

/// A block in which no line holds the word `BSSID` gives no record,
/// whatever else it holds.
pub proof fn block_without_bssid_gives_nothing(block: Seq<char>)
    requires
        forall|i: int|
            0 <= i < lines_of(block).len() ==> !occurs_in(#[trigger] lines_of(block)[i], "BSSID"@),
    ensures
        block_records(block).len() == 0,
{
    no_bssid_no_macs(lines_of(block));
}

/// `line` is neither the line of the network name nor a line with one of
/// the three key words.
pub open spec fn is_plain(line: Seq<char>) -> bool {
    kind_of(line) == LineKind::Security || kind_of(line) == LineKind::Other
}

/// `line` sets the security label of its block.
pub open spec fn carries_label(line: Seq<char>) -> bool {
    kind_of(line) == LineKind::Security
}

/// The label that `line` carries: the text before its first colon, without
/// the white space around it.
pub open spec fn label_of(line: Seq<char>) -> Seq<char> {
    trimmed(before_colon(line))
}

/// The security label of a block is the label of the last of its lines
/// that carries one.
pub proof fn security_is_last_label(lines: Seq<Seq<char>>, last: int)
    requires
        0 <= last < lines.len(),
        carries_label(lines[last]),
        forall|j: int| last < j < lines.len() ==> !carries_label(#[trigger] lines[j]),
    ensures
        scan_lines(lines).security == label_of(lines[last]),
    decreases lines.len(),
{
    if last < lines.len() - 1 {
        security_is_last_label(lines.drop_last(), last);
    }
}

/// A block none of whose lines carries a label has the empty security
/// label.
pub proof fn security_without_label_is_empty(lines: Seq<Seq<char>>)
    requires
        forall|j: int| 0 <= j < lines.len() ==> !carries_label(#[trigger] lines[j]),
    ensures
        scan_lines(lines).security == Seq::<char>::empty(),
    decreases lines.len(),
{
    if lines.len() > 0 {
        security_without_label_is_empty(lines.drop_last());
    }
}

/// The security label of a block is the label of its first plain line,
/// provided that the last line that carries a label, if there is any,
/// carries that same label. (Each line that carries a label replaces the
/// label of the lines before it, so with two different labels the later
/// one stays.)
pub proof fn security_is_first_label(lines: Seq<Seq<char>>, first: int, last: int)
    requires
        0 <= first <= last < lines.len(),
        is_plain(lines[first]),
        forall|j: int| 0 <= j < first ==> !is_plain(#[trigger] lines[j]),
        forall|j: int| last < j < lines.len() ==> !carries_label(#[trigger] lines[j]),
        last == first || carries_label(lines[last]),
        label_of(lines[last]) == label_of(lines[first]),
    ensures
        scan_lines(lines).security == label_of(lines[first]),
{
    if carries_label(lines[last]) {
        security_is_last_label(lines, last);
    } else {
        security_without_label_is_empty(lines);
    }
}

} // verus!
