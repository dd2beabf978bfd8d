use wifiscanner::block::{classify, BlockScan, LineKind};
use wifiscanner::Wifi;

fn chars(s: &str) -> Vec<char> {
    s.chars().collect()
}

fn feed(scan: &mut BlockScan, line: &str, ssid_hit: bool, mac_hit: Option<&str>) {
    let line = chars(line);
    let kind = classify(&line, ssid_hit);
    scan.apply(&line, kind, mac_hit.map(|m| m.to_string()));
}

#[test]
fn first_kind_that_fits_is_the_kind_of_the_line() {
    assert_eq!(classify(&chars(" 1 : BSSID Signal Channel"), true), LineKind::Ssid);
    assert_eq!(classify(&chars("  BSSID 1 : Signal Channel"), false), LineKind::Bssid);
    assert_eq!(classify(&chars("  Channel Signal BSSID"), false), LineKind::Bssid);
    assert_eq!(classify(&chars("  Signal : Channel"), false), LineKind::Signal);
    assert_eq!(classify(&chars("  Channel Signal"), false), LineKind::Signal);
    assert_eq!(classify(&chars("  Channel : 6"), false), LineKind::Channel);
    assert_eq!(classify(&chars("  Authentication : Open"), false), LineKind::Security);
    assert_eq!(classify(&chars("no colon"), false), LineKind::Security);
    assert_eq!(classify(&chars(" "), false), LineKind::Security);
    assert_eq!(classify(&chars(": value"), false), LineKind::Other);
    assert_eq!(classify(&chars(""), false), LineKind::Other);
    assert_eq!(classify(&chars("  signal : 6"), false), LineKind::Security);
    assert_eq!(classify(&chars(""), true), LineKind::Ssid);
}

#[test]
fn new_block_is_empty() {
    let scan = BlockScan::new();
    assert_eq!(scan.ssid, "");
    assert_eq!(scan.security, "");
    assert!(scan.macs.is_empty() && scan.channels.is_empty() && scan.signals.is_empty());
    assert_eq!(scan.records(), vec![]);
}

#[test]
fn each_kind_of_line_changes_its_own_part() {
    let mut scan = BlockScan::new();
    feed(&mut scan, " 1 :  Vodafone Hotspot ", true, None);
    assert_eq!(scan.ssid, "Vodafone Hotspot");
    feed(&mut scan, "   Authentication  : Open", false, None);
    assert_eq!(scan.security, "Authentication");
    feed(&mut scan, "   BSSID 1 : ab:cd:ef:01:23:45", false, Some("ab:cd:ef:01:23:45"));
    assert_eq!(scan.macs, vec!["ab:cd:ef:01:23:45"]);
    feed(&mut scan, "     Signal : 16%", false, None);
    assert_eq!(scan.signals, vec![-92]);
    feed(&mut scan, "     Channel :  6 ", false, None);
    assert_eq!(scan.channels, vec!["6"]);
    feed(&mut scan, "", false, None);
    feed(&mut scan, ": nothing before the colon", false, None);
    assert_eq!(scan.ssid, "Vodafone Hotspot");
    assert_eq!(scan.security, "Authentication");
    assert_eq!(scan.macs.len(), 1);
    assert_eq!(scan.signals.len(), 1);
    assert_eq!(scan.channels.len(), 1);
}

#[test]
fn address_is_used_on_bssid_lines_only() {
    let mut scan = BlockScan::new();
    feed(&mut scan, " 1 : ab:cd:ef:01:23:45", true, Some("ab:cd:ef:01:23:45"));
    feed(&mut scan, "  Signal : ab:cd:ef:01:23:45", false, Some("ab:cd:ef:01:23:45"));
    feed(&mut scan, "  Channel : ab:cd:ef:01:23:45", false, Some("ab:cd:ef:01:23:45"));
    feed(&mut scan, "  Other : ab:cd:ef:01:23:45", false, Some("ab:cd:ef:01:23:45"));
    assert!(scan.macs.is_empty());
    feed(&mut scan, "  BSSID : none", false, None);
    assert!(scan.macs.is_empty());
    feed(&mut scan, "  BSSID : ab:cd:ef:01:23:45", false, Some("ab:cd:ef:01:23:45"));
    assert_eq!(scan.macs, vec!["ab:cd:ef:01:23:45"]);
    assert_eq!(scan.security, "Other");
    assert_eq!(scan.signals, vec![-100]);
}

#[test]
fn later_name_and_label_replace_earlier_ones() {
    let mut scan = BlockScan::new();
    feed(&mut scan, " 1 : first", true, None);
    feed(&mut scan, " 2 : second", true, None);
    feed(&mut scan, " Network type : Infrastructure", false, None);
    feed(&mut scan, " Authentication : Open", false, None);
    assert_eq!(scan.ssid, "second");
    assert_eq!(scan.security, "Authentication");
    feed(&mut scan, "   ", false, None);
    assert_eq!(scan.security, "");
    feed(&mut scan, " no colon at all ", true, None);
    assert_eq!(scan.ssid, "");
}

#[test]
fn keyword_lines_without_colon_add_nothing() {
    let mut scan = BlockScan::new();
    feed(&mut scan, "  Signal 16%", false, None);
    feed(&mut scan, "  Channel 6", false, None);
    assert!(scan.signals.is_empty());
    assert!(scan.channels.is_empty());
    assert_eq!(scan.security, "");
}

#[test]
fn three_three_two_gives_the_first_two_of_each() {
    let scan = BlockScan {
        ssid: "net".to_string(),
        security: "label".to_string(),
        macs: vec!["m0".to_string(), "m1".to_string(), "m2".to_string()],
        channels: vec!["c0".to_string(), "c1".to_string(), "c2".to_string()],
        signals: vec![-90, -80],
    };
    let expected = vec![
        Wifi {
            mac: "m0".to_string(),
            ssid: "net".to_string(),
            channel: "c0".to_string(),
            signal_level: "-90".to_string(),
            security: "label".to_string(),
        },
        Wifi {
            mac: "m1".to_string(),
            ssid: "net".to_string(),
            channel: "c1".to_string(),
            signal_level: "-80".to_string(),
            security: "label".to_string(),
        },
    ];
    assert_eq!(scan.records(), expected);
}

#[test]
fn any_empty_list_gives_no_record() {
    let full = vec!["a".to_string(), "b".to_string()];
    let without_macs = BlockScan {
        ssid: String::new(),
        security: String::new(),
        macs: vec![],
        channels: full.clone(),
        signals: vec![1, 2],
    };
    assert_eq!(without_macs.records(), vec![]);
    let without_channels = BlockScan {
        ssid: String::new(),
        security: String::new(),
        macs: full.clone(),
        channels: vec![],
        signals: vec![1, 2],
    };
    assert_eq!(without_channels.records(), vec![]);
    let without_signals = BlockScan {
        ssid: String::new(),
        security: String::new(),
        macs: full.clone(),
        channels: full.clone(),
        signals: vec![],
    };
    assert_eq!(without_signals.records(), vec![]);
    let one_channel = BlockScan {
        ssid: String::new(),
        security: String::new(),
        macs: full.clone(),
        channels: vec!["only".to_string()],
        signals: vec![-1, -2, -3],
    };
    let found = one_channel.records();
    assert_eq!(found.len(), 1);
    assert_eq!(found[0].mac, "a");
    assert_eq!(found[0].channel, "only");
    assert_eq!(found[0].signal_level, "-1");
}
