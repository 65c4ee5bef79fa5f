use wifi_commissioning::scan::scan::scan;
use wifi_commissioning::scan::scan::ScanError;
use wifi_commissioning::scan::scan::Wifi;

fn hotspot(mac: &str, ssid: &str, channel: &str, level: &str) -> Wifi {
    Wifi {
        mac: mac.to_string(),
        ssid: ssid.to_string(),
        channel: channel.to_string(),
        signal_level: level.to_string(),
        security: "WPA2".to_string(),
    }
}

#[test]
fn no_hotspot_gives_an_empty_array() {
    assert_eq!(scan(Ok(Vec::new())), Ok(b"[]".to_vec()));
}

#[test]
fn hotspots_are_written_in_their_order() {
    let found = vec![
        hotspot("00:11:22:33:44:55", "home", "6", "-40"),
        hotspot("66:77:88:99:aa:bb", "caf\u{e9}", "11", "-71"),
        hotspot("", "", "", ""),
    ];
    let expected = "[{\"ssid\":\"home\",\"rssi\":\"-40\",\"mac\":\"00:11:22:33:44:55\",\"ch\":\"6\"},\
                    {\"ssid\":\"caf\u{e9}\",\"rssi\":\"-71\",\"mac\":\"66:77:88:99:aa:bb\",\"ch\":\"11\"},\
                    {\"ssid\":\"\",\"rssi\":\"\",\"mac\":\"\",\"ch\":\"\"}]";
    assert_eq!(scan(Ok(found)), Ok(expected.as_bytes().to_vec()));
}

#[test]
fn a_failed_scan_is_handed_on() {
    assert_eq!(scan(Err(ScanError::CommandNotFound)), Err(ScanError::CommandNotFound));
}

#[test]
fn the_errors_have_names() {
    assert_eq!(ScanError::SyntaxRegexError.description(), "SyntaxRegexError");
    assert_eq!(ScanError::CommandNotFound.description(), "CommandNotFound");
    assert_eq!(ScanError::NoMatch.description(), "NoMatch");
    assert_eq!(ScanError::FailedToParse.description(), "FailedToParse");
    assert_eq!(ScanError::NoValue.description(), "NoValue");
}
