use proxy_scan::record::{parse_proxy_line, parse_records, parse_u16, ParseError, ProxyRecord};
use proxy_scan::text::filter_nonblank;

#[test]
fn parses_well_formed_line() {
    let rec = parse_proxy_line("1.2.3.4,8080,US,ExampleOrg").unwrap();
    assert_eq!(rec.address, "1.2.3.4");
    assert_eq!(rec.port, 8080u16);
    assert_eq!(rec.country, "US");
    assert_eq!(rec.organization, "ExampleOrg");
}

#[test]
fn keeps_empty_fields_verbatim() {
    let rec = parse_proxy_line(",80,,").unwrap();
    assert_eq!(rec.address, "");
    assert_eq!(rec.port, 80u16);
    assert_eq!(rec.country, "");
    assert_eq!(rec.organization, "");
}

#[test]
fn ignores_fields_after_the_fourth() {
    let rec = parse_proxy_line("1.2.3.4,80,US,Org,extra,more").unwrap();
    assert_eq!(rec.organization, "Org");
}

#[test]
fn rejects_too_few_fields() {
    assert!(matches!(parse_proxy_line("1.2.3.4,8080,US"), Err(ParseError::MalformedLine)));
    assert!(matches!(parse_proxy_line(""), Err(ParseError::MalformedLine)));
    assert!(matches!(parse_proxy_line("1.2.3.4"), Err(ParseError::MalformedLine)));
    assert!(matches!(parse_proxy_line("a,b"), Err(ParseError::MalformedLine)));
}

#[test]
fn rejects_bad_port() {
    assert!(matches!(parse_proxy_line("1.2.3.4,abc,US,Org"), Err(ParseError::InvalidPort)));
    assert!(matches!(parse_proxy_line("1.2.3.4,,US,Org"), Err(ParseError::InvalidPort)));
    assert!(matches!(parse_proxy_line("1.2.3.4,-1,US,Org"), Err(ParseError::InvalidPort)));
    assert!(matches!(parse_proxy_line("1.2.3.4,65536,US,Org"), Err(ParseError::InvalidPort)));
    assert!(matches!(parse_proxy_line("1.2.3.4,80 ,US,Org"), Err(ParseError::InvalidPort)));
}

#[test]
fn port_syntax_matches_std_parse() {
    let samples = [
        "0", "1", "80", "8080", "65535", "65536", "99999999999999999999", "007",
        "0000000000065535", "+42", "+", "++1", "", "abc", " 1", "1 ", "-1", "1.5",
    ];
    for s in samples {
        assert_eq!(parse_u16(s), s.parse::<u16>().ok(), "port sample {:?}", s);
    }
}

#[test]
fn parse_records_keeps_only_parseable_lines() {
    let lines: Vec<String> = vec![
        "1.2.3.4,8080,US,Org".to_string(),
        "1.2.3.4,abc,US,Org".to_string(),
        "5.6.7.8,443,DE,Other".to_string(),
        "nonsense".to_string(),
    ];
    let records: Vec<ProxyRecord> = parse_records(&lines);
    assert_eq!(records.len(), 2);
    assert_eq!(records[0].address, "1.2.3.4");
    assert_eq!(records[0].port, 8080u16);
    assert_eq!(records[1].address, "5.6.7.8");
    assert_eq!(records[1].port, 443u16);
}

#[test]
fn filter_nonblank_drops_blank_lines() {
    let lines: Vec<String> = vec![
        "a,80,US,Org".to_string(),
        "".to_string(),
        "   ".to_string(),
        "\t".to_string(),
        "b,81,DE,Org".to_string(),
    ];
    let kept = filter_nonblank(&lines);
    assert_eq!(kept.len(), 2);
    assert_eq!(kept[0], "a,80,US,Org");
    assert_eq!(kept[1], "b,81,DE,Org");
}
