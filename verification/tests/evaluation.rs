use proxy_scan::evaluate::{evaluate, format_entry, u16_to_string, AliveProxyEntry};
use proxy_scan::probe::{parse_probe_response, ProbeFailure, ProbeOutcome, ProbePayload};
use proxy_scan::record::parse_proxy_line;

fn outcome(client_ip: Option<&str>, org: Option<&str>) -> ProbeOutcome {
    ProbeOutcome::Success(ProbePayload {
        client_ip: client_ip.map(|s| s.to_string()),
        as_organization: org.map(|s| s.to_string()),
    })
}

#[test]
fn alive_with_endpoint_organization() {
    let record = parse_proxy_line("1.2.3.4,8080,US,ExampleOrg").unwrap();
    let out = outcome(Some("9.9.9.9"), Some("Acme, Inc."));
    let entry = evaluate("5.5.5.5", &out, &record).unwrap();
    assert_eq!(format_entry(&entry), "1.2.3.4,8080,US,Acme Inc");
}

#[test]
fn end_to_end_alive_from_raw_response() {
    let record = parse_proxy_line("1.2.3.4,8080,US,ExampleOrg").unwrap();
    let raw = format!(
        "HTTP/1.1 200 OK\r\nContent-Type: application/json\r\n\r\n{}",
        "{\"clientIp\":\"9.9.9.9\",\"asOrganization\":\"Acme, Inc.\"}"
    );
    let out = parse_probe_response(raw.as_bytes());
    let entry = evaluate("5.5.5.5", &out, &record).unwrap();
    assert_eq!(format_entry(&entry), "1.2.3.4,8080,US,Acme Inc");
}

#[test]
fn same_ip_is_dead_whatever_the_organization() {
    let record = parse_proxy_line("1.2.3.4,8080,US,ExampleOrg").unwrap();
    assert!(evaluate("5.5.5.5", &outcome(Some("5.5.5.5"), Some("Acme, Inc.")), &record).is_none());
    assert!(evaluate("5.5.5.5", &outcome(Some("5.5.5.5"), None), &record).is_none());
    assert!(evaluate("5.5.5.5", &outcome(Some("5.5.5.5"), Some("")), &record).is_none());
}

#[test]
fn missing_client_ip_is_dead() {
    let record = parse_proxy_line("1.2.3.4,8080,US,ExampleOrg").unwrap();
    assert!(evaluate("5.5.5.5", &outcome(None, Some("Acme")), &record).is_none());
}

#[test]
fn failures_are_never_alive() {
    let record = parse_proxy_line("1.2.3.4,8080,US,ExampleOrg").unwrap();
    for f in [
        ProbeFailure::ConnectFailed,
        ProbeFailure::TlsFailed,
        ProbeFailure::SendFailed,
        ProbeFailure::ReceiveFailed,
        ProbeFailure::TimedOut,
        ProbeFailure::MalformedHttp,
        ProbeFailure::InvalidJson,
    ] {
        assert!(evaluate("5.5.5.5", &ProbeOutcome::Failure(f), &record).is_none());
    }
}

#[test]
fn falls_back_to_the_record_organization() {
    let record = parse_proxy_line("1.2.3.4,8080,US,Input-Org.").unwrap();
    let entry = evaluate("5.5.5.5", &outcome(Some("9.9.9.9"), None), &record).unwrap();
    assert_eq!(entry.organization, "InputOrg");
    let entry = evaluate("5.5.5.5", &outcome(Some("9.9.9.9"), Some("")), &record).unwrap();
    assert_eq!(entry.organization, "InputOrg");
}

#[test]
fn evaluation_is_deterministic() {
    let record = parse_proxy_line("1.2.3.4,8080,US,ExampleOrg").unwrap();
    let a = evaluate("5.5.5.5", &outcome(Some("9.9.9.9"), Some("A&B")), &record).unwrap();
    let b = evaluate("5.5.5.5", &outcome(Some("9.9.9.9"), Some("A&B")), &record).unwrap();
    assert_eq!(format_entry(&a), format_entry(&b));
    assert_eq!(a.organization, b.organization);
}

#[test]
fn ports_format_in_plain_decimal() {
    assert_eq!(u16_to_string(0), "0");
    assert_eq!(u16_to_string(7), "7");
    assert_eq!(u16_to_string(80), "80");
    assert_eq!(u16_to_string(8080), "8080");
    assert_eq!(u16_to_string(65535), "65535");
    for n in [1u16, 9, 10, 99, 100, 1000, 10000, 54321] {
        assert_eq!(u16_to_string(n), n.to_string());
    }
}

#[test]
fn entry_lines_use_the_input_format() {
    let entry = AliveProxyEntry {
        address: "10.0.0.1".to_string(),
        port: 65535,
        country: "DE".to_string(),
        organization: "Org 1".to_string(),
    };
    assert_eq!(format_entry(&entry), "10.0.0.1,65535,DE,Org 1");
}
