use proxy_scan::coordinator::{Coordinator, MAX_CONCURRENT};
use proxy_scan::evaluate::{evaluate, format_entry};
use proxy_scan::probe::{parse_probe_response, resolve_probe, ProbeOutcome};
use proxy_scan::record::{parse_records, ProxyRecord};
use proxy_scan::text::filter_nonblank;

fn raw_response(body: &str) -> Vec<u8> {
    format!("HTTP/1.1 200 OK\r\n\r\n{}", body).into_bytes()
}

#[test]
fn in_flight_probes_never_exceed_the_limit() {
    let total = 10usize;
    let limit = 3usize;
    let mut c = Coordinator::new(limit, total);
    let mut max_seen = 0usize;
    let mut started = 0usize;
    while !c.is_done() {
        while c.can_dispatch() {
            c.dispatch();
            started += 1;
            let in_flight = c.dispatched - c.completed;
            if in_flight > max_seen {
                max_seen = in_flight;
            }
            assert!(in_flight <= limit);
        }
        c.complete(None);
    }
    assert_eq!(started, total);
    assert_eq!(max_seen, limit);
    assert_eq!(c.completed, total);
}

#[test]
fn default_limit_is_in_the_expected_range() {
    assert_eq!(MAX_CONCURRENT, 100);
    let c = Coordinator::new(MAX_CONCURRENT, 5);
    assert_eq!(c.total, 5);
}

#[test]
fn a_run_dispositions_every_parseable_line() {
    // One alive proxy, one dead (same IP), one timed out, one malformed line.
    let lines: Vec<String> = vec![
        "1.2.3.4,8080,US,ExampleOrg".to_string(),
        "2.2.2.2,80,DE,OtherOrg".to_string(),
        "1.2.3.4,abc,US,Org".to_string(),
        "  ".to_string(),
        "3.3.3.3,443,FR,ThirdOrg".to_string(),
    ];
    let original_ip = "5.5.5.5";
    let lines = filter_nonblank(&lines);
    let records: Vec<ProxyRecord> = parse_records(&lines);
    assert_eq!(records.len(), 3);

    let outcomes: Vec<ProbeOutcome> = vec![
        resolve_probe(Some(parse_probe_response(&raw_response(
            "{\"clientIp\":\"9.9.9.9\",\"asOrganization\":\"Acme, Inc.\"}",
        )))),
        resolve_probe(Some(parse_probe_response(&raw_response("{\"clientIp\":\"5.5.5.5\"}")))),
        resolve_probe(None),
    ];

    let mut c = Coordinator::new(2, records.len());
    let mut pending: Vec<usize> = Vec::new();
    let mut next = 0usize;
    while !c.is_done() {
        while c.can_dispatch() {
            c.dispatch();
            pending.push(next);
            next += 1;
        }
        let idx = pending.remove(0);
        let entry = evaluate(original_ip, &outcomes[idx], &records[idx]);
        c.complete(entry);
    }
    assert_eq!(c.completed, records.len());
    assert_eq!(c.dispatched, records.len());

    let alive = c.into_alive();
    let lines_out: Vec<String> = alive.iter().map(format_entry).collect();
    assert_eq!(lines_out, vec!["1.2.3.4,8080,US,Acme Inc".to_string()]);
}

#[test]
fn empty_run_is_done_immediately() {
    let c = Coordinator::new(4, 0);
    assert!(c.is_done());
    assert!(!c.can_dispatch());
    assert!(c.into_alive().is_empty());
}
