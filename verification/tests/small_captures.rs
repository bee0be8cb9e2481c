use packets::clean::clean;
use packets::error::ExtractError;
use packets::passes::{analyze, http, ip_address, mac_address, tcp, udp};

fn sorted(mut values: Vec<String>) -> Vec<String> {
    values.sort();
    values
}

fn strings(values: &[&str]) -> Vec<String> {
    values.iter().map(|s| s.to_string()).collect()
}

#[test]
fn ip_pass_finds_source_and_destination() {
    let text = r#"[{"_source":{"layers":{"ip":{"ip.src":"10.0.0.1","ip.dst":"10.0.0.2"}}}}]"#;
    let out = ip_address(text).unwrap();
    assert_eq!(sorted(out), strings(&["10.0.0.1", "10.0.0.2"]));
}

#[test]
fn tcp_pass_collapses_a_repeated_port() {
    let text = r#"[
        {"_source":{"layers":{"tcp":{"tcp.port":"443"}}}},
        {"_source":{"layers":{"tcp":{"tcp.port":"443"}}}}
    ]"#;
    let out = tcp(text).unwrap();
    assert_eq!(out, strings(&["443"]));
}

#[test]
fn http_pass_with_host_only() {
    let text = r#"[{"_source":{"layers":{"http":{"http.host":"example.com"}}}}]"#;
    let out = http(text).unwrap();
    assert_eq!(out, strings(&["example.com"]));
}

#[test]
fn mac_pass_skips_a_packet_without_eth() {
    let lone = r#"[{"_source":{"layers":{"ip":{"ip.src":"10.0.0.1"}}}}]"#;
    assert_eq!(mac_address(lone).unwrap(), Vec::<String>::new());

    let mixed = r#"[
        {"_source":{"layers":{"ip":{"ip.src":"10.0.0.1"}}}},
        {"_source":{"layers":{"eth":{"eth.src":"aa:bb:cc:dd:ee:01","eth.dst":"aa:bb:cc:dd:ee:02"}}}}
    ]"#;
    let alone = r#"[
        {"_source":{"layers":{"eth":{"eth.src":"aa:bb:cc:dd:ee:01","eth.dst":"aa:bb:cc:dd:ee:02"}}}}
    ]"#;
    let expected = strings(&["aa:bb:cc:dd:ee:01", "aa:bb:cc:dd:ee:02"]);
    assert_eq!(sorted(mac_address(mixed).unwrap()), expected);
    assert_eq!(sorted(mac_address(alone).unwrap()), expected);
}

#[test]
fn cleaning_a_quoted_address() {
    assert_eq!(clean("\"192.168.1.1\""), "192.168.1.1");
    assert_eq!(clean("\"\\\"192.168.1.1\\\"\""), "192.168.1.1");
}

#[test]
fn a_text_that_is_not_json_is_rejected() {
    let text = "this is not json";
    assert!(matches!(tcp(text), Err(ExtractError::InvalidJson(_))));
    assert!(matches!(udp(text), Err(ExtractError::InvalidJson(_))));
    assert!(matches!(ip_address(text), Err(ExtractError::InvalidJson(_))));
    assert!(matches!(mac_address(text), Err(ExtractError::InvalidJson(_))));
    assert!(matches!(http(text), Err(ExtractError::InvalidJson(_))));
    assert!(matches!(analyze(text), Err(ExtractError::InvalidJson(_))));
}
