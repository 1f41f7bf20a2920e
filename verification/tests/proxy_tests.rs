//! PROXY-protocol configuration parsing and defaults.

use std::str::FromStr;

use stratum_proxy::proxy::{inspect_proxy_header, ProxyConfig, ProxyHeaderOutcome, ProxyProtocolVersion};

#[test]
fn parses_the_three_configuration_words() {
    assert_eq!(ProxyProtocolVersion::parse("v1"), Some(ProxyProtocolVersion::V1));
    assert_eq!(ProxyProtocolVersion::parse("v2"), Some(ProxyProtocolVersion::V2));
    assert_eq!(ProxyProtocolVersion::parse("both"), Some(ProxyProtocolVersion::Both));
    assert_eq!(ProxyProtocolVersion::parse("V1"), None);
    assert_eq!(ProxyProtocolVersion::parse(""), None);
    assert_eq!(ProxyProtocolVersion::parse("v3"), None);
    assert_eq!(ProxyProtocolVersion::from_str("both"), Ok(ProxyProtocolVersion::Both));
    assert!(ProxyProtocolVersion::from_str("neither").is_err());
}

#[test]
fn acceptor_support_follows_the_version_choice() {
    assert_eq!(ProxyProtocolVersion::V1.support(), (true, false));
    assert_eq!(ProxyProtocolVersion::V2.support(), (false, true));
    assert_eq!(ProxyProtocolVersion::Both.support(), (true, true));
}

#[test]
fn default_config_is_plain_tcp() {
    let c = ProxyConfig::default();
    assert!(!c.accept_proxy_protocol);
    assert!(!c.proxy_protocol_optional);
    assert_eq!(c.accepted_proxy_protocol_versions, ProxyProtocolVersion::Both);
    assert_eq!(c.pass_proxy_protocol, None);
}

#[test]
fn proxy_v1_line_is_consumed_whole() {
    let line = b"PROXY TCP4 1.2.3.4 5.6.7.8 1234 5678\r\n";
    let mut buf = line.to_vec();
    buf.extend_from_slice(b"stratum bytes");
    assert_eq!(
        inspect_proxy_header(&buf, true, true),
        ProxyHeaderOutcome::V1Line { consumed: line.len() }
    );
}

#[test]
fn partial_proxy_signatures_need_more() {
    assert_eq!(inspect_proxy_header(b"", true, true), ProxyHeaderOutcome::NeedMore);
    assert_eq!(inspect_proxy_header(b"PRO", true, true), ProxyHeaderOutcome::NeedMore);
    assert_eq!(
        inspect_proxy_header(b"PROXY TCP4 1.2.3.4", true, true),
        ProxyHeaderOutcome::NeedMore
    );
    assert_eq!(inspect_proxy_header(b"\r\n\r\n\x00", true, true), ProxyHeaderOutcome::NeedMore);
}

#[test]
fn non_proxy_bytes_are_no_header() {
    assert_eq!(inspect_proxy_header(b"GET / HTTP/1.0\r\n", true, true), ProxyHeaderOutcome::NoHeader);
    assert_eq!(inspect_proxy_header(b"PROPFIND", true, true), ProxyHeaderOutcome::NoHeader);
    // A v1 line is no header when only v2 is accepted.
    assert_eq!(
        inspect_proxy_header(b"PROXY TCP4 1.2.3.4 5.6.7.8 1 2\r\n", false, true),
        ProxyHeaderOutcome::NoHeader
    );
}

#[test]
fn proxy_v2_header_length_is_honoured() {
    let mut buf: Vec<u8> = vec![0x0d, 0x0a, 0x0d, 0x0a, 0x00, 0x0d, 0x0a, 0x51, 0x55, 0x49, 0x54, 0x0a];
    buf.push(0x21);
    buf.push(0x11);
    buf.push(0x00);
    buf.push(0x0c);
    assert_eq!(inspect_proxy_header(&buf, true, true), ProxyHeaderOutcome::NeedMore);
    buf.extend_from_slice(&[0u8; 12]);
    assert_eq!(
        inspect_proxy_header(&buf, true, true),
        ProxyHeaderOutcome::V2Header { consumed: 28 }
    );
}

#[test]
fn overlong_proxy_v1_line_is_malformed() {
    let mut buf = b"PROXY ".to_vec();
    buf.extend_from_slice(&[b'x'; 120]);
    assert_eq!(inspect_proxy_header(&buf, true, true), ProxyHeaderOutcome::Malformed);
}
