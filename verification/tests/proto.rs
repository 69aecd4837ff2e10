use rspf::net::IpAddress;
use rspf::proto::{Action, PolicyRequest, PolicyRequestCodec, ProtoError, RequestParseError};

fn lines(raw: &[&str]) -> Vec<String> {
    raw.iter().map(|s| s.to_string()).collect()
}

fn decode_all(chunks: &[&[u8]]) -> Vec<PolicyRequest> {
    let mut codec = PolicyRequestCodec;
    let mut buf: Vec<u8> = Vec::new();
    let mut out = Vec::new();
    for chunk in chunks {
        buf.extend_from_slice(chunk);
        while let Some(req) = codec.decode(&mut buf).unwrap() {
            out.push(req);
        }
    }
    out
}

#[test]
fn decodes_single_request() {
    let raw = b"request=smtpd_access_policy\nclient_address=192.0.2.10\n\n";
    let reqs = decode_all(&[raw]);
    assert_eq!(reqs.len(), 1);
    assert_eq!(reqs[0].client_address.as_deref(), Some("192.0.2.10"));
}

#[test]
fn buffers_partial_reads_across_multiple_chunks() {
    let reqs = decode_all(&[
        b"request=smtpd_access",
        b"_policy\nclient_addr",
        b"ess=192.0.2.10\n",
        b"\n",
    ]);
    assert_eq!(reqs.len(), 1);
    assert_eq!(reqs[0].request.as_deref(), Some("smtpd_access_policy"));
    assert_eq!(reqs[0].client_address.as_deref(), Some("192.0.2.10"));
}

#[test]
fn decodes_pipelined_requests_in_one_buffer() {
    let raw = b"client_address=192.0.2.10\n\nclient_address=192.0.2.20\n\n";
    let reqs = decode_all(&[raw]);
    assert_eq!(reqs.len(), 2);
    assert_eq!(reqs[0].client_address.as_deref(), Some("192.0.2.10"));
    assert_eq!(reqs[1].client_address.as_deref(), Some("192.0.2.20"));
}

#[test]
fn incomplete_request_yields_none() {
    let mut codec = PolicyRequestCodec;
    let mut buf: Vec<u8> = b"client_address=192.0.2.10\n".to_vec();
    assert!(codec.decode(&mut buf).unwrap().is_none());
}

#[test]
fn malformed_line_is_a_decode_error() {
    let mut codec = PolicyRequestCodec;
    let mut buf: Vec<u8> = b"not_a_kv_pair\n\n".to_vec();
    assert!(codec.decode(&mut buf).is_err());
}

#[test]
fn encodes_action_with_terminator() {
    let mut codec = PolicyRequestCodec;
    let mut buf: Vec<u8> = Vec::new();
    codec.encode(Action::Dunno, &mut buf).unwrap();
    assert_eq!(&buf[..], b"action=dunno\n\n");
}

#[test]
fn parses_known_attributes() {
    let req = PolicyRequest::from_lines(&lines(&[
        "request=smtpd_access_policy",
        "protocol_state=RCPT",
        "helo_name=mail.example.com",
        "sender=user@example.com",
        "recipient=postmaster@ourdomain.com",
        "client_address=192.0.2.10",
        "instance=123.456.7",
    ]))
    .unwrap();
    assert_eq!(req.request.as_deref(), Some("smtpd_access_policy"));
    assert_eq!(req.protocol_state.as_deref(), Some("RCPT"));
    assert_eq!(req.helo_name.as_deref(), Some("mail.example.com"));
    assert_eq!(req.sender.as_deref(), Some("user@example.com"));
    assert_eq!(
        req.client_ip().unwrap(),
        IpAddress::parse("192.0.2.10").unwrap()
    );
    assert_eq!(
        req.client_ip().unwrap(),
        IpAddress::V4(0xc000_020a)
    );
}

#[test]
fn unknown_attributes_go_to_extra() {
    let req = PolicyRequest::from_lines(&lines(&["sasl_method=plain", "size=1024"])).unwrap();
    assert_eq!(req.extra.get("sasl_method").map(|s| s.as_str()), Some("plain"));
    assert_eq!(req.extra.get("size").map(|s| s.as_str()), Some("1024"));
}

#[test]
fn empty_value_is_allowed() {
    let req = PolicyRequest::from_lines(&lines(&["sender="])).unwrap();
    assert_eq!(req.sender.as_deref(), Some(""));
}

#[test]
fn rejects_line_without_equals() {
    let err = PolicyRequest::from_lines(&lines(&["not_a_kv_pair"])).unwrap_err();
    assert_eq!(
        err,
        RequestParseError::MalformedLine("not_a_kv_pair".to_string())
    );
}

#[test]
fn rejects_empty_request() {
    let err = PolicyRequest::from_lines(&[]).unwrap_err();
    assert_eq!(err, RequestParseError::EmptyRequest);
}

#[test]
fn client_ip_missing() {
    let req = PolicyRequest::from_lines(&lines(&["sender=a@b.com"])).unwrap();
    assert_eq!(
        req.client_ip().unwrap_err(),
        RequestParseError::MissingClientAddress
    );
}

#[test]
fn client_ip_invalid() {
    let req = PolicyRequest::from_lines(&lines(&["client_address=not-an-ip"])).unwrap();
    assert_eq!(
        req.client_ip().unwrap_err(),
        RequestParseError::InvalidClientAddress("not-an-ip".to_string())
    );
}

#[test]
fn parses_ipv6_client_address() {
    let req = PolicyRequest::from_lines(&lines(&["client_address=2001:db8::1"])).unwrap();
    assert_eq!(
        req.client_ip().unwrap(),
        IpAddress::V6(0x2001_0db8_0000_0000_0000_0000_0000_0001)
    );
}

#[test]
fn dunno_wire_format() {
    assert_eq!(Action::Dunno.to_wire(), "action=dunno\n\n");
}

#[test]
fn prepend_wire_format() {
    let action = Action::Prepend("Received-SPF: pass".to_string());
    assert_eq!(action.to_wire(), "action=PREPEND Received-SPF: pass\n\n");
}

#[test]
fn reject_wire_format() {
    let action = Action::Reject("550 5.7.1 SPF check failed".to_string());
    assert_eq!(action.to_wire(), "action=550 5.7.1 SPF check failed\n\n");
}

#[test]
fn defer_if_permit_wire_format() {
    let action = Action::DeferIfPermit("4.7.1 temporary DNS error".to_string());
    assert_eq!(
        action.to_wire(),
        "action=defer_if_permit 4.7.1 temporary DNS error\n\n"
    );
}

// --- further scenarios ---

#[test]
fn decode_consumes_only_the_first_block() {
    let mut codec = PolicyRequestCodec;
    let mut buf: Vec<u8> = b"sender=a@b.c\n\nclient_address=1".to_vec();
    let req = codec.decode(&mut buf).unwrap().unwrap();
    assert_eq!(req.sender.as_deref(), Some("a@b.c"));
    assert_eq!(buf, b"client_address=1".to_vec());
}

#[test]
fn decode_keeps_carriage_returns_and_replaces_bad_utf8() {
    let mut codec = PolicyRequestCodec;
    let mut buf: Vec<u8> = b"helo_name=mx\r\nsender=a\xffb\n\n".to_vec();
    let req = codec.decode(&mut buf).unwrap().unwrap();
    assert_eq!(req.helo_name.as_deref(), Some("mx\r"));
    assert_eq!(req.sender.as_deref(), Some("a\u{fffd}b"));
}

#[test]
fn empty_block_is_a_parse_error() {
    let mut codec = PolicyRequestCodec;
    let mut buf: Vec<u8> = b"\n\n".to_vec();
    assert!(matches!(
        codec.decode(&mut buf),
        Err(ProtoError::Parse(RequestParseError::EmptyRequest))
    ));
}

#[test]
fn later_attribute_overwrites_earlier() {
    let req = PolicyRequest::from_lines(&lines(&["sender=a", "sender=b", "x=1", "x=2"])).unwrap();
    assert_eq!(req.sender.as_deref(), Some("b"));
    assert_eq!(req.extra.get("x").map(|s| s.as_str()), Some("2"));
}

#[test]
fn value_may_contain_equals() {
    let req = PolicyRequest::from_lines(&lines(&["instance=a=b"])).unwrap();
    assert_eq!(req.instance.as_deref(), Some("a=b"));
}

#[test]
fn action_display_text() {
    assert_eq!(Action::Dunno.to_string(), "action=dunno");
    assert_eq!(
        Action::Reject("550 no".to_string()).to_string(),
        "action=550 no"
    );
}

#[test]
fn decode_reports_the_first_malformed_line() {
    let mut codec = PolicyRequestCodec;
    let mut buf: Vec<u8> = b"a=1\nbad\nworse\n\nrest".to_vec();
    assert!(matches!(
        codec.decode(&mut buf),
        Err(ProtoError::Parse(RequestParseError::MalformedLine(l))) if l == "bad"
    ));
    assert_eq!(buf, b"rest".to_vec());
}

#[test]
fn attributes_compare_as_maps() {
    let mut a = rspf::proto::Attributes::new();
    a.insert("x".to_string(), "1".to_string());
    a.insert("y".to_string(), "2".to_string());
    let mut b = rspf::proto::Attributes::new();
    b.insert("y".to_string(), "2".to_string());
    b.insert("x".to_string(), "0".to_string());
    assert_ne!(a, b);
    b.insert("x".to_string(), "1".to_string());
    assert_eq!(a, b);
    b.insert("z".to_string(), "3".to_string());
    assert_ne!(a, b);
    assert_ne!(b, a);
}
