use lanlink::lan::{
    java_receive_failure_reported, nethernet_server, parse_java_announcement, ReceiveFailure, parse_raknet_pong, raknet_ping_packet, scan_plan,
    LanServer, ScanPlan,
};
use lanlink::stun::{
    binding_request_with_id, endpoint_string, first_probe_step, new_binding_request,
    next_probe_step, parse_binding_response, stun_server, Ipv4Endpoint, ProbeStep,
    STUN_SERVER_COUNT,
};
use lanlink::text::{
    chars_of, decimal_string, decode_text, last_segment_start, signed_decimal_string, split_ranges,
};

fn xor_response(a: u8, b: u8, c: u8, d: u8, port: u16) -> Vec<u8> {
    let mut m = vec![0x01, 0x01, 0x00, 0x0c, 0x21, 0x12, 0xA4, 0x42];
    m.extend_from_slice(&[7u8; 12]);
    let p = port ^ 0x2112;
    m.extend_from_slice(&[0x00, 0x20, 0x00, 0x08, 0x00, 0x01]);
    m.extend_from_slice(&p.to_be_bytes());
    m.extend_from_slice(&[a ^ 0x21, b ^ 0x12, c ^ 0xA4, d ^ 0x42]);
    m
}

#[test]
fn decimal_rendering() {
    assert_eq!(decimal_string(0), "0");
    assert_eq!(decimal_string(7), "7");
    assert_eq!(decimal_string(25565), "25565");
    assert_eq!(decimal_string(u64::MAX as u128), u64::MAX.to_string());
    assert_eq!(signed_decimal_string(-12), "-12");
    assert_eq!(signed_decimal_string(i64::MIN), i64::MIN.to_string());
    assert_eq!(signed_decimal_string(40), "40");
}

#[test]
fn utf8_decoding() {
    assert_eq!(decode_text("Привет".as_bytes()), Some("Привет"));
    assert_eq!(decode_text(&[0xff, 0xfe]), None);
}

#[test]
fn binding_request_layout() {
    let id: Vec<u8> = (1..=12).collect();
    let req = binding_request_with_id(&id);
    assert_eq!(&req[..8], &[0x00, 0x01, 0x00, 0x00, 0x21, 0x12, 0xA4, 0x42]);
    assert_eq!(&req[8..], &id[..]);
    let fresh = new_binding_request();
    assert_eq!(fresh.len(), 20);
    assert_eq!(&fresh[..8], &[0x00, 0x01, 0x00, 0x00, 0x21, 0x12, 0xA4, 0x42]);
}

#[test]
fn xor_mapped_address_is_decoded() {
    let m = xor_response(203, 0, 113, 7, 54321);
    let e = parse_binding_response(&m).unwrap();
    assert_eq!(e, Ipv4Endpoint { a: 203, b: 0, c: 113, d: 7, port: 54321 });
    assert_eq!(endpoint_string(&e), "203.0.113.7:54321");
}

#[test]
fn mapped_address_after_other_attribute() {
    let mut m = vec![0x01, 0x01, 0x00, 0x18, 0x21, 0x12, 0xA4, 0x42];
    m.extend_from_slice(&[0u8; 12]);
    // SOFTWARE attribute, 4 bytes
    m.extend_from_slice(&[0x80, 0x22, 0x00, 0x04, b'a', b'b', b'c', b'd']);
    // MAPPED-ADDRESS 10.1.2.3:8080
    m.extend_from_slice(&[0x00, 0x01, 0x00, 0x08, 0x00, 0x01, 0x1f, 0x90, 10, 1, 2, 3]);
    assert_eq!(
        parse_binding_response(&m),
        Some(Ipv4Endpoint { a: 10, b: 1, c: 2, d: 3, port: 8080 })
    );
}

#[test]
fn non_responses_report_nothing() {
    let id = [9u8; 12];
    assert_eq!(parse_binding_response(&binding_request_with_id(&id)), None);
    assert_eq!(parse_binding_response(&[0x01, 0x01, 0x00]), None);
    // error response type 0x0111
    let mut m = xor_response(1, 2, 3, 4, 5);
    m[1] = 0x11;
    assert_eq!(parse_binding_response(&m), None);
    // IPv6 family is skipped
    let mut m = xor_response(1, 2, 3, 4, 5);
    m[25] = 0x02;
    assert_eq!(parse_binding_response(&m), None);
    // truncated attribute value
    let m = xor_response(1, 2, 3, 4, 5);
    assert_eq!(parse_binding_response(&m[..30]), None);
}

#[test]
fn probe_walks_the_servers() {
    assert_eq!(STUN_SERVER_COUNT, 3);
    assert_eq!(stun_server(0), "stun.l.google.com:19302");
    assert_eq!(stun_server(2), "stun.miwifi.com:3478");
    assert_eq!(first_probe_step(), ProbeStep::Ask(0));
    assert_eq!(next_probe_step(0, None), ProbeStep::Ask(1));
    assert_eq!(next_probe_step(1, Some(&[1, 2, 3])), ProbeStep::Ask(2));
    assert_eq!(next_probe_step(2, None), ProbeStep::Exhausted);
    let m = xor_response(1, 2, 3, 4, 5);
    assert_eq!(
        next_probe_step(2, Some(&m)),
        ProbeStep::Found(Ipv4Endpoint { a: 1, b: 2, c: 3, d: 4, port: 5 })
    );
}

#[test]
fn java_announcement_is_read() {
    let srv = parse_java_announcement(
        b"[MOTD]Steve - My World[/MOTD][AD]41234[/AD]",
        "192.168.1.5".to_string(),
    )
    .unwrap();
    assert_eq!(
        srv,
        LanServer {
            motd: "My World".to_string(),
            port: "41234".to_string(),
            ip: "192.168.1.5".to_string(),
            edition: "Java".to_string(),
            host: None,
            online: None,
        }
    );
}

#[test]
fn java_announcement_motd_after_last_separator() {
    let srv = parse_java_announcement(
        "[MOTD]a - b - Мир[/MOTD][AD]1[/AD]".as_bytes(),
        "x".to_string(),
    )
    .unwrap();
    assert_eq!(srv.motd, "Мир");
    let srv =
        parse_java_announcement(b"[MOTD]plain[/MOTD][AD]2[/AD]", "x".to_string()).unwrap();
    assert_eq!(srv.motd, "plain");
}

#[test]
fn java_announcement_takes_leftmost_shortest_match() {
    let srv = parse_java_announcement(
        b"junk[MOTD]one[/MOTD][AD]11[/AD][MOTD]two[/MOTD][AD]22[/AD]",
        "x".to_string(),
    )
    .unwrap();
    assert_eq!(srv.motd, "one");
    assert_eq!(srv.port, "11");
    // the MOTD group stretches over a closing tag that is not followed by a port
    let srv = parse_java_announcement(
        b"[MOTD]a[/MOTD]b[/MOTD][AD]3[/AD]",
        "x".to_string(),
    )
    .unwrap();
    assert_eq!(srv.motd, "a[/MOTD]b");
    assert_eq!(srv.port, "3");
}

#[test]
fn java_announcement_rejects() {
    assert_eq!(
        parse_java_announcement(b"[MOTD]a\nb[/MOTD][AD]1[/AD]", "x".to_string()),
        None
    );
    assert_eq!(parse_java_announcement(b"[MOTD]a[/MOTD][AD]1", "x".to_string()), None);
    assert_eq!(
        parse_java_announcement(&[b'[', 0xff, b']'], "x".to_string()),
        None
    );
    // a line break before the match does not matter
    let srv = parse_java_announcement(b"x\n[MOTD]m[/MOTD][AD]7[/AD]", "x".to_string()).unwrap();
    assert_eq!(srv.port, "7");
}

#[test]
fn raknet_ping_layout() {
    let p = raknet_ping_packet(0x0102030405060708);
    assert_eq!(p.len(), 33);
    assert_eq!(p[0], 0x01);
    assert_eq!(&p[1..9], &[1, 2, 3, 4, 5, 6, 7, 8]);
    assert_eq!(
        &p[9..25],
        &[0x00, 0xff, 0xff, 0x00, 0xfe, 0xfe, 0xfe, 0xfe, 0xfd, 0xfd, 0xfd, 0xfd, 0x12, 0x34, 0x56, 0x78]
    );
    assert_eq!(&p[25..], &[0u8; 8]);
}

fn pong(text: &str) -> Vec<u8> {
    let mut p = vec![0x1Cu8];
    p.extend_from_slice(&[0u8; 32]);
    p.extend_from_slice(&(text.len() as u16).to_be_bytes());
    p.extend_from_slice(text.as_bytes());
    p
}

#[test]
fn raknet_pong_is_read() {
    let p = pong("MCPE;Dedicated Server;390;1.14.60;3;10;13253860892328930865;Bedrock level;Survival;1;19132;19133;");
    let srv = parse_raknet_pong(&p, "10.0.0.2".to_string()).unwrap();
    assert_eq!(
        srv,
        LanServer {
            motd: "Bedrock level".to_string(),
            port: "19132".to_string(),
            ip: "10.0.0.2".to_string(),
            edition: "Bedrock".to_string(),
            host: Some("Dedicated Server".to_string()),
            online: Some("3/10".to_string()),
        }
    );
    let p = pong("MCPE;Host;1;v;0;8;id;World");
    let srv = parse_raknet_pong(&p, "h".to_string()).unwrap();
    assert_eq!(srv.port, "19132");
    assert_eq!(srv.online, Some("0/8".to_string()));
}

#[test]
fn raknet_pong_rejects() {
    assert!(parse_raknet_pong(&pong("MCPE;a;b;c;d;e;f"), "h".to_string()).is_none());
    let mut p = pong("MCPE;a;b;c;d;e;f;g");
    p[0] = 0x1D;
    assert!(parse_raknet_pong(&p, "h".to_string()).is_none());
    let mut p = pong("MCPE;a;b;c;d;e;f;g");
    p[34] += 1; // claims one byte more than sent
    assert!(parse_raknet_pong(&p, "h".to_string()).is_none());
    let mut p = pong("MCPE;a;b;c;d;e;f;g");
    p[40] = 0xff;
    assert!(parse_raknet_pong(&p, "h".to_string()).is_none());
    assert!(parse_raknet_pong(&[0x1C; 35], "h".to_string()).is_none());
}

#[test]
fn nethernet_entry() {
    let srv = nethernet_server("Lvl".to_string(), "Srv".to_string(), 2, 10, None);
    assert_eq!(srv.ip, "127.0.0.1");
    assert_eq!(srv.port, "19132");
    assert_eq!(srv.online, Some("2/10".to_string()));
    assert_eq!(srv.host, Some("Srv".to_string()));
    assert_eq!(srv.motd, "Lvl");
    let srv = nethernet_server("L".to_string(), "S".to_string(), 0, 5, Some("192.168.0.9".to_string()));
    assert_eq!(srv.ip, "192.168.0.9");
}

#[test]
fn scan_plans() {
    assert_eq!(scan_plan("java"), ScanPlan { java: true, bedrock: false });
    assert_eq!(scan_plan("bedrock"), ScanPlan { java: false, bedrock: true });
    assert_eq!(scan_plan("Java"), ScanPlan { java: false, bedrock: false });
}

#[test]
fn split_pieces_rejoin() {
    let text = "a;;bc;";
    let m = chars_of(text);
    let r = split_ranges(&m, ';');
    let pieces: Vec<String> = r.iter().map(|&(a, b)| m[a..b].iter().collect()).collect();
    assert_eq!(pieces, vec!["a", "", "bc", ""]);
    assert_eq!(pieces.join(";"), text);
    assert_eq!(split_ranges(&chars_of(""), ';'), vec![(0, 0)]);
}

#[test]
fn last_piece_after_separator() {
    let sep = chars_of(" - ");
    assert_eq!(last_segment_start(&chars_of("x - y - z"), &sep), 8);
    assert_eq!(last_segment_start(&chars_of("plain"), &sep), 0);
    // non-overlapping, left to right: "a - - b" splits at index 1 only
    assert_eq!(last_segment_start(&chars_of("a - - b"), &sep), 4);
    let s = "a - - b";
    assert_eq!(s.split(" - ").last(), Some("- b"));
}

#[test]
fn java_receive_failures() {
    assert!(!java_receive_failure_reported(ReceiveFailure::WouldBlock));
    assert!(!java_receive_failure_reported(ReceiveFailure::TimedOut));
    assert!(java_receive_failure_reported(ReceiveFailure::Other));
}
