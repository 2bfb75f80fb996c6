use lanlink::json::Json;
use lanlink::lobby::{
    channel_url, flatten_lobby, host_presence_event, host_presence_payload, host_started_log_line, lobby_event,
    lobby_channel_name, lobby_messages, lobby_read_error, lobby_url, publish_body, publish_error,
    sse_url, MAX_PLAYERS,
};
use lanlink::p2p::{
    geolocation_url, location_label, peer_connected_event, peer_disconnected_event,
    peer_ping_event, GeoAnswer,
};
use lanlink::status::{
    client_id_for, first_peer_address, get_status, loopback_address, new_client_id,
    after_tunnel_start, publish_outcome_log, record_hosting_started, record_peer_connected,
    stop_hosting, AppStatus, HostingStep,
};
use lanlink::tls::{certificate_from, certificate_names, generate_cert, DummyCertificateVerifier, VerifyScheme};

fn s(x: &str) -> String {
    x.to_string()
}

fn obj(entries: Vec<(&str, Json)>) -> Json {
    Json::Object(entries.into_iter().map(|(k, v)| (k.to_string(), v)).collect())
}

fn get<'a>(j: &'a Json, key: &str) -> Option<&'a Json> {
    match j {
        Json::Object(f) => f.iter().find(|(k, _)| k == key).map(|(_, v)| v),
        _ => None,
    }
}

#[test]
fn lobby_urls() {
    assert_eq!(lobby_url(), "http://2.26.87.126:7700/channels/minecraft-lobby/messages");
    assert_eq!(channel_url(lobby_channel_name()), lobby_url());
    assert_eq!(channel_url("lobby:abc"), "http://2.26.87.126:7700/channels/lobby:abc/messages");
    assert_eq!(sse_url("client-7"), "http://2.26.87.126:7700/sse?channels=minecraft-lobby,lobby:client-7");
    assert_eq!(host_presence_event(), "host-presence");
}

#[test]
fn reply_status_errors() {
    assert_eq!(lobby_read_error(200, "200 OK"), None);
    assert_eq!(lobby_read_error(299, "299"), None);
    assert_eq!(lobby_read_error(404, "404 Not Found"), Some(s("Server returned: 404 Not Found")));
    assert_eq!(publish_error(204, "204 No Content"), None);
    assert_eq!(publish_error(500, "500 Internal Server Error"), Some(s("Failed to publish: 500 Internal Server Error")));
    assert_eq!(publish_error(199, "199"), Some(s("Failed to publish: 199")));
}

#[test]
fn publish_body_wraps_payload() {
    let body = publish_body(s("host-presence"), s("client-1"), Json::Bool(true));
    assert_eq!(
        body,
        obj(vec![
            ("name", Json::Str(s("host-presence"))),
            ("clientId", Json::Str(s("client-1"))),
            ("data", Json::Bool(true)),
        ])
    );
}

#[test]
fn lobby_reply_elements() {
    assert_eq!(lobby_messages(Json::Array(vec![Json::Null, Json::Bool(false)])), vec![Json::Null, Json::Bool(false)]);
    assert_eq!(lobby_messages(obj(vec![("a", Json::Null)])), Vec::<Json>::new());
}

#[test]
fn lobby_flattening() {
    let msgs = vec![
        obj(vec![
            ("name", Json::Str(s("host-presence"))),
            ("clientId", Json::Str(s("client-1"))),
            ("data", obj(vec![("room_name", Json::Str(s("R"))), ("port", Json::Number(s("25565")))])),
        ]),
        obj(vec![("data", Json::Str(s("not an object")))]),
        Json::Str(s("junk")),
        obj(vec![("data", obj(vec![("x", Json::Null)]))]),
        obj(vec![
            ("data", obj(vec![("client_id", Json::Str(s("old"))), ("y", Json::Bool(true))])),
            ("clientId", Json::Number(s("3"))),
        ]),
    ];
    let list = flatten_lobby(msgs);
    assert_eq!(
        list,
        vec![
            obj(vec![
                ("room_name", Json::Str(s("R"))),
                ("port", Json::Number(s("25565"))),
                ("client_id", Json::Str(s("client-1"))),
            ]),
            obj(vec![("x", Json::Null)]),
            obj(vec![("client_id", Json::Number(s("3"))), ("y", Json::Bool(true))]),
        ]
    );
}

#[test]
fn host_presence_defaults() {
    let p = host_presence_payload(None, None, None, None, 25565, None);
    assert_eq!(get(&p, "room_name"), Some(&Json::Str(s("My Server"))));
    assert_eq!(get(&p, "host_name"), Some(&Json::Str(s("Player"))));
    assert_eq!(get(&p, "nickname"), Some(&Json::Str(s("Player"))));
    assert_eq!(get(&p, "version"), Some(&Json::Str(s("java"))));
    assert_eq!(get(&p, "port"), Some(&Json::Number(s("25565"))));
    assert_eq!(get(&p, "public_ip"), Some(&Json::Null));
    assert_eq!(get(&p, "public_join_address"), Some(&Json::Str(s(""))));
    assert_eq!(get(&p, "is_quic"), Some(&Json::Bool(true)));
    assert_eq!(get(&p, "requirePassword"), Some(&Json::Bool(false)));
    assert_eq!(get(&p, "maxPlayers"), Some(&Json::Number(s("30"))));
    assert_eq!(get(&p, "playerCount"), Some(&Json::Number(s("0"))));
    assert_eq!(get(&p, "slots"), Some(&Json::Str(s("0/30"))));
    assert_eq!(MAX_PLAYERS, 30);
    match &p {
        Json::Object(f) => assert_eq!(f.len(), 18),
        _ => panic!("not an object"),
    }
}

#[test]
fn host_presence_given_values() {
    let p = host_presence_payload(
        Some(s("Room")),
        Some(s("Alex")),
        Some(s("1.21")),
        Some(true),
        40000,
        Some(s("198.51.100.4:6000")),
    );
    assert_eq!(get(&p, "room_name"), Some(&Json::Str(s("Room"))));
    assert_eq!(get(&p, "nickname"), Some(&Json::Str(s("Alex"))));
    assert_eq!(get(&p, "minecraft_version"), Some(&Json::Str(s("1.21"))));
    assert_eq!(get(&p, "has_password"), Some(&Json::Bool(true)));
    assert_eq!(get(&p, "public_ip"), Some(&Json::Str(s("198.51.100.4:6000"))));
    assert_eq!(get(&p, "public_join_address"), Some(&Json::Str(s("198.51.100.4:6000"))));
}

fn serde_record(port: u16, addr: Option<&str>) -> String {
    let mut m = serde_json::Map::new();
    m.insert("type".to_string(), serde_json::Value::String("host_started".to_string()));
    m.insert("local_port".to_string(), serde_json::Value::from(port));
    m.insert(
        "public_address".to_string(),
        match addr {
            Some(a) => serde_json::Value::String(a.to_string()),
            None => serde_json::Value::Null,
        },
    );
    m.insert("event".to_string(), serde_json::Value::String("Ожидаем игроков...".to_string()));
    serde_json::to_string(&serde_json::Value::Object(m)).unwrap()
}

#[test]
fn host_started_log_text() {
    assert_eq!(
        host_started_log_line(5000, &Some(s("1.2.3.4:5"))),
        "{\"event\":\"Ожидаем игроков...\",\"local_port\":5000,\"public_address\":\"1.2.3.4:5\",\"type\":\"host_started\"}"
    );
    for (port, addr) in [(0u16, None), (65535, Some("a\"b\\c\n\u{1}é")), (25565, Some("203.0.113.9:40000"))] {
        assert_eq!(host_started_log_line(port, &addr.map(|a| a.to_string())), serde_record(port, addr));
    }
}

#[test]
fn lobby_event_text() {
    assert_eq!(lobby_event(s("{\"channel\":\"x\"}")), Some(s("{\"channel\":\"x\"}")));
    assert_eq!(lobby_event(s("[1, 2]")), Some(s("[1, 2]")));
    assert_eq!(lobby_event(s("not json")), None);
    assert_eq!(lobby_event(s("")), None);
}

#[test]
fn status_lifecycle() {
    let mut st = AppStatus::initial(s("client-42"));
    assert_eq!(st.mode, "idle");
    assert_eq!(st.state, "idle");
    assert!(st.logs.is_empty());
    let shown = record_hosting_started(&mut st, 51000, Some(s("9.9.9.9:1")));
    assert_eq!(shown, "51000");
    assert_eq!(st.mode, "host");
    assert_eq!(st.state, "hosting");
    assert_eq!(st.local_game_port, Some(51000));
    assert_eq!(st.max_players, Some(30));
    assert_eq!(st.public_udp_addr, Some(s("9.9.9.9:1")));
    assert_eq!(st.logs, vec![serde_record(51000, Some("9.9.9.9:1"))]);
    assert_eq!(get_status(&st), st);
    stop_hosting(&mut st);
    assert_eq!(st.mode, "idle");
    assert_eq!(st.state, "idle");
    assert_eq!(st.local_game_port, Some(51000));
    assert_eq!(st.logs.len(), 1);
    let before = get_status(&st);
    stop_hosting(&mut st);
    assert_eq!(st, before);
    let local = record_peer_connected(&mut st, 60000);
    assert_eq!(local, "127.0.0.1:60000");
    assert_eq!(st.mode, "client");
    assert_eq!(st.state, "connected");
    assert_eq!(st.logs[1], "Подключено! Заходите на 127.0.0.1:60000");
    assert_eq!(st.client_id, "client-42");
}

#[test]
fn default_status_is_empty() {
    let st = AppStatus::default();
    assert_eq!(st.mode, "");
    assert!(st.logs.is_empty());
    assert_eq!(st.local_game_port, None);
}

#[test]
fn peer_addresses() {
    assert_eq!(first_peer_address(&vec![]), Err(s("Нет адресов для подключения")));
    assert_eq!(first_peer_address(&vec![s("1.2.3.4:5"), s("6.7.8.9:1")]), Ok(s("1.2.3.4:5")));
    assert_eq!(loopback_address(25565), "127.0.0.1:25565");
}

#[test]
fn client_ids() {
    assert_eq!(client_id_for(0), "client-0");
    assert_eq!(client_id_for(65535), "client-65535");
    let id = new_client_id();
    let n: u16 = id.strip_prefix("client-").unwrap().parse().unwrap();
    assert_eq!(id, format!("client-{}", n));
}

#[test]
fn geolocation() {
    assert_eq!(geolocation_url("8.8.8.8"), "http://ip-api.com/json/8.8.8.8?lang=ru");
    assert_eq!(location_label(None), "Неизвестно");
    assert_eq!(location_label(Some(GeoAnswer { city: None, country: None })), "Неизвестно");
    assert_eq!(location_label(Some(GeoAnswer { city: Some(s("")), country: Some(s("")) })), "Неизвестно");
    assert_eq!(location_label(Some(GeoAnswer { city: Some(s("Москва")), country: Some(s("Россия")) })), "Москва, Россия");
    assert_eq!(location_label(Some(GeoAnswer { city: None, country: Some(s("France")) })), ", France");
}

#[test]
fn peer_events() {
    assert_eq!(
        peer_connected_event(s("1.1.1.1"), s("X, Y")),
        obj(vec![("ip", Json::Str(s("1.1.1.1"))), ("location", Json::Str(s("X, Y"))), ("rtt_ms", Json::Number(s("0")))])
    );
    assert_eq!(
        peer_ping_event(s("1.1.1.1"), 42),
        obj(vec![("ip", Json::Str(s("1.1.1.1"))), ("rtt_ms", Json::Number(s("42")))])
    );
    assert_eq!(peer_disconnected_event(s("2.2.2.2")), obj(vec![("ip", Json::Str(s("2.2.2.2")))]));
}

#[test]
fn self_signed_certificate() {
    let c = generate_cert().unwrap();
    assert_eq!(c.cert_chain.len(), 1);
    assert!(!c.cert_chain[0].is_empty());
    assert_eq!(c.cert_chain[0][0], 0x30); // DER SEQUENCE
    assert!(!c.key_der.is_empty());
}

#[test]
fn verifier_schemes() {
    assert_eq!(
        DummyCertificateVerifier.supported_verify_schemes(),
        vec![
            VerifyScheme::RsaPssSha256,
            VerifyScheme::EcdsaNistp256Sha256,
            VerifyScheme::Ed25519,
            VerifyScheme::RsaPssSha384,
            VerifyScheme::RsaPssSha512,
        ]
    );
}

#[test]
fn certificate_outcomes() {
    let c = certificate_from(Ok((vec![1, 2], vec![3]))).unwrap();
    assert_eq!(c.cert_chain, vec![vec![1, 2]]);
    assert_eq!(c.key_der, vec![3]);
    let e = certificate_from(Err(rcgen::Error::CouldNotParseCertificate));
    assert!(e.is_err());
    assert!(!e.err().unwrap().is_empty());
}

#[test]
fn certificate_is_for_localhost() {
    assert_eq!(certificate_names(), vec![s("localhost")]);
}

#[test]
fn hosting_steps() {
    match after_tunnel_start(Ok((4000, Some(s("1.2.3.4:5"))))) {
        HostingStep::Publish { port, public_address } => {
            assert_eq!(port, 4000);
            assert_eq!(public_address, Some(s("1.2.3.4:5")));
        }
        HostingStep::Abort { .. } => panic!("should publish"),
    }
    match after_tunnel_start(Err(s("bind failed"))) {
        HostingStep::Abort { log_line, error } => {
            assert_eq!(log_line, "run_host failed: bind failed");
            assert_eq!(error, "bind failed");
        }
        HostingStep::Publish { .. } => panic!("should abort"),
    }
    assert_eq!(publish_outcome_log(&Ok(())), "Опубликовано успешно");
    assert_eq!(publish_outcome_log(&Err(s("Failed to publish: 500"))), "Ошибка публикации: Failed to publish: 500");
}

#[test]
fn log_line_escapes_every_control_character() {
    let mut addr = String::new();
    for b in 0u8..0x80 {
        addr.push(b as char);
    }
    addr.push_str("Ωé\u{10348}");
    assert_eq!(host_started_log_line(7, &Some(addr.clone())), serde_record(7, Some(&addr)));
}
