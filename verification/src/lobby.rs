//! The lobby signalling service: its URLs, the bodies published to it, the
//! reading of its replies, and the presence a host publishes.
use vstd::prelude::*;
use crate::json::{flat, keyed, lookup, scalar_of, set_entry, take_two, with_entry, Json, JsonScalar};
use crate::text::{concat, decimal, decimal_string};

verus! {

/// Base URL of the lobby service.
pub open spec fn lobby_base() -> Seq<char> {
    "http://2.26.87.126:7700"@
}

/// Base URL of the lobby service.
pub fn lobby_base_url() -> (s: &'static str)
    ensures
        s@ == lobby_base(),
{
    "http://2.26.87.126:7700"
}

/// The channel that lists the hosted games.
pub open spec fn lobby_channel() -> Seq<char> {
    "minecraft-lobby"@
}

/// The channel that lists the hosted games.
pub fn lobby_channel_name() -> (s: &'static str)
    ensures
        s@ == lobby_channel(),
{
    "minecraft-lobby"
}

/// The event under which a host announces itself.
pub fn host_presence_event() -> (s: &'static str)
    ensures
        s@ == "host-presence"@,
{
    "host-presence"
}

/// URL of the messages of `channel`.
pub open spec fn channel_messages_url(channel: Seq<char>) -> Seq<char> {
    lobby_base() + "/channels/"@ + channel + "/messages"@
}

/// URL of the messages of `channel`, to publish to.
pub fn channel_url(channel: &str) -> (s: String)
    ensures
        s@ == channel_messages_url(channel@),
{
    let mut s = String::from_str(lobby_base_url());
    s.append("/channels/");
    s.append(channel);
    s.append("/messages");
    s
}

/// URL the lobby is read from.
pub open spec fn lobby_read_url() -> Seq<char> {
    lobby_base() + "/channels/minecraft-lobby/messages"@
}

/// URL the lobby is read from.
pub fn lobby_url() -> (s: String)
    ensures
        s@ == lobby_read_url(),
{
    concat(lobby_base_url(), "/channels/minecraft-lobby/messages")
}

/// The lobby is read from the channel that hosts publish their presence to,
/// so a refresh sees what a host published.
pub proof fn lobby_read_from_presence_channel()
    ensures
        lobby_read_url() == channel_messages_url(lobby_channel()),
{
    reveal_strlit("/channels/minecraft-lobby/messages");
    reveal_strlit("/channels/");
    reveal_strlit("minecraft-lobby");
    reveal_strlit("/messages");
    assert(lobby_read_url() =~= channel_messages_url(lobby_channel()));
}

/// URL of the event stream for the lobby channel and the client's own channel.
pub open spec fn event_stream_url(client_id: Seq<char>) -> Seq<char> {
    lobby_base() + "/sse?channels=minecraft-lobby,lobby:"@ + client_id
}

/// URL of the event stream for the lobby channel and `lobby:<client_id>`.
pub fn sse_url(client_id: &str) -> (s: String)
    ensures
        s@ == event_stream_url(client_id@),
{
    let mut s = String::from_str(lobby_base_url());
    s.append("/sse?channels=minecraft-lobby,lobby:");
    s.append(client_id);
    s
}

/// An HTTP status in the 2xx range.
pub open spec fn is_success(status: u16) -> bool {
    200 <= status <= 299
}

/// The error a lobby read ends with for reply status `status`
/// (`status_text` is how the status prints), or `None` when it succeeded.
pub fn lobby_read_error(status: u16, status_text: &str) -> (e: Option<String>)
    ensures
        e is None <==> is_success(status),
        e matches Some(m) ==> m@ == "Server returned: "@ + status_text@,
{
    if 200 <= status && status <= 299 {
        None
    } else {
        Some(concat("Server returned: ", status_text))
    }
}

/// The error a publish ends with for reply status `status`, or `None` when
/// it succeeded.
pub fn publish_error(status: u16, status_text: &str) -> (e: Option<String>)
    ensures
        e is None <==> is_success(status),
        e matches Some(m) ==> m@ == "Failed to publish: "@ + status_text@,
{
    if 200 <= status && status <= 299 {
        None
    } else {
        Some(concat("Failed to publish: ", status_text))
    }
}

/// The body published for event `event_name` from `client_id`.
pub fn publish_body(event_name: String, client_id: String, payload: Json) -> (body: Json)
    ensures
        body matches Json::Object(f) && keyed(f@) == seq![
            ("name"@, Json::Str(event_name)),
            ("clientId"@, Json::Str(client_id)),
            ("data"@, payload),
        ],
{
    let ghost (en, ci, pl) = (event_name, client_id, payload);
    let mut f: Vec<(String, Json)> = Vec::new();
    f.push((String::from_str("name"), Json::Str(event_name)));
    f.push((String::from_str("clientId"), Json::Str(client_id)));
    f.push((String::from_str("data"), payload));
    assert(keyed(f@) =~= seq![("name"@, Json::Str(en)), ("clientId"@, Json::Str(ci)), ("data"@, pl)]);
    Json::Object(f)
}

/// The messages in a lobby reply: the elements when it is an array, none
/// otherwise.
pub fn lobby_messages(body: Json) -> (msgs: Vec<Json>)
    ensures
        match body {
            Json::Array(v) => msgs == v,
            _ => msgs@.len() == 0,
        },
{
    match body {
        Json::Array(v) => v,
        _ => Vec::new(),
    }
}

} // verus!

verus! {

/// What one lobby message becomes in the lobby list: the entries of its
/// `data` object, with `client_id` set to its `clientId` when it has one;
/// nothing when `data` is missing or not an object.
pub open spec fn flattened_entry(msg: Json) -> Option<Seq<(Seq<char>, Json)>> {
    match msg {
        Json::Object(entries) => match lookup(keyed(entries@), "data"@) {
            Some(Json::Object(fields)) => Some(
                match lookup(keyed(entries@), "clientId"@) {
                    Some(c) => with_entry(keyed(fields@), "client_id"@, c),
                    None => keyed(fields@),
                },
            ),
            _ => None,
        },
        _ => None,
    }
}

/// The lobby list made of the messages, in order.
pub open spec fn flattened(msgs: Seq<Json>) -> Seq<Seq<(Seq<char>, Json)>>
    decreases msgs.len(),
{
    if msgs.len() == 0 {
        seq![]
    } else {
        match flattened_entry(msgs.last()) {
            Some(e) => flattened(msgs.drop_last()).push(e),
            None => flattened(msgs.drop_last()),
        }
    }
}

fn flatten_entry(msg: Json) -> (r: Option<Vec<(String, Json)>>)
    ensures
        match r {
            Some(f) => flattened_entry(msg) == Some(keyed(f@)),
            None => flattened_entry(msg) is None,
        },
{
    proof {
        reveal_strlit("data");
        reveal_strlit("clientId");
        assert("data"@.len() != "clientId"@.len());
    }
    match msg {
        Json::Object(entries) => {
            let (data, client) = take_two(entries, "data", "clientId");
            match data {
                Some(Json::Object(fields)) => match client {
                    Some(c) => Some(set_entry(fields, String::from_str("client_id"), c)),
                    None => Some(fields),
                },
                _ => None,
            }
        },
        _ => None,
    }
}

/// Turns the lobby messages into the lobby list: each message whose `data`
/// is an object becomes that object, tagged with the sender's `client_id`.
pub fn flatten_lobby(msgs: Vec<Json>) -> (list: Vec<Json>)
    ensures
        list.len() == flattened(msgs@).len(),
        forall|j: int|
            0 <= j < list.len() ==> (#[trigger] list@[j] matches Json::Object(f) && keyed(f@)
                == flattened(msgs@)[j]),
{
    let ghost all = msgs@;
    let mut list: Vec<Json> = Vec::new();
    for msg in it: msgs
        invariant
            it.seq() == all,
            list.len() == flattened(all.take(it.index() as int)).len(),
            forall|j: int|
                0 <= j < list.len() ==> (#[trigger] list@[j] matches Json::Object(f) && keyed(f@)
                    == flattened(all.take(it.index() as int))[j]),
    {
        let ghost i = it.index() as int;
        let ghost m = msg;
        proof {
            assert(all.take(i + 1).drop_last() =~= all.take(i));
            assert(all.take(i + 1).last() == m);
        }
        let ghost before = list@;
        match flatten_entry(msg) {
            Some(f) => {
                list.push(Json::Object(f));
                assert(list@ == before.push(Json::Object(f)));
            },
            None => {},
        }
    }
    proof {
        assert(all.take(all.len() as int) =~= all);
    }
    list
}

} // verus!

verus! {

/// The text, or `default` when there is none.
pub open spec fn text_or(o: Option<String>, default: Seq<char>) -> Seq<char> {
    match o {
        Some(s) => s@,
        None => default,
    }
}

/// Most players a hosted game admits.
pub const MAX_PLAYERS: u32 = 30;

/// The presence a host publishes to the lobby: room, host name (also as
/// nickname) and game version under their several keys, with the defaults
/// "My Server", "Player" and "java"; the port; the public address (null when
/// unknown, and as an empty join address); whether a password is required
/// (default no); room for 30 players, none yet.
pub open spec fn host_presence_fields(
    room_name: Option<String>,
    host_name: Option<String>,
    game_version: Option<String>,
    require_password: Option<bool>,
    port: u16,
    public_address: Option<String>,
) -> Seq<(Seq<char>, JsonScalar)> {
    let room = text_or(room_name, "My Server"@);
    let host = text_or(host_name, "Player"@);
    let version = text_or(game_version, "java"@);
    let pw = match require_password {
        Some(b) => b,
        None => false,
    };
    seq![
        ("room_name"@, JsonScalar::Text(room)),
        ("host_name"@, JsonScalar::Text(host)),
        ("nickname"@, JsonScalar::Text(host)),
        ("minecraft_version"@, JsonScalar::Text(version)),
        ("game_version"@, JsonScalar::Text(version)),
        ("version"@, JsonScalar::Text(version)),
        ("port"@, JsonScalar::Number(decimal(port as nat))),
        ("public_ip"@, match public_address {
            Some(a) => JsonScalar::Text(a@),
            None => JsonScalar::Null,
        }),
        ("public_join_address"@, JsonScalar::Text(text_or(public_address, ""@))),
        ("is_quic"@, JsonScalar::Bool(true)),
        ("has_password"@, JsonScalar::Bool(pw)),
        ("requirePassword"@, JsonScalar::Bool(pw)),
        ("max_players"@, JsonScalar::Number(decimal(30))),
        ("players_max"@, JsonScalar::Number(decimal(30))),
        ("maxPlayers"@, JsonScalar::Number(decimal(30))),
        ("player_count"@, JsonScalar::Number(decimal(0))),
        ("playerCount"@, JsonScalar::Number(decimal(0))),
        ("slots"@, JsonScalar::Text("0/"@ + decimal(30))),
    ]
}

fn text_entry(key: &str, value: String) -> (e: (String, Json))
    ensures
        e.0@ == key@,
        scalar_of(e.1) == JsonScalar::Text(value@),
{
    (String::from_str(key), Json::Str(value))
}

fn number_entry(key: &str, value: u128) -> (e: (String, Json))
    ensures
        e.0@ == key@,
        scalar_of(e.1) == JsonScalar::Number(decimal(value as nat)),
{
    (String::from_str(key), Json::Number(decimal_string(value)))
}

fn bool_entry(key: &str, value: bool) -> (e: (String, Json))
    ensures
        e.0@ == key@,
        scalar_of(e.1) == JsonScalar::Bool(value),
{
    (String::from_str(key), Json::Bool(value))
}

fn text_or_default(o: Option<String>, default: &str) -> (s: String)
    ensures
        s@ == text_or(o, default@),
{
    match o {
        Some(s) => s,
        None => String::from_str(default),
    }
}

/// Builds the presence a host publishes to the lobby.
pub fn host_presence_payload(
    room_name: Option<String>,
    host_name: Option<String>,
    game_version: Option<String>,
    require_password: Option<bool>,
    port: u16,
    public_address: Option<String>,
) -> (payload: Json)
    ensures
        payload matches Json::Object(f) && flat(f@) == host_presence_fields(
            room_name,
            host_name,
            game_version,
            require_password,
            port,
            public_address,
        ),
{
    let ghost expected = host_presence_fields(
        room_name,
        host_name,
        game_version,
        require_password,
        port,
        public_address,
    );
    let room = text_or_default(room_name, "My Server");
    let host = text_or_default(host_name, "Player");
    let version = text_or_default(game_version, "java");
    let pw = match require_password {
        Some(b) => b,
        None => false,
    };
    let public_ip = match &public_address {
        Some(a) => Json::Str(a.clone()),
        None => Json::Null,
    };
    let join = text_or_default(public_address, "");
    let mut slots = String::from_str("0/");
    let max = decimal_string(MAX_PLAYERS as u128);
    slots.append(max.as_str());
    let mut f: Vec<(String, Json)> = Vec::new();
    f.push(text_entry("room_name", room));
    f.push(text_entry("host_name", host.clone()));
    f.push(text_entry("nickname", host));
    f.push(text_entry("minecraft_version", version.clone()));
    f.push(text_entry("game_version", version.clone()));
    f.push(text_entry("version", version));
    f.push(number_entry("port", port as u128));
    f.push((String::from_str("public_ip"), public_ip));
    f.push(text_entry("public_join_address", join));
    f.push(bool_entry("is_quic", true));
    f.push(bool_entry("has_password", pw));
    f.push(bool_entry("requirePassword", pw));
    f.push(number_entry("max_players", MAX_PLAYERS as u128));
    f.push(number_entry("players_max", MAX_PLAYERS as u128));
    f.push(number_entry("maxPlayers", MAX_PLAYERS as u128));
    f.push(number_entry("player_count", 0));
    f.push(number_entry("playerCount", 0));
    f.push(text_entry("slots", slots));
    assert(flat(f@) =~= expected);
    Json::Object(f)
}

/// Lower-case hexadecimal digit `d` (below 16).
pub open spec fn hex_digit(d: int) -> char {
    seq!['0', '1', '2', '3', '4', '5', '6', '7', '8', '9', 'a', 'b', 'c', 'd', 'e', 'f'][d]
}

/// How one character stands in a JSON string literal: `"` and `\` behind a
/// backslash; backspace, tab, line feed, form feed and carriage return as
/// `\b \t \n \f \r`; every other character below 0x20 as `\u00xx` in
/// lower-case hexadecimal; anything else as itself.
pub open spec fn json_escaped_char(c: char) -> Seq<char> {
    if c == '"' {
        seq!['\\', '"']
    } else if c == '\\' {
        seq!['\\', '\\']
    } else if c == '\x08' {
        seq!['\\', 'b']
    } else if c == '\t' {
        seq!['\\', 't']
    } else if c == '\n' {
        seq!['\\', 'n']
    } else if c == '\x0C' {
        seq!['\\', 'f']
    } else if c == '\r' {
        seq!['\\', 'r']
    } else if (c as int) < 0x20 {
        seq!['\\', 'u', '0', '0', hex_digit((c as int) / 16), hex_digit((c as int) % 16)]
    } else {
        seq![c]
    }
}

/// The characters of `text`, each as it stands in a JSON string literal.
pub open spec fn json_escaped(text: Seq<char>) -> Seq<char>
    decreases text.len(),
{
    if text.len() == 0 {
        seq![]
    } else {
        json_escaped(text.drop_last()) + json_escaped_char(text.last())
    }
}

/// What `serde_json::to_string` makes of a string: the text, escaped, in
/// double quotes.
pub open spec fn json_string_literal(text: Seq<char>) -> Seq<char> {
    seq!['"'] + json_escaped(text) + seq!['"']
}

/// Wraps `serde_json::to_string` on a string: its JSON string literal, with
/// the escapes of serde_json's escape table. Serialising a string does not
/// fail; the error arm only converts.
#[verifier::external_body]
fn quote_json(text: &str) -> (q: String)
    ensures
        q@ == json_string_literal(text@),
{
    match serde_json::to_string(text) {
        Ok(q) => q,
        Err(_) => String::new(),
    }
}

/// The log line of a host that started, the compact JSON text of the object
/// `{"event": "Ожидаем игроков...", "local_port": port, "public_address":
/// address or null, "type": "host_started"}` with its keys in sorted order.
pub open spec fn host_started_log_text(port: u16, public_address: Option<Seq<char>>) -> Seq<char> {
    "{\"event\":"@ + json_string_literal("Ожидаем игроков..."@) + ",\"local_port\":"@ + decimal(
        port as nat,
    ) + ",\"public_address\":"@ + match public_address {
        Some(a) => json_string_literal(a),
        None => "null"@,
    } + ",\"type\":"@ + json_string_literal("host_started"@) + "}"@
}

/// Builds the log line of a host that started on `port`.
pub fn host_started_log_line(port: u16, public_address: &Option<String>) -> (line: String)
    ensures
        line@ == host_started_log_text(
            port,
            match public_address {
                Some(a) => Some(a@),
                None => None,
            },
        ),
{
    let mut line = String::from_str("{\"event\":");
    let event = quote_json("Ожидаем игроков...");
    line.append(event.as_str());
    line.append(",\"local_port\":");
    let p = decimal_string(port as u128);
    line.append(p.as_str());
    line.append(",\"public_address\":");
    match public_address {
        Some(a) => {
            let q = quote_json(a.as_str());
            line.append(q.as_str());
        },
        None => line.append("null"),
    }
    line.append(",\"type\":");
    let t = quote_json("host_started");
    line.append(t.as_str());
    line.append("}");
    line
}

/// Whether `serde_json` reads the text as a JSON value.
pub uninterp spec fn is_json_text(text: Seq<char>) -> bool;

/// Wraps `serde_json::from_str::<serde_json::Value>`: whether the text is
/// JSON (the parsed value itself is not kept).
#[verifier::external_body]
fn json_parses(text: &str) -> (b: bool)
    ensures
        b == is_json_text(text@),
{
    serde_json::from_str::<serde_json::Value>(text).is_ok()
}

/// The data of a lobby event-stream message that is passed on: the text when
/// it is JSON, nothing otherwise.
pub fn lobby_event(data: String) -> (r: Option<String>)
    ensures
        r is Some <==> is_json_text(data@),
        r matches Some(t) ==> t@ == data@,
{
    if json_parses(data.as_str()) {
        Some(data)
    } else {
        None
    }
}

} // verus!

verus! {

/// The flat object has an entry under `key`, and every entry under `key`
/// holds `value`.
pub open spec fn holds_entry(
    fields: Seq<(Seq<char>, JsonScalar)>,
    key: Seq<char>,
    value: JsonScalar,
) -> bool {
    &&& exists|i: int| 0 <= i < fields.len() && (#[trigger] fields[i]).0 == key
    &&& forall|i: int| 0 <= i < fields.len() && (#[trigger] fields[i]).0 == key ==> fields[i].1 == value
}

/// What a host's presence says, key by key: the room, host name and game
/// version given (else "My Server", "Player", "java"), the host name also as
/// nickname and the version under all three version keys; the port; the
/// public address, or null and an empty join address when unknown; QUIC;
/// the password flag as given (no password when not given); 30 players at
/// most and none yet, also as the slots text "0/30".
pub proof fn host_presence_says(
    room_name: Option<String>,
    host_name: Option<String>,
    game_version: Option<String>,
    require_password: Option<bool>,
    port: u16,
    public_address: Option<String>,
)
    ensures
        ({
            let f = host_presence_fields(
                room_name,
                host_name,
                game_version,
                require_password,
                port,
                public_address,
            );
            let host = match host_name {
                Some(h) => h@,
                None => "Player"@,
            };
            let version = match game_version {
                Some(g) => g@,
                None => "java"@,
            };
            let pw = match require_password {
                Some(b) => b,
                None => false,
            };
            &&& holds_entry(
                f,
                "room_name"@,
                JsonScalar::Text(
                    match room_name {
                        Some(r) => r@,
                        None => "My Server"@,
                    },
                ),
            )
            &&& holds_entry(f, "host_name"@, JsonScalar::Text(host))
            &&& holds_entry(f, "nickname"@, JsonScalar::Text(host))
            &&& holds_entry(f, "minecraft_version"@, JsonScalar::Text(version))
            &&& holds_entry(f, "game_version"@, JsonScalar::Text(version))
            &&& holds_entry(f, "version"@, JsonScalar::Text(version))
            &&& holds_entry(f, "port"@, JsonScalar::Number(decimal(port as nat)))
            &&& holds_entry(
                f,
                "public_ip"@,
                match public_address {
                    Some(a) => JsonScalar::Text(a@),
                    None => JsonScalar::Null,
                },
            )
            &&& holds_entry(
                f,
                "public_join_address"@,
                JsonScalar::Text(
                    match public_address {
                        Some(a) => a@,
                        None => ""@,
                    },
                ),
            )
            &&& holds_entry(f, "is_quic"@, JsonScalar::Bool(true))
            &&& holds_entry(f, "has_password"@, JsonScalar::Bool(pw))
            &&& holds_entry(f, "requirePassword"@, JsonScalar::Bool(pw))
            &&& holds_entry(f, "max_players"@, JsonScalar::Number(decimal(30)))
            &&& holds_entry(f, "players_max"@, JsonScalar::Number(decimal(30)))
            &&& holds_entry(f, "maxPlayers"@, JsonScalar::Number(decimal(30)))
            &&& holds_entry(f, "player_count"@, JsonScalar::Number(decimal(0)))
            &&& holds_entry(f, "playerCount"@, JsonScalar::Number(decimal(0)))
            &&& holds_entry(f, "slots"@, JsonScalar::Text("0/"@ + decimal(30)))
        }),
{
    reveal_strlit("room_name");
    reveal_strlit("host_name");
    reveal_strlit("nickname");
    reveal_strlit("minecraft_version");
    reveal_strlit("game_version");
    reveal_strlit("version");
    reveal_strlit("port");
    reveal_strlit("public_ip");
    reveal_strlit("public_join_address");
    reveal_strlit("is_quic");
    reveal_strlit("has_password");
    reveal_strlit("requirePassword");
    reveal_strlit("max_players");
    reveal_strlit("players_max");
    reveal_strlit("maxPlayers");
    reveal_strlit("player_count");
    reveal_strlit("playerCount");
    reveal_strlit("slots");
    let f = host_presence_fields(
        room_name,
        host_name,
        game_version,
        require_password,
        port,
        public_address,
    );
    let keys = seq![
        "room_name"@,
        "host_name"@,
        "nickname"@,
        "minecraft_version"@,
        "game_version"@,
        "version"@,
        "port"@,
        "public_ip"@,
        "public_join_address"@,
        "is_quic"@,
        "has_password"@,
        "requirePassword"@,
        "max_players"@,
        "players_max"@,
        "maxPlayers"@,
        "player_count"@,
        "playerCount"@,
        "slots"@,
    ];
    assert forall|i: int, j: int| 0 <= i < 18 && 0 <= j < 18 && i != j implies keys[i] != keys[j] by {
        if keys[i] == keys[j] {
            assert(keys[i].len() == keys[j].len());
            assert(keys[i][0] == keys[j][0]);
            if keys[i].len() > 1 {
                assert(keys[i][1] == keys[j][1]);
            }
            if keys[i].len() > 4 {
                assert(keys[i][4] == keys[j][4]);
            }
            if keys[i].len() > 7 {
                assert(keys[i][7] == keys[j][7]);
            }
        }
    }
    assert forall|i: int| 0 <= i < 18 implies f[i].0 == keys[i] by {}
    assert(f.len() == 18);
}

} // verus!

verus! {

/// What a lobby message turns into. A message gives an entry exactly when it
/// is an object whose `data` is an object. The entry has the sender's
/// `clientId` under `client_id` when the message carries one (else whatever
/// `data` had there), and under every other key what `data` has.
pub proof fn flattened_entry_says(msg: Json, k: Seq<char>)
    ensures
        flattened_entry(msg) is Some <==> match msg {
            Json::Object(entries) => lookup(keyed(entries@), "data"@) matches Some(Json::Object(_)),
            _ => false,
        },
        match msg {
            Json::Object(entries) => match lookup(keyed(entries@), "data"@) {
                Some(Json::Object(fields)) => {
                    &&& lookup(flattened_entry(msg)->0, "client_id"@) == match lookup(
                        keyed(entries@),
                        "clientId"@,
                    ) {
                        Some(c) => Some(c),
                        None => lookup(keyed(fields@), "client_id"@),
                    }
                    &&& k != "client_id"@ ==> lookup(flattened_entry(msg)->0, k) == lookup(
                        keyed(fields@),
                        k,
                    )
                },
                _ => true,
            },
            _ => true,
        },
{
    if let Json::Object(entries) = msg {
        if let Some(Json::Object(fields)) = lookup(keyed(entries@), "data"@) {
            if let Some(c) = lookup(keyed(entries@), "clientId"@) {
                crate::json::lookup_after_with_entry(keyed(fields@), "client_id"@, c, "client_id"@);
                crate::json::lookup_after_with_entry(keyed(fields@), "client_id"@, c, k);
            }
        }
    }
}

} // verus!

verus! {

/// Text without quotes, backslashes or control characters stands in a JSON
/// string literal as itself.
pub proof fn plain_text_is_not_escaped(t: Seq<char>)
    requires
        forall|i: int|
            0 <= i < t.len() ==> #[trigger] t[i] != '"' && t[i] != '\\' && (t[i] as int) >= 0x20,
    ensures
        json_escaped(t) == t,
        json_string_literal(t) == seq!['"'] + t + seq!['"'],
    decreases t.len(),
{
    if t.len() > 0 {
        plain_text_is_not_escaped(t.drop_last());
        let c = t.last();
        assert(c == t[t.len() - 1]);
        assert(c != '\x08' && c != '\t' && c != '\n' && c != '\x0C' && c != '\r') by {
            assert('\x08' as int == 8);
            assert('\t' as int == 9);
            assert('\n' as int == 10);
            assert('\x0C' as int == 12);
            assert('\r' as int == 13);
        }
        assert(c != '"' && c != '\\' && (c as int) >= 0x20);
        assert(json_escaped_char(c) == seq![c]);
        assert(t.drop_last().push(c) =~= t);
    }
}

/// The log line of a started host: the fixed text around the port in
/// decimal and the public address as a JSON string (or `null`).
pub proof fn host_started_log_says(port: u16, public_address: Option<Seq<char>>)
    ensures
        host_started_log_text(port, public_address) == "{\"event\":\"Ожидаем игроков...\",\"local_port\":"@
            + decimal(port as nat) + ",\"public_address\":"@ + match public_address {
            Some(a) => json_string_literal(a),
            None => "null"@,
        } + ",\"type\":\"host_started\"}"@,
{
    reveal_strlit("Ожидаем игроков...");
    reveal_strlit("host_started");
    reveal_strlit("{\"event\":");
    reveal_strlit("{\"event\":\"Ожидаем игроков...\",\"local_port\":");
    reveal_strlit(",\"local_port\":");
    reveal_strlit(",\"type\":");
    reveal_strlit("}");
    reveal_strlit(",\"type\":\"host_started\"}");
    plain_text_is_not_escaped("Ожидаем игроков..."@);
    plain_text_is_not_escaped("host_started"@);
    assert("{\"event\":\"Ожидаем игроков...\",\"local_port\":"@ =~= "{\"event\":"@
        + json_string_literal("Ожидаем игроков..."@) + ",\"local_port\":"@);
    assert(",\"type\":\"host_started\"}"@ =~= ",\"type\":"@ + json_string_literal(
        "host_started"@,
    ) + "}"@);
    let mid = decimal(port as nat) + ",\"public_address\":"@ + match public_address {
        Some(a) => json_string_literal(a),
        None => "null"@,
    };
    assert(host_started_log_text(port, public_address) =~= "{\"event\":"@ + json_string_literal(
        "Ожидаем игроков..."@,
    ) + ",\"local_port\":"@ + mid + (",\"type\":"@ + json_string_literal("host_started"@) + "}"@));
}

/// The lobby's URLs: a channel's messages under `/channels/<channel>/messages`
/// and the event stream for the lobby and the client's own channel, all on
/// the lobby server.
pub proof fn lobby_urls_say(channel: Seq<char>, client_id: Seq<char>)
    ensures
        channel_messages_url(channel) == "http://2.26.87.126:7700/channels/"@ + channel
            + "/messages"@,
        event_stream_url(client_id) == "http://2.26.87.126:7700/sse?channels=minecraft-lobby,lobby:"@
            + client_id,
        lobby_read_url() == "http://2.26.87.126:7700/channels/minecraft-lobby/messages"@,
{
    reveal_strlit("http://2.26.87.126:7700");
    reveal_strlit("/channels/");
    reveal_strlit("http://2.26.87.126:7700/channels/");
    reveal_strlit("/sse?channels=minecraft-lobby,lobby:");
    reveal_strlit("http://2.26.87.126:7700/sse?channels=minecraft-lobby,lobby:");
    reveal_strlit("/channels/minecraft-lobby/messages");
    reveal_strlit("http://2.26.87.126:7700/channels/minecraft-lobby/messages");
    assert("http://2.26.87.126:7700/channels/"@ =~= lobby_base() + "/channels/"@);
    assert("http://2.26.87.126:7700/sse?channels=minecraft-lobby,lobby:"@ =~= lobby_base()
        + "/sse?channels=minecraft-lobby,lobby:"@);
    assert("http://2.26.87.126:7700/channels/minecraft-lobby/messages"@ =~= lobby_base()
        + "/channels/minecraft-lobby/messages"@);
    assert(channel_messages_url(channel) =~= "http://2.26.87.126:7700/channels/"@ + channel
        + "/messages"@);
    assert(event_stream_url(client_id) =~= "http://2.26.87.126:7700/sse?channels=minecraft-lobby,lobby:"@
        + client_id);
}

} // verus!
