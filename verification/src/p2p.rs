//! What the peer-to-peer tunnel decides: where to look a peer up, how its
//! location reads, and the events the user interface is told about.
use vstd::prelude::*;
use crate::json::{flat, Json, JsonScalar};
use crate::text::{concat, decimal, decimal_string};

verus! {

/// URL of the geolocation lookup for `ip` (answers in Russian).
pub open spec fn geolocation_url_text(ip: Seq<char>) -> Seq<char> {
    "http://ip-api.com/json/"@ + ip + "?lang=ru"@
}

/// URL of the geolocation lookup for `ip`.
pub fn geolocation_url(ip: &str) -> (url: String)
    ensures
        url@ == geolocation_url_text(ip@),
{
    let mut url = String::from_str("http://ip-api.com/json/");
    url.append(ip);
    url.append("?lang=ru");
    url
}

/// What a geolocation lookup answered: the `city` and `country` strings, when
/// the answer holds them.
pub struct GeoAnswer {
    pub city: Option<String>,
    pub country: Option<String>,
}

/// How a peer's location reads: "city, country", or "Неизвестно" (unknown)
/// when the lookup failed or named neither.
pub open spec fn location_text(answer: Option<GeoAnswer>) -> Seq<char> {
    match answer {
        None => "Неизвестно"@,
        Some(a) => {
            let city = match a.city {
                Some(c) => c@,
                None => ""@,
            };
            let country = match a.country {
                Some(c) => c@,
                None => ""@,
            };
            if city.len() == 0 && country.len() == 0 {
                "Неизвестно"@
            } else {
                city + ", "@ + country
            }
        },
    }
}

/// The location of a peer, from the geolocation answer (`None` when the
/// lookup or its JSON failed).
pub fn location_label(answer: Option<GeoAnswer>) -> (label: String)
    ensures
        label@ == location_text(answer),
{
    proof {
        reveal_strlit("");
    }
    match answer {
        None => String::from_str("Неизвестно"),
        Some(a) => {
            let city = match a.city {
                Some(c) => c,
                None => String::new(),
            };
            let country = match a.country {
                Some(c) => c,
                None => String::new(),
            };
            if city.as_str().unicode_len() == 0 && country.as_str().unicode_len() == 0 {
                String::from_str("Неизвестно")
            } else {
                let mut s = concat(city.as_str(), ", ");
                s.append(country.as_str());
                s
            }
        },
    }
}

/// The event of a peer that connected: its address, location, and a round
/// trip time of 0 until measured.
pub open spec fn peer_connected_fields(ip: Seq<char>, location: Seq<char>) -> Seq<
    (Seq<char>, JsonScalar),
> {
    seq![
        ("ip"@, JsonScalar::Text(ip)),
        ("location"@, JsonScalar::Text(location)),
        ("rtt_ms"@, JsonScalar::Number(decimal(0))),
    ]
}

/// Builds the event of a peer that connected.
pub fn peer_connected_event(ip: String, location: String) -> (ev: Json)
    ensures
        ev matches Json::Object(f) && flat(f@) == peer_connected_fields(ip@, location@),
{
    let ghost expected = peer_connected_fields(ip@, location@);
    let mut f: Vec<(String, Json)> = Vec::new();
    f.push((String::from_str("ip"), Json::Str(ip)));
    f.push((String::from_str("location"), Json::Str(location)));
    f.push((String::from_str("rtt_ms"), Json::Number(decimal_string(0))));
    assert(flat(f@) =~= expected);
    Json::Object(f)
}

/// The event of a new round-trip time to a peer.
pub open spec fn peer_ping_fields(ip: Seq<char>, rtt_ms: u128) -> Seq<(Seq<char>, JsonScalar)> {
    seq![("ip"@, JsonScalar::Text(ip)), ("rtt_ms"@, JsonScalar::Number(decimal(rtt_ms as nat)))]
}

/// Builds the event of a new round-trip time to a peer.
pub fn peer_ping_event(ip: String, rtt_ms: u128) -> (ev: Json)
    ensures
        ev matches Json::Object(f) && flat(f@) == peer_ping_fields(ip@, rtt_ms),
{
    let ghost expected = peer_ping_fields(ip@, rtt_ms);
    let mut f: Vec<(String, Json)> = Vec::new();
    f.push((String::from_str("ip"), Json::Str(ip)));
    f.push((String::from_str("rtt_ms"), Json::Number(decimal_string(rtt_ms))));
    assert(flat(f@) =~= expected);
    Json::Object(f)
}

/// Builds the event of a peer that disconnected.
pub fn peer_disconnected_event(ip: String) -> (ev: Json)
    ensures
        ev matches Json::Object(f) && flat(f@) == seq![("ip"@, JsonScalar::Text(ip@))],
{
    let ghost i = ip@;
    let mut f: Vec<(String, Json)> = Vec::new();
    f.push((String::from_str("ip"), Json::Str(ip)));
    assert(flat(f@) =~= seq![("ip"@, JsonScalar::Text(i))]);
    Json::Object(f)
}

} // verus!

verus! {

/// How a peer's location reads: unknown ("Неизвестно") when the lookup
/// failed or gave neither city nor country; otherwise the city, a comma and
/// a space, and the country, a missing one read as empty.
pub proof fn location_says(answer: Option<GeoAnswer>)
    ensures
        answer is None ==> location_text(answer) == "Неизвестно"@,
        answer matches Some(a) ==> ({
            let city = match a.city {
                Some(c) => c@,
                None => Seq::<char>::empty(),
            };
            let country = match a.country {
                Some(c) => c@,
                None => Seq::<char>::empty(),
            };
            &&& (city.len() == 0 && country.len() == 0) ==> location_text(answer) == "Неизвестно"@
            &&& (city.len() > 0 || country.len() > 0) ==> location_text(answer) == city + ", "@
                + country
        }),
{
    reveal_strlit("");
}

/// The peer events: who connected, from where, with a round trip of 0 until
/// measured; and each measured round trip in milliseconds.
pub proof fn peer_events_say(ip: Seq<char>, location: Seq<char>, rtt_ms: u128)
    ensures
        peer_connected_fields(ip, location) == seq![
            ("ip"@, JsonScalar::Text(ip)),
            ("location"@, JsonScalar::Text(location)),
            ("rtt_ms"@, JsonScalar::Number(seq!['0'])),
        ],
        peer_ping_fields(ip, rtt_ms) == seq![
            ("ip"@, JsonScalar::Text(ip)),
            ("rtt_ms"@, JsonScalar::Number(decimal(rtt_ms as nat))),
        ],
        geolocation_url_text(ip) == "http://ip-api.com/json/"@ + ip + "?lang=ru"@,
{
    assert(decimal(0) =~= seq!['0']);
}

} // verus!
