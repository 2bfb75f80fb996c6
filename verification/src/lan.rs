//! Servers announced on the local network: the Java Edition multicast
//! announcement, the Bedrock (RakNet) unconnected ping and pong, and the
//! servers found through NetherNet discovery.
use vstd::prelude::*;
use crate::stun::be16;
use crate::text::{
    chars_of, decode_text, last_segment, last_segment_start, occurs_at, occurs_at_exec,
    same_text, signed_decimal, signed_decimal_string, split_on, split_ranges,
};

verus! {

/// A server found on the local network, as shown in the server list.
#[derive(Clone, Debug, PartialEq, Eq)]
pub struct LanServer {
    pub motd: String,
    pub port: String,
    pub ip: String,
    pub edition: String,
    pub host: Option<String>,
    pub online: Option<String>,
}

/// The text of each field of a [`LanServer`].
pub struct LanServerView {
    pub motd: Seq<char>,
    pub port: Seq<char>,
    pub ip: Seq<char>,
    pub edition: Seq<char>,
    pub host: Option<Seq<char>>,
    pub online: Option<Seq<char>>,
}

/// The text of an optional string.
pub open spec fn opt_text(o: Option<String>) -> Option<Seq<char>> {
    match o {
        Some(s) => Some(s@),
        None => None,
    }
}

impl View for LanServer {
    type V = LanServerView;

    open spec fn view(&self) -> LanServerView {
        LanServerView {
            motd: self.motd@,
            port: self.port@,
            ip: self.ip@,
            edition: self.edition@,
            host: opt_text(self.host),
            online: opt_text(self.online),
        }
    }
}

/// Which scanners a scan for the given edition starts.
#[derive(Clone, Copy, Debug, PartialEq, Eq)]
pub struct ScanPlan {
    /// Listen for Java Edition multicast announcements.
    pub java: bool,
    /// Ping for Bedrock servers over RakNet and NetherNet.
    pub bedrock: bool,
}

/// Chooses the scanners for `edition` (`"java"` or `"bedrock"`; anything
/// else starts none).
pub fn scan_plan(edition: &str) -> (plan: ScanPlan)
    ensures
        plan.java == (edition@ == "java"@),
        plan.bedrock == (edition@ == "bedrock"@),
{
    ScanPlan { java: same_text(edition, "java"), bedrock: same_text(edition, "bedrock") }
}

} // verus!

verus! {

/// Opening tag of the Java Edition announcement.
pub open spec fn motd_open() -> Seq<char> {
    "[MOTD]"@
}

/// Tags between the MOTD and the port.
pub open spec fn motd_close_ad_open() -> Seq<char> {
    "[/MOTD][AD]"@
}

/// Closing tag of the announcement.
pub open spec fn ad_close() -> Seq<char> {
    "[/AD]"@
}

/// No line break in `m[a..b)`.
pub open spec fn line_free(m: Seq<char>, a: int, b: int) -> bool {
    forall|i: int| a <= i < b ==> m[i] != '\n'
}

/// `k` characters other than a line break follow position `p`, and then `lit`.
pub open spec fn gap_then(m: Seq<char>, p: int, lit: Seq<char>, k: int) -> bool {
    0 <= k && line_free(m, p, p + k) && occurs_at(m, p + k, lit)
}

/// The pattern `\[MOTD\](.*?)\[/MOTD\]\[AD\](.*?)\[/AD\]` matches at `s`
/// with a MOTD of `k1` characters and a port of `k2` characters.
pub open spec fn announcement_at(m: Seq<char>, s: int, k1: int, k2: int) -> bool {
    &&& occurs_at(m, s, motd_open())
    &&& gap_then(m, s + motd_open().len(), motd_close_ad_open(), k1)
    &&& gap_then(m, s + motd_open().len() + k1 + motd_close_ad_open().len(), ad_close(), k2)
}

/// The match a regular-expression engine with leftmost-first semantics and
/// lazy groups picks: the leftmost start, then the shortest MOTD, then the
/// shortest port.
pub open spec fn first_announcement(m: Seq<char>, s: int, k1: int, k2: int) -> bool {
    &&& announcement_at(m, s, k1, k2)
    &&& forall|s2: int, a: int, b: int| s2 < s ==> !#[trigger] announcement_at(m, s2, a, b)
    &&& forall|a: int, b: int| a < k1 ==> !#[trigger] announcement_at(m, s, a, b)
    &&& forall|b: int| b < k2 ==> !#[trigger] announcement_at(m, s, k1, b)
}

proof fn lemma_first_announcement_unique(
    m: Seq<char>,
    s: int,
    k1: int,
    k2: int,
    t: int,
    j1: int,
    j2: int,
)
    requires
        first_announcement(m, s, k1, k2),
        first_announcement(m, t, j1, j2),
    ensures
        s == t && k1 == j1 && k2 == j2,
{
    if s < t {
        assert(announcement_at(m, s, k1, k2));
    } else if t < s {
        assert(announcement_at(m, t, j1, j2));
    } else if k1 < j1 {
        assert(announcement_at(m, s, k1, k2));
    } else if j1 < k1 {
        assert(announcement_at(m, t, j1, j2));
    } else if k2 < j2 {
        assert(announcement_at(m, s, k1, k2));
    } else if j2 < k2 {
        assert(announcement_at(m, t, j1, j2));
    }
}

/// The MOTD and port text of the announcement in `m`, if it holds one.
pub open spec fn announcement_groups(m: Seq<char>) -> Option<(Seq<char>, Seq<char>)> {
    if exists|s: int, k1: int, k2: int| first_announcement(m, s, k1, k2) {
        let (s, k1, k2) = choose|s: int, k1: int, k2: int| first_announcement(m, s, k1, k2);
        let p1 = s + motd_open().len();
        let p2 = p1 + k1 + motd_close_ad_open().len();
        Some((m.subrange(p1, p1 + k1), m.subrange(p2, p2 + k2)))
    } else {
        None
    }
}

/// First `k` with `gap_then(m, p, lit, k)`.
fn first_gap(m: &Vec<char>, p: usize, lit: &Vec<char>) -> (r: Option<usize>)
    requires
        p <= m.len(),
    ensures
        r matches Some(k) ==> gap_then(m@, p as int, lit@, k as int) && forall|j: int|
            j < k ==> !#[trigger] gap_then(m@, p as int, lit@, j),
        r is None ==> forall|j: int| !#[trigger] gap_then(m@, p as int, lit@, j),
{
    let n = m.len();
    let mut k: usize = 0;
    loop
        invariant
            p + k <= n,
            n == m@.len(),
            line_free(m@, p as int, p + k),
            forall|j: int| j < k ==> !#[trigger] gap_then(m@, p as int, lit@, j),
        decreases n - (p + k),
    {
        let q = p + k;
        if occurs_at_exec(m, q, lit) {
            return Some(k);
        }
        if q == n || m[q] == '\n' {
            assert forall|j: int| !#[trigger] gap_then(m@, p as int, lit@, j) by {
                if j > k && gap_then(m@, p as int, lit@, j) {
                    assert(m@[q as int] != '\n');
                }
            }
            return None;
        }
        k += 1;
    }
}

/// Finds the announcement in `m`: its start and the lengths of its MOTD and
/// port, as the leftmost-first match of the pattern.
pub fn find_announcement(m: &Vec<char>) -> (r: Option<(usize, usize, usize)>)
    ensures
        r matches Some((s, k1, k2)) ==> first_announcement(m@, s as int, k1 as int, k2 as int),
        r is None ==> forall|s: int, k1: int, k2: int| !#[trigger] announcement_at(m@, s, k1, k2),
{
    let open = chars_of("[MOTD]");
    proof {
        reveal_strlit("[MOTD]");
    }
    let mid = chars_of("[/MOTD][AD]");
    let close = chars_of("[/AD]");
    let n = m.len();
    let mut s: usize = 0;
    while s < n
        invariant
            n == m@.len(),
            open@ == motd_open(),
            mid@ == motd_close_ad_open(),
            close@ == ad_close(),
            forall|s2: int, a: int, b: int| s2 < s ==> !#[trigger] announcement_at(m@, s2, a, b),
        decreases n - s,
    {
        if occurs_at_exec(m, s, &open) {
            let p1 = s + open.len();
            let mut k1: usize = 0;
            loop
                invariant_except_break
                    n == m@.len(),
                    open@ == motd_open(),
                    mid@ == motd_close_ad_open(),
                    close@ == ad_close(),
                    occurs_at(m@, s as int, motd_open()),
                    p1 == s + motd_open().len(),
                    p1 + k1 <= n,
                    line_free(m@, p1 as int, p1 + k1),
                    forall|s2: int, a: int, b: int|
                        s2 < s ==> !#[trigger] announcement_at(m@, s2, a, b),
                    forall|a: int, b: int| a < k1 ==> !#[trigger] announcement_at(m@, s as int, a, b),
                ensures
                    forall|s2: int, a: int, b: int|
                        s2 < s ==> !#[trigger] announcement_at(m@, s2, a, b),
                    forall|a: int, b: int| !#[trigger] announcement_at(m@, s as int, a, b),
                decreases n - (p1 + k1),
            {
                let q = p1 + k1;
                if occurs_at_exec(m, q, &mid) {
                    let p2 = q + mid.len();
                    if let Some(k2) = first_gap(m, p2, &close) {
                        assert(announcement_at(m@, s as int, k1 as int, k2 as int));
                        assert forall|b: int| b < k2 implies !#[trigger] announcement_at(
                            m@,
                            s as int,
                            k1 as int,
                            b,
                        ) by {
                            if announcement_at(m@, s as int, k1 as int, b) {
                                assert(gap_then(m@, p2 as int, close@, b));
                            }
                        }
                        return Some((s, k1, k2));
                    } else {
                        assert forall|b: int| !#[trigger] announcement_at(m@, s as int, k1 as int, b) by {
                            if announcement_at(m@, s as int, k1 as int, b) {
                                assert(gap_then(m@, p2 as int, close@, b));
                            }
                        }
                    }
                } else {
                    assert forall|b: int| !#[trigger] announcement_at(m@, s as int, k1 as int, b) by {
                        assert(!gap_then(m@, p1 as int, mid@, k1 as int));
                    }
                }
                if q == n || m[q] == '\n' {
                    assert forall|a: int, b: int| !#[trigger] announcement_at(m@, s as int, a, b) by {
                        if a > k1 && announcement_at(m@, s as int, a, b) {
                            assert(gap_then(m@, p1 as int, mid@, a));
                            assert(m@[q as int] != '\n');
                        }
                    }
                    break;
                }
                k1 += 1;
            }
        } else {
            assert forall|a: int, b: int| !#[trigger] announcement_at(m@, s as int, a, b) by {}
        }
        s += 1;
    }
    assert forall|s2: int, a: int, b: int| !#[trigger] announcement_at(m@, s2, a, b) by {
        if s2 >= n && announcement_at(m@, s2, a, b) {
            assert(occurs_at(m@, s2, open@));
        }
    }
    None
}

} // verus!

verus! {

/// Separator after which the shown part of a Java Edition MOTD begins.
pub open spec fn motd_separator() -> Seq<char> {
    " - "@
}

/// The server that a Java Edition announcement from `ip` describes: the text
/// is UTF-8, the pattern matches, the MOTD shown is what follows the last
/// `" - "` in the announced MOTD, and the port is the announced port text.
pub open spec fn java_lan_server(packet: Seq<u8>, ip: Seq<char>) -> Option<LanServerView> {
    if !vstd::utf8::valid_utf8(packet) {
        None
    } else {
        match announcement_groups(vstd::utf8::decode_utf8(packet)) {
            Some((raw, port)) => Some(
                LanServerView {
                    motd: last_segment(raw, motd_separator()),
                    port,
                    ip,
                    edition: "Java"@,
                    host: None,
                    online: None,
                },
            ),
            None => None,
        }
    }
}

/// Reads a Java Edition LAN announcement (`[MOTD]...[/MOTD][AD]port[/AD]`)
/// received from `ip`.
pub fn parse_java_announcement(packet: &[u8], ip: String) -> (r: Option<LanServer>)
    ensures
        match r {
            Some(srv) => java_lan_server(packet@, ip@) == Some(srv@),
            None => java_lan_server(packet@, ip@) is None,
        },
        r matches Some(srv) ==> forall|j: int|
            0 <= j ==> !#[trigger] occurs_at(srv.motd@, j, motd_separator()),
        r is None ==> !vstd::utf8::valid_utf8(packet@) || forall|s: int, k1: int, k2: int|
            !#[trigger] announcement_at(vstd::utf8::decode_utf8(packet@), s, k1, k2),
{
    let text = match decode_text(packet) {
        Some(t) => t,
        None => return None,
    };
    let m = chars_of(text);
    proof {
        reveal_strlit("[MOTD]");
        reveal_strlit("[/MOTD][AD]");
        reveal_strlit(" - ");
    }
    let found = find_announcement(&m);
    let (s, k1, k2) = match found {
        Some(x) => x,
        None => {
            assert(!exists|s: int, k1: int, k2: int| first_announcement(m@, s, k1, k2));
            return None;
        },
    };
    proof {
        let (t, j1, j2) = choose|t: int, j1: int, j2: int| first_announcement(m@, t, j1, j2);
        lemma_first_announcement_unique(m@, s as int, k1 as int, k2 as int, t, j1, j2);
        assert(motd_open().len() == 6);
        assert(motd_close_ad_open().len() == 11);
        assert(announcement_at(m@, s as int, k1 as int, k2 as int));
        assert(occurs_at(m@, s + 6 + k1 + 11 + k2, ad_close()));
        assert(m@.len() == m.len());
    }
    let p1 = s + 6;
    let p2 = p1 + k1 + 11;
    let raw = text.substring_char(p1, p1 + k1);
    let raw_chars = chars_of(raw);
    let sep = chars_of(" - ");
    let st = last_segment_start(&raw_chars, &sep);
    let motd = String::from_str(raw.substring_char(st, raw_chars.len()));
    let port = String::from_str(text.substring_char(p2, p2 + k2));
    let edition = String::from_str("Java");
    Some(LanServer { motd, port, ip, edition, host: None, online: None })
}

} // verus!

verus! {

/// Big-endian encoding of `x` in `n` bytes (most significant first; higher
/// bytes that do not fit are dropped).
pub open spec fn be_bytes(x: nat, n: nat) -> Seq<u8>
    decreases n,
{
    if n == 0 {
        seq![]
    } else {
        be_bytes(x / 256, (n - 1) as nat).push((x % 256) as u8)
    }
}

fn be_bytes_vec(x: u64, n: usize) -> (v: Vec<u8>)
    ensures
        v@ == be_bytes(x as nat, n as nat),
        v@.len() == n,
    decreases n,
{
    if n == 0 {
        Vec::new()
    } else {
        let mut v = be_bytes_vec(x / 256, n - 1);
        v.push((x % 256) as u8);
        v
    }
}

/// The RakNet "offline message" magic.
pub open spec fn raknet_magic() -> Seq<u8> {
    seq![
        0x00u8,
        0xffu8,
        0xffu8,
        0x00u8,
        0xfeu8,
        0xfeu8,
        0xfeu8,
        0xfeu8,
        0xfdu8,
        0xfdu8,
        0xfdu8,
        0xfdu8,
        0x12u8,
        0x34u8,
        0x56u8,
        0x78u8,
    ]
}

/// A RakNet Unconnected Ping (id 0x01) sent at `time_ms`: the time, the
/// magic, and a client GUID of zero.
pub open spec fn raknet_ping(time_ms: u64) -> Seq<u8> {
    seq![0x01u8] + be_bytes(time_ms as nat, 8) + raknet_magic() + be_bytes(0, 8)
}

/// Builds the Unconnected Ping that the Bedrock scanner broadcasts.
pub fn raknet_ping_packet(time_ms: u64) -> (p: Vec<u8>)
    ensures
        p@ == raknet_ping(time_ms),
        p@.len() == 33,
{
    let mut p: Vec<u8> = Vec::new();
    p.push(0x01);
    let t = be_bytes_vec(time_ms, 8);
    let magic: [u8; 16] = [
        0x00, 0xff, 0xff, 0x00, 0xfe, 0xfe, 0xfe, 0xfe, 0xfd, 0xfd, 0xfd, 0xfd, 0x12, 0x34, 0x56, 0x78,
    ];
    let z = be_bytes_vec(0, 8);
    assert(magic@ =~= raknet_magic());
    let mut k: usize = 0;
    while k < 8
        invariant
            k <= 8,
            t@.len() == 8,
            p@ == seq![0x01u8] + t@.subrange(0, k as int),
        decreases 8 - k,
    {
        p.push(t[k]);
        k += 1;
        assert(p@ =~= seq![0x01u8] + t@.subrange(0, k as int));
    }
    assert(t@.subrange(0, 8) =~= t@);
    let mut k: usize = 0;
    while k < 16
        invariant
            k <= 16,
            p@ == seq![0x01u8] + t@ + magic@.subrange(0, k as int),
        decreases 16 - k,
    {
        p.push(magic[k]);
        k += 1;
        assert(p@ =~= seq![0x01u8] + t@ + magic@.subrange(0, k as int));
    }
    assert(magic@.subrange(0, 16) =~= magic@);
    let mut k: usize = 0;
    while k < 8
        invariant
            k <= 8,
            z@.len() == 8,
            p@ == seq![0x01u8] + t@ + magic@ + z@.subrange(0, k as int),
        decreases 8 - k,
    {
        p.push(z[k]);
        k += 1;
        assert(p@ =~= seq![0x01u8] + t@ + magic@ + z@.subrange(0, k as int));
    }
    assert(z@.subrange(0, 8) =~= z@);
    p
}

/// The server that a RakNet Unconnected Pong (id 0x1C) from `ip` describes.
/// The server string (length at bytes 33..35, text from byte 35) is
/// `;`-separated: piece 1 is the host name, 4 and 5 the player counts, 7 the
/// world name and 10, when present, the port.
pub open spec fn raknet_lan_server(p: Seq<u8>, ip: Seq<char>) -> Option<LanServerView> {
    if p.len() > 35 && p[0] == 0x1C && p.len() >= 35 + be16(p, 33) && vstd::utf8::valid_utf8(
        p.subrange(35, 35 + be16(p, 33)),
    ) {
        let parts = split_on(vstd::utf8::decode_utf8(p.subrange(35, 35 + be16(p, 33))), ';');
        if parts.len() >= 8 {
            Some(
                LanServerView {
                    motd: parts[7],
                    port: if parts.len() > 10 {
                        parts[10]
                    } else {
                        "19132"@
                    },
                    ip,
                    edition: "Bedrock"@,
                    host: Some(parts[1]),
                    online: Some(parts[4] + "/"@ + parts[5]),
                },
            )
        } else {
            None
        }
    } else {
        None
    }
}

/// Reads a RakNet Unconnected Pong received from `ip`.
pub fn parse_raknet_pong(packet: &[u8], ip: String) -> (r: Option<LanServer>)
    ensures
        match r {
            Some(srv) => raknet_lan_server(packet@, ip@) == Some(srv@),
            None => raknet_lan_server(packet@, ip@) is None,
        },
{
    let amt = packet.len();
    if amt <= 35 || packet[0] != 0x1C {
        return None;
    }
    let str_len: usize = (packet[33] as usize) * 256 + packet[34] as usize;
    assert(str_len as int == be16(packet@, 33));
    if amt < 35 + str_len {
        return None;
    }
    let body = &packet[35..35 + str_len];
    let text = match decode_text(body) {
        Some(t) => t,
        None => return None,
    };
    let m = chars_of(text);
    let parts = split_ranges(&m, ';');
    if parts.len() < 8 {
        return None;
    }
    let host = String::from_str(text.substring_char(parts[1].0, parts[1].1));
    let mut online = String::from_str(text.substring_char(parts[4].0, parts[4].1));
    online.append("/");
    online.append(text.substring_char(parts[5].0, parts[5].1));
    let motd = String::from_str(text.substring_char(parts[7].0, parts[7].1));
    let port = if parts.len() > 10 {
        String::from_str(text.substring_char(parts[10].0, parts[10].1))
    } else {
        String::from_str("19132")
    };
    let edition = String::from_str("Bedrock");
    let srv = LanServer { motd, port, ip, edition, host: Some(host), online: Some(online) };
    assert(srv@ == raknet_lan_server(packet@, ip@)->0);
    Some(srv)
}

/// The server that NetherNet discovery reports: world name, server name and
/// player counts from the discovery data; the address it was seen at, or the
/// loopback address when none is known; the default Bedrock port.
pub open spec fn nethernet_lan_server(
    level_name: Seq<char>,
    server_name: Seq<char>,
    player_count: int,
    max_player_count: int,
    address: Option<Seq<char>>,
) -> LanServerView {
    LanServerView {
        motd: level_name,
        port: "19132"@,
        ip: match address {
            Some(a) => a,
            None => "127.0.0.1"@,
        },
        edition: "Bedrock"@,
        host: Some(server_name),
        online: Some(signed_decimal(player_count) + "/"@ + signed_decimal(max_player_count)),
    }
}

/// Builds the list entry for a server found through NetherNet discovery.
pub fn nethernet_server(
    level_name: String,
    server_name: String,
    player_count: i64,
    max_player_count: i64,
    address: Option<String>,
) -> (srv: LanServer)
    ensures
        srv@ == nethernet_lan_server(
            level_name@,
            server_name@,
            player_count as int,
            max_player_count as int,
            opt_text(address),
        ),
        srv.edition@ == "Bedrock"@,
        srv.port@ == "19132"@,
        srv.motd@ == level_name@,
        opt_text(srv.host) == Some(server_name@),
        srv.ip@ == match address {
            Some(a) => a@,
            None => "127.0.0.1"@,
        },
        opt_text(srv.online) == Some(
            signed_decimal(player_count as int) + "/"@ + signed_decimal(max_player_count as int),
        ),
{
    let ip = match address {
        Some(a) => a,
        None => String::from_str("127.0.0.1"),
    };
    let mut online = signed_decimal_string(player_count);
    online.append("/");
    let max = signed_decimal_string(max_player_count);
    online.append(max.as_str());
    LanServer {
        motd: level_name,
        port: String::from_str("19132"),
        ip,
        edition: String::from_str("Bedrock"),
        host: Some(server_name),
        online: Some(online),
    }
}

} // verus!

verus! {

/// How long each scanner runs, in milliseconds.
pub const SCAN_WINDOW_MS: u64 = 5000;

/// How long the Bedrock scanner listens after each round of pings, in
/// milliseconds.
pub const RAKNET_ROUND_MS: u64 = 1000;

/// Read timeout of the scanners' sockets, in milliseconds.
pub const RECEIVE_TIMEOUT_MS: u64 = 500;

/// Pause between NetherNet discovery rounds, in milliseconds.
pub const NETHERNET_ROUND_MS: u64 = 500;

/// Why a receive on a scanner's socket failed.
#[derive(Clone, Copy, Debug, PartialEq, Eq)]
pub enum ReceiveFailure {
    /// Nothing arrived yet on a non-blocking socket.
    WouldBlock,
    /// The read timeout passed.
    TimedOut,
    /// Anything else.
    Other,
}

/// Whether the Java scanner reports a failed receive: only failures other
/// than an empty socket or a timeout are worth a log line.
pub fn java_receive_failure_reported(failure: ReceiveFailure) -> (reported: bool)
    ensures
        reported == (failure == ReceiveFailure::Other),
{
    match failure {
        ReceiveFailure::Other => true,
        _ => false,
    }
}

} // verus!

verus! {

/// The text of a pong's server string, when the pong carries one: type 0x1C,
/// longer than the 35-byte header, declared length within the packet, valid
/// UTF-8.
pub open spec fn pong_text(p: Seq<u8>) -> Option<Seq<char>> {
    if p.len() > 35 && p[0] == 0x1C && p.len() >= 35 + be16(p, 33) && vstd::utf8::valid_utf8(
        p.subrange(35, 35 + be16(p, 33)),
    ) {
        Some(vstd::utf8::decode_utf8(p.subrange(35, 35 + be16(p, 33))))
    } else {
        None
    }
}

/// A pong becomes an entry exactly when its server string has at least
/// eight `;`-separated pieces. The entry is a Bedrock server at the sender's
/// address; its host is piece 1, its players are pieces 4 and 5 joined by
/// `/`, its world is piece 7, and its port is piece 10 when the string has
/// one; the default port 19132 is used only when piece 10 is absent.
pub proof fn raknet_entry_fields(p: Seq<u8>, ip: Seq<char>)
    ensures
        raknet_lan_server(p, ip) is Some <==> (pong_text(p) is Some && split_on(
            pong_text(p)->0,
            ';',
        ).len() >= 8),
        raknet_lan_server(p, ip) matches Some(v) ==> ({
            let parts = split_on(pong_text(p)->0, ';');
            &&& v.ip == ip
            &&& v.edition == "Bedrock"@
            &&& v.host == Some(parts[1])
            &&& v.online == Some(parts[4] + "/"@ + parts[5])
            &&& v.motd == parts[7]
            &&& (parts.len() > 10 ==> v.port == parts[10])
            &&& (parts.len() <= 10 ==> v.port == "19132"@)
        }),
{
}

/// A Java Edition announcement becomes an entry only for valid UTF-8 text
/// that holds the pattern; the entry is a Java server at the sender's
/// address, with no host and no player count.
pub proof fn java_entry_fields(p: Seq<u8>, ip: Seq<char>)
    ensures
        java_lan_server(p, ip) is Some ==> vstd::utf8::valid_utf8(p) && exists|s: int, k1: int, k2: int|
            #[trigger] announcement_at(vstd::utf8::decode_utf8(p), s, k1, k2),
        java_lan_server(p, ip) matches Some(v) ==> v.ip == ip && v.edition == "Java"@ && v.host
            is None && v.online is None,
{
    if java_lan_server(p, ip) is Some {
        let m = vstd::utf8::decode_utf8(p);
        let (s, k1, k2) = choose|s: int, k1: int, k2: int| first_announcement(m, s, k1, k2);
        assert(announcement_at(m, s, k1, k2));
    }
}

/// An entry from NetherNet discovery is a Bedrock server on port 19132 named
/// after the world, hosted by the server name, at the address it was seen at
/// (the loopback address when none is known), with the player counts as
/// `count/max`.
pub proof fn nethernet_entry_fields(
    level_name: Seq<char>,
    server_name: Seq<char>,
    player_count: int,
    max_player_count: int,
    address: Option<Seq<char>>,
)
    ensures
        ({
            let v = nethernet_lan_server(
                level_name,
                server_name,
                player_count,
                max_player_count,
                address,
            );
            &&& v.edition == "Bedrock"@
            &&& v.port == "19132"@
            &&& v.motd == level_name
            &&& v.host == Some(server_name)
            &&& (address matches Some(a) ==> v.ip == a)
            &&& (address is None ==> v.ip == "127.0.0.1"@)
            &&& v.online == Some(
                signed_decimal(player_count) + "/"@ + signed_decimal(max_player_count),
            )
        }),
{
}

} // verus!

verus! {

/// The number that big-endian bytes spell.
pub open spec fn be_value(s: Seq<u8>) -> int
    decreases s.len(),
{
    if s.len() == 0 {
        0
    } else {
        be_value(s.drop_last()) * 256 + s.last() as int
    }
}

/// 256 to the power `n`.
pub open spec fn pow256(n: nat) -> nat
    decreases n,
{
    if n == 0 {
        1
    } else {
        256 * pow256((n - 1) as nat)
    }
}

proof fn lemma_be_bytes_roundtrip(x: nat, n: nat)
    requires
        x < pow256(n),
    ensures
        be_bytes(x, n).len() == n,
        be_value(be_bytes(x, n)) == x,
    decreases n,
{
    if n > 0 {
        let q = x / 256;
        assert(q < pow256((n - 1) as nat)) by (nonlinear_arith)
            requires
                x < 256 * pow256((n - 1) as nat),
                q == x / 256,
        ;
        lemma_be_bytes_roundtrip(q, (n - 1) as nat);
        let b = be_bytes(x, n);
        assert(b.drop_last() =~= be_bytes(q, (n - 1) as nat));
        assert(b.last() == (x % 256) as u8);
        assert(q * 256 + x % 256 == x);
    } else {
        assert(x == 0);
    }
}

/// Big-endian bytes of 0 are all zero.
proof fn lemma_be_bytes_zero(n: nat)
    ensures
        forall|i: int| 0 <= i < be_bytes(0, n).len() ==> #[trigger] be_bytes(0, n)[i] == 0,
        be_bytes(0, n).len() == n,
    decreases n,
{
    if n > 0 {
        lemma_be_bytes_zero((n - 1) as nat);
    }
}

/// The Bedrock ping is 33 bytes: the id 0x01, then the send time as eight
/// big-endian bytes that read back as the time, then the RakNet magic, then
/// a client id of eight zero bytes.
pub proof fn raknet_ping_says(time_ms: u64)
    ensures
        raknet_ping(time_ms).len() == 33,
        raknet_ping(time_ms)[0] == 0x01,
        be_value(raknet_ping(time_ms).subrange(1, 9)) == time_ms,
        raknet_ping(time_ms).subrange(9, 25) == raknet_magic(),
        forall|i: int| 25 <= i < 33 ==> #[trigger] raknet_ping(time_ms)[i] == 0,
{
    reveal_with_fuel(pow256, 9);
    assert(pow256(8) == 0x10000000000000000);
    lemma_be_bytes_roundtrip(time_ms as nat, 8);
    lemma_be_bytes_zero(8);
    let p = raknet_ping(time_ms);
    assert(p.subrange(1, 9) =~= be_bytes(time_ms as nat, 8));
    assert(p.subrange(9, 25) =~= raknet_magic());
    assert forall|i: int| 25 <= i < 33 implies #[trigger] p[i] == 0 by {
        assert(p[i] == be_bytes(0, 8)[i - 25]);
    }
}

} // verus!

verus! {

/// The announcement's tags and the MOTD separator, character by character.
pub proof fn announcement_tags_say()
    ensures
        motd_open() == seq!['[', 'M', 'O', 'T', 'D', ']'],
        motd_close_ad_open() == seq!['[', '/', 'M', 'O', 'T', 'D', ']', '[', 'A', 'D', ']'],
        ad_close() == seq!['[', '/', 'A', 'D', ']'],
        motd_separator() == seq![' ', '-', ' '],
{
    reveal_strlit("[MOTD]");
    reveal_strlit("[/MOTD][AD]");
    reveal_strlit("[/AD]");
    reveal_strlit(" - ");
    assert(motd_open() =~= seq!['[', 'M', 'O', 'T', 'D', ']']);
    assert(motd_close_ad_open() =~= seq!['[', '/', 'M', 'O', 'T', 'D', ']', '[', 'A', 'D', ']']);
    assert(ad_close() =~= seq!['[', '/', 'A', 'D', ']']);
    assert(motd_separator() =~= seq![' ', '-', ' ']);
}

} // verus!
