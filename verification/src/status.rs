//! The application's status (idle, hosting, or connected to a host) and how
//! hosting and connecting change it.
use vstd::prelude::*;
use crate::lobby::{host_started_log_line, host_started_log_text};
use crate::text::{concat, decimal, decimal_string};

verus! {

/// What the user interface shows of the application's state.
#[derive(Clone, Debug, PartialEq, Eq)]
pub struct AppStatus {
    /// `"idle"`, `"host"` or `"client"`.
    pub mode: String,
    pub state: String,
    pub client_id: String,
    pub logs: Vec<String>,
    pub public_udp_addr: Option<String>,
    pub local_game_port: Option<u16>,
    pub max_players: Option<u32>,
    pub bedrock_port: Option<u16>,
}

/// The text of each field of an [`AppStatus`].
pub struct AppStatusView {
    pub mode: Seq<char>,
    pub state: Seq<char>,
    pub client_id: Seq<char>,
    pub logs: Seq<Seq<char>>,
    pub public_udp_addr: Option<Seq<char>>,
    pub local_game_port: Option<u16>,
    pub max_players: Option<u32>,
    pub bedrock_port: Option<u16>,
}

/// The text of an optional string.
pub open spec fn opt_text(o: Option<String>) -> Option<Seq<char>> {
    match o {
        Some(s) => Some(s@),
        None => None,
    }
}

impl View for AppStatus {
    type V = AppStatusView;

    open spec fn view(&self) -> AppStatusView {
        AppStatusView {
            mode: self.mode@,
            state: self.state@,
            client_id: self.client_id@,
            logs: self.logs@.map_values(|l: String| l@),
            public_udp_addr: opt_text(self.public_udp_addr),
            local_game_port: self.local_game_port,
            max_players: self.max_players,
            bedrock_port: self.bedrock_port,
        }
    }
}

/// The status of a client that has just started: idle, no log, nothing known.
pub open spec fn initial_status(client_id: Seq<char>) -> AppStatusView {
    AppStatusView {
        mode: "idle"@,
        state: "idle"@,
        client_id,
        logs: seq![],
        public_udp_addr: None,
        local_game_port: None,
        max_players: None,
        bedrock_port: None,
    }
}

/// The status once hosting has started on `port`, with the public address
/// found (if any) and the log record of the start appended.
pub open spec fn hosting_started(
    s: AppStatusView,
    port: u16,
    public_address: Option<Seq<char>>,
    record: Seq<char>,
) -> AppStatusView {
    AppStatusView {
        mode: "host"@,
        state: "hosting"@,
        local_game_port: Some(port),
        public_udp_addr: public_address,
        max_players: Some(30),
        logs: s.logs.push(record),
        ..s
    }
}

/// The status once hosting has stopped: idle again, all else kept.
pub open spec fn hosting_stopped(s: AppStatusView) -> AppStatusView {
    AppStatusView { mode: "idle"@, state: "idle"@, ..s }
}

/// The status once connected to a host through the local address
/// `local_address`, with a log line saying where to join.
pub open spec fn peer_connected(s: AppStatusView, local_address: Seq<char>) -> AppStatusView {
    AppStatusView {
        mode: "client"@,
        state: "connected"@,
        logs: s.logs.push("Подключено! Заходите на "@ + local_address),
        ..s
    }
}

impl Default for AppStatus {
    fn default() -> (s: AppStatus)
        ensures
            s@.mode == Seq::<char>::empty() && s@.state == Seq::<char>::empty()
                && s@.client_id == Seq::<char>::empty() && s@.logs == Seq::<Seq<char>>::empty()
                && s.public_udp_addr is None && s.local_game_port is None
                && s.max_players is None && s.bedrock_port is None,
    {
        let s = AppStatus {
            mode: String::new(),
            state: String::new(),
            client_id: String::new(),
            logs: Vec::new(),
            public_udp_addr: None,
            local_game_port: None,
            max_players: None,
            bedrock_port: None,
        };
        assert(s@.logs =~= Seq::<Seq<char>>::empty());
        s
    }
}

impl AppStatus {
    /// The status of a client that has just started with id `client_id`.
    pub fn initial(client_id: String) -> (s: AppStatus)
        ensures
            s@ == initial_status(client_id@),
    {
        let s = AppStatus {
            mode: String::from_str("idle"),
            state: String::from_str("idle"),
            client_id,
            logs: Vec::new(),
            public_udp_addr: None,
            local_game_port: None,
            max_players: None,
            bedrock_port: None,
        };
        assert(s@.logs =~= Seq::<Seq<char>>::empty());
        s
    }
}

/// A copy of the status, for the user interface.
pub fn get_status(status: &AppStatus) -> (copy: AppStatus)
    ensures
        copy@ == status@,
{
    let logs = status.logs.clone();
    assert(logs@ =~= status.logs@);
    let public_udp_addr = match &status.public_udp_addr {
        Some(a) => Some(a.clone()),
        None => None,
    };
    AppStatus {
        mode: status.mode.clone(),
        state: status.state.clone(),
        client_id: status.client_id.clone(),
        logs,
        public_udp_addr,
        local_game_port: status.local_game_port,
        max_players: status.max_players,
        bedrock_port: status.bedrock_port,
    }
}

/// Records that hosting started on `port`, with the log line of the start.
/// Returns the port as text, as the user interface shows it.
pub fn record_hosting_started(
    status: &mut AppStatus,
    port: u16,
    public_address: Option<String>,
) -> (shown: String)
    ensures
        final(status)@ == hosting_started(
            old(status)@,
            port,
            opt_text(public_address),
            host_started_log_text(port, opt_text(public_address)),
        ),
        final(status)@ == apply_command(
            old(status)@,
            StatusCommand::StartHosting { port, public_address: opt_text(public_address) },
        ),
        shown@ == decimal(port as nat),
{
    let record = host_started_log_line(port, &public_address);
    let ghost rec = record;
    status.mode = String::from_str("host");
    status.state = String::from_str("hosting");
    status.local_game_port = Some(port);
    status.public_udp_addr = public_address;
    status.max_players = Some(30);
    status.logs.push(record);
    assert(status@.logs =~= old(status)@.logs.push(rec@));
    decimal_string(port as u128)
}

/// Records that hosting stopped.
pub fn stop_hosting(status: &mut AppStatus)
    ensures
        final(status)@ == hosting_stopped(old(status)@),
        final(status)@ == apply_command(old(status)@, StatusCommand::StopHosting),
{
    status.mode = String::from_str("idle");
    status.state = String::from_str("idle");
}

/// `127.0.0.1:port`, the local address the game connects to.
pub open spec fn loopback_text(port: u16) -> Seq<char> {
    "127.0.0.1:"@ + decimal(port as nat)
}

/// The local address for `port`.
pub fn loopback_address(port: u16) -> (s: String)
    ensures
        s@ == loopback_text(port),
{
    let p = decimal_string(port as u128);
    concat("127.0.0.1:", p.as_str())
}

/// Records that the tunnel to a host listens on local `port`, and returns
/// the local address the game should join.
pub fn record_peer_connected(status: &mut AppStatus, port: u16) -> (local_address: String)
    ensures
        local_address@ == loopback_text(port),
        final(status)@ == peer_connected(old(status)@, loopback_text(port)),
        final(status)@ == apply_command(
            old(status)@,
            StatusCommand::ConnectToPeer { local_port: port },
        ),
{
    let local = loopback_address(port);
    let line = concat("Подключено! Заходите на ", local.as_str());
    let ghost l = line;
    status.mode = String::from_str("client");
    status.state = String::from_str("connected");
    status.logs.push(line);
    assert(status@.logs =~= old(status)@.logs.push(l@));
    local
}

/// The address to connect to: the first one offered; an error when none is.
pub fn first_peer_address(peer_addrs: &Vec<String>) -> (r: Result<String, String>)
    ensures
        peer_addrs.len() == 0 ==> (r matches Err(e) && e@ == "Нет адресов для подключения"@),
        peer_addrs.len() > 0 ==> (r matches Ok(a) && a@ == peer_addrs@[0]@),
{
    if peer_addrs.len() == 0 {
        Err(String::from_str("Нет адресов для подключения"))
    } else {
        Ok(peer_addrs[0].clone())
    }
}

/// `client-<n>`, the id of a client that drew `n`.
pub open spec fn client_id_text(n: u16) -> Seq<char> {
    "client-"@ + decimal(n as nat)
}

/// The client id for the number `n`.
pub fn client_id_for(n: u16) -> (id: String)
    ensures
        id@ == client_id_text(n),
{
    let d = decimal_string(n as u128);
    concat("client-", d.as_str())
}

/// Wraps `rand::random::<u16>()`: any 16-bit number.
#[verifier::external_body]
fn random_u16() -> (n: u16) {
    rand::random::<u16>()
}

/// A fresh client id: `client-` and a random 16-bit number.
pub fn new_client_id() -> (id: String)
    ensures
        exists|n: u16| id@ == #[trigger] client_id_text(n),
{
    client_id_for(random_u16())
}

} // verus!

verus! {

/// `a` is a prefix of `b`.
pub open spec fn is_prefix(a: Seq<Seq<char>>, b: Seq<Seq<char>>) -> bool {
    a.len() <= b.len() && b.subrange(0, a.len() as int) == a
}

/// No status update loses a log line or changes the client's id: the old log
/// is a prefix of the new one, and the id stays.
pub proof fn updates_keep_log_and_id(
    s: AppStatusView,
    port: u16,
    public_address: Option<Seq<char>>,
    record: Seq<char>,
    local_address: Seq<char>,
)
    ensures
        is_prefix(s.logs, hosting_started(s, port, public_address, record).logs),
        is_prefix(s.logs, hosting_stopped(s).logs),
        is_prefix(s.logs, peer_connected(s, local_address).logs),
        hosting_started(s, port, public_address, record).client_id == s.client_id,
        hosting_stopped(s).client_id == s.client_id,
        peer_connected(s, local_address).client_id == s.client_id,
{
    assert(hosting_started(s, port, public_address, record).logs.subrange(0, s.logs.len() as int)
        =~= s.logs);
    assert(hosting_stopped(s).logs.subrange(0, s.logs.len() as int) =~= s.logs);
    assert(peer_connected(s, local_address).logs.subrange(0, s.logs.len() as int) =~= s.logs);
}

/// Stopping a host makes the client idle again but keeps what the session
/// found out: the port, the public address and the log.
pub proof fn stop_after_start_keeps_session(
    s: AppStatusView,
    port: u16,
    public_address: Option<Seq<char>>,
    record: Seq<char>,
)
    ensures
        hosting_stopped(hosting_started(s, port, public_address, record)).mode == "idle"@,
        hosting_stopped(hosting_started(s, port, public_address, record)).state == "idle"@,
        hosting_stopped(hosting_started(s, port, public_address, record)).local_game_port == Some(
            port,
        ),
        hosting_stopped(hosting_started(s, port, public_address, record)).public_udp_addr
            == public_address,
        hosting_stopped(hosting_started(s, port, public_address, record)).logs == s.logs.push(
            record,
        ),
{
}

/// Stopping twice is stopping once.
pub proof fn stop_is_idempotent(s: AppStatusView)
    ensures
        hosting_stopped(hosting_stopped(s)) == hosting_stopped(s),
{
}

} // verus!

verus! {

/// A command as it bears on the status. Commands that fail, and those that
/// only read or touch other state (reading the status, kicking a player,
/// publishing, the lobby), leave it `Unchanged`.
pub enum StatusCommand {
    StartHosting { port: u16, public_address: Option<Seq<char>> },
    StopHosting,
    ConnectToPeer { local_port: u16 },
    Unchanged,
}

/// The status after one command.
pub open spec fn apply_command(s: AppStatusView, c: StatusCommand) -> AppStatusView {
    match c {
        StatusCommand::StartHosting { port, public_address } => hosting_started(
            s,
            port,
            public_address,
            host_started_log_text(port, public_address),
        ),
        StatusCommand::StopHosting => hosting_stopped(s),
        StatusCommand::ConnectToPeer { local_port } => peer_connected(s, loopback_text(local_port)),
        StatusCommand::Unchanged => s,
    }
}

/// The status after the commands, in order.
pub open spec fn run_commands(s: AppStatusView, cs: Seq<StatusCommand>) -> AppStatusView
    decreases cs.len(),
{
    if cs.len() == 0 {
        s
    } else {
        apply_command(run_commands(s, cs.drop_last()), cs.last())
    }
}

/// Mode and state go together: idle and idle, host and hosting, or client
/// and connected.
pub open spec fn mode_matches_state(s: AppStatusView) -> bool {
    ||| s.mode == "idle"@ && s.state == "idle"@
    ||| s.mode == "host"@ && s.state == "hosting"@
    ||| s.mode == "client"@ && s.state == "connected"@
}

proof fn lemma_run_commands(s: AppStatusView, cs: Seq<StatusCommand>)
    requires
        mode_matches_state(s),
    ensures
        mode_matches_state(run_commands(s, cs)),
        run_commands(s, cs).client_id == s.client_id,
        forall|i: int|
            0 <= i <= cs.len() ==> is_prefix(
                #[trigger] run_commands(s, cs.take(i)).logs,
                run_commands(s, cs).logs,
            ),
    decreases cs.len(),
{
    if cs.len() > 0 {
        let init = cs.drop_last();
        lemma_run_commands(s, init);
        let before = run_commands(s, init);
        let after = run_commands(s, cs);
        assert(after == apply_command(before, cs.last()));
        assert(is_prefix(before.logs, after.logs)) by {
            assert(after.logs.subrange(0, before.logs.len() as int) =~= before.logs);
        }
        assert forall|i: int| 0 <= i <= cs.len() implies is_prefix(
            #[trigger] run_commands(s, cs.take(i)).logs,
            after.logs,
        ) by {
            if i == cs.len() {
                assert(cs.take(i) =~= cs);
                assert(after.logs.subrange(0, after.logs.len() as int) =~= after.logs);
            } else {
                assert(cs.take(i) =~= init.take(i));
                let mid = run_commands(s, init.take(i)).logs;
                assert(is_prefix(mid, before.logs));
                assert(after.logs.subrange(0, mid.len() as int) =~= before.logs.subrange(
                    0,
                    mid.len() as int,
                ));
            }
        }
    } else {
        assert forall|i: int| 0 <= i <= cs.len() implies is_prefix(
            #[trigger] run_commands(s, cs.take(i)).logs,
            run_commands(s, cs).logs,
        ) by {
            assert(cs.take(i) =~= cs);
            assert(s.logs.subrange(0, s.logs.len() as int) =~= s.logs);
        }
    }
}

/// Over any sequence of commands from start-up: mode and state always go
/// together, the client id never changes, and the log only grows (the log
/// after any prefix of the commands is a prefix of the log after more).
pub proof fn status_law_over_commands(client_id: Seq<char>, cs: Seq<StatusCommand>)
    ensures
        mode_matches_state(run_commands(initial_status(client_id), cs)),
        run_commands(initial_status(client_id), cs).client_id == client_id,
        forall|i: int, j: int|
            0 <= i <= j <= cs.len() ==> is_prefix(
                #[trigger] run_commands(initial_status(client_id), cs.take(i)).logs,
                #[trigger] run_commands(initial_status(client_id), cs.take(j)).logs,
            ),
{
    let s = initial_status(client_id);
    lemma_run_commands(s, cs);
    assert forall|i: int, j: int| 0 <= i <= j <= cs.len() implies is_prefix(
        #[trigger] run_commands(s, cs.take(i)).logs,
        #[trigger] run_commands(s, cs.take(j)).logs,
    ) by {
        lemma_run_commands(s, cs.take(j));
        assert(cs.take(j).take(i) =~= cs.take(i));
        assert(run_commands(s, cs.take(j).take(i)) == run_commands(s, cs.take(i)));
    }
}

} // verus!

verus! {

/// What hosting does once the tunnel has been started (or failed to start).
pub enum HostingStep {
    /// The tunnel failed: log `log_line`, leave the status as it is, and
    /// end with `error`.
    Abort { log_line: String, error: String },
    /// The tunnel listens on `port`: publish the presence, then record the
    /// start.
    Publish { port: u16, public_address: Option<String> },
}

/// Decides what follows the start of the tunnel.
pub fn after_tunnel_start(started: Result<(u16, Option<String>), String>) -> (step: HostingStep)
    ensures
        match started {
            Ok((port, public_address)) => step == HostingStep::Publish { port, public_address },
            Err(e) => step matches HostingStep::Abort { log_line, error } && error == e
                && log_line@ == "run_host failed: "@ + e@,
        },
{
    match started {
        Ok((port, public_address)) => HostingStep::Publish { port, public_address },
        Err(e) => {
            let log_line = concat("run_host failed: ", e.as_str());
            HostingStep::Abort { log_line, error: e }
        },
    }
}

/// The log line after publishing the presence. A failed publish is only
/// logged: hosting goes on.
pub fn publish_outcome_log(published: &Result<(), String>) -> (line: String)
    ensures
        match published {
            Ok(_) => line@ == "Опубликовано успешно"@,
            Err(e) => line@ == "Ошибка публикации: "@ + e@,
        },
{
    match published {
        Ok(_) => String::from_str("Опубликовано успешно"),
        Err(e) => concat("Ошибка публикации: ", e.as_str()),
    }
}

} // verus!

verus! {

/// What each update does to the status. Starting to host sets mode "host"
/// and state "hosting", the port, the public address and room for 30
/// players, and appends the start's log line; stopping sets mode and state
/// back to "idle"; connecting sets mode "client" and state "connected" and
/// appends where to join. Nothing else changes.
pub proof fn status_updates_say(
    s: AppStatusView,
    port: u16,
    public_address: Option<Seq<char>>,
    record: Seq<char>,
    local_address: Seq<char>,
)
    ensures
        ({
            let h = hosting_started(s, port, public_address, record);
            &&& h.mode == "host"@ && h.state == "hosting"@
            &&& h.local_game_port == Some(port) && h.public_udp_addr == public_address
            &&& h.max_players == Some(30u32)
            &&& h.logs.len() == s.logs.len() + 1 && h.logs.last() == record
                && h.logs.drop_last() == s.logs
            &&& h.client_id == s.client_id && h.bedrock_port == s.bedrock_port
        }),
        ({
            let t = hosting_stopped(s);
            &&& t.mode == "idle"@ && t.state == "idle"@
            &&& t.logs == s.logs && t.client_id == s.client_id
            &&& t.local_game_port == s.local_game_port && t.public_udp_addr == s.public_udp_addr
            &&& t.max_players == s.max_players && t.bedrock_port == s.bedrock_port
        }),
        ({
            let c = peer_connected(s, local_address);
            &&& c.mode == "client"@ && c.state == "connected"@
            &&& c.logs.len() == s.logs.len() + 1 && c.logs.drop_last() == s.logs
            &&& c.logs.last() == "Подключено! Заходите на "@ + local_address
            &&& c.client_id == s.client_id && c.local_game_port == s.local_game_port
            &&& c.public_udp_addr == s.public_udp_addr && c.max_players == s.max_players
            &&& c.bedrock_port == s.bedrock_port
        }),
        ({
            let i = initial_status(local_address);
            &&& i.mode == "idle"@ && i.state == "idle"@ && i.client_id == local_address
            &&& i.logs.len() == 0 && i.public_udp_addr is None && i.local_game_port is None
            &&& i.max_players is None && i.bedrock_port is None
        }),
{
    assert(hosting_started(s, port, public_address, record).logs.drop_last() =~= s.logs);
    assert(peer_connected(s, local_address).logs.drop_last() =~= s.logs);
}

/// The local address the game joins is `127.0.0.1`, a colon, and the port.
pub proof fn loopback_address_says(port: u16)
    ensures
        loopback_text(port) == "127.0.0.1:"@ + decimal(port as nat),
        client_id_text(port) == "client-"@ + decimal(port as nat),
{
}

} // verus!
