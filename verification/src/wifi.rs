//! The WiFi link: its published status, the statistics of the access point in
//! use, and the decisions of the task that keeps the link up.
use vstd::prelude::*;
use vstd::utf8::{encode_utf8, is_ascii_chars, is_ascii_chars_encode_utf8};

use crate::bounded::{
    address_push_str, address_text, copy_network, empty_address, empty_network, network_is,
    network_text,
};
use crate::text::push_char;

verus! {

/// Details of the access point the device is associated with.
#[derive(Debug)]
pub struct ConnectionStats {
    pub rssi: i8,
    pub channel: u8,
    pub bssid: heapless::String<17>,
    pub ssid: heapless::String<32>,
}

/// The WiFi status shown to the rest of the device.
pub enum ConnectionState {
    Failed,
    Connecting,
    Connected(ConnectionStats),
}

/// One access point found by a scan.
pub struct AccessPoint {
    pub ssid: heapless::String<32>,
    pub bssid: [u8; 6],
    pub channel: u8,
    pub signal_strength: i8,
}

// ---------------------------------------------------------------------------
// Hardware addresses
// ---------------------------------------------------------------------------

/// The upper-case hexadecimal digit for `d` (0 ..= 15).
pub open spec fn hex_digit(d: nat) -> char
    recommends
        d < 16,
{
    if d < 10 {
        (d + 48) as char
    } else {
        (d + 55) as char
    }
}

/// The value of an upper-case hexadecimal digit.
pub open spec fn hex_value(c: char) -> int {
    if c as int >= 65 {
        c as int - 55
    } else {
        c as int - 48
    }
}

/// A byte as two upper-case hexadecimal digits.
pub open spec fn hex_pair(b: u8) -> Seq<char> {
    seq![hex_digit((b / 16) as nat), hex_digit((b % 16) as nat)]
}

/// A six-byte hardware address as `XX:XX:XX:XX:XX:XX`.
pub open spec fn address_format(mac: Seq<u8>) -> Seq<char>
    recommends
        mac.len() == 6,
{
    hex_pair(mac[0]) + seq![':'] + hex_pair(mac[1]) + seq![':'] + hex_pair(mac[2]) + seq![':']
        + hex_pair(mac[3]) + seq![':'] + hex_pair(mac[4]) + seq![':'] + hex_pair(mac[5])
}

fn hex_char(d: u8) -> (c: char)
    requires
        d < 16,
    ensures
        c == hex_digit(d as nat),
{
    if d < 10 {
        (d + 48) as char
    } else {
        (d + 55) as char
    }
}

fn push_hex_pair(s: &mut String, b: u8)
    ensures
        final(s)@ == old(s)@ + hex_pair(b),
{
    push_char(s, hex_char(b / 16));
    push_char(s, hex_char(b % 16));
    assert(final(s)@ =~= old(s)@ + hex_pair(b));
}

/// The address `mac` written as six colon-separated pairs of upper-case hex digits.
pub fn address_label(mac: [u8; 6]) -> (s: String)
    ensures
        s@ == address_format(mac@),
{
    let mut s = String::new();
    push_hex_pair(&mut s, mac[0]);
    push_char(&mut s, ':');
    push_hex_pair(&mut s, mac[1]);
    push_char(&mut s, ':');
    push_hex_pair(&mut s, mac[2]);
    push_char(&mut s, ':');
    push_hex_pair(&mut s, mac[3]);
    push_char(&mut s, ':');
    push_hex_pair(&mut s, mac[4]);
    push_char(&mut s, ':');
    push_hex_pair(&mut s, mac[5]);
    assert(s@ =~= address_format(mac@));
    s
}

/// The formatted address is 17 ASCII characters.
pub proof fn lemma_address_shape(mac: Seq<u8>)
    requires
        mac.len() == 6,
    ensures
        address_format(mac).len() == 17,
        is_ascii_chars(address_format(mac)),
        encode_utf8(address_format(mac)).len() == 17,
{
    let t = address_format(mac);
    assert(t.len() == 17);
    assert forall|i| 0 <= i < t.len() implies '\0' <= #[trigger] t[i] <= '\u{7f}' by {
        assert(t[i] as int >= 48 || t[i] == ':');
    }
    is_ascii_chars_encode_utf8(t);
}

/// Reading the formatted address back gives the address: pair `i` spells
/// byte `i`, and the pairs are separated by colons.
pub proof fn lemma_address_reads_back(mac: Seq<u8>)
    requires
        mac.len() == 6,
    ensures
        forall|i: int|
            0 <= i < 6 ==> hex_value(#[trigger] address_format(mac)[3 * i]) * 16 + hex_value(
                address_format(mac)[3 * i + 1],
            ) == mac[i],
        forall|i: int| 0 <= i < 5 ==> #[trigger] address_format(mac)[3 * i + 2] == ':',
{
    let t = address_format(mac);
    assert forall|i: int| 0 <= i < 6 implies hex_value(#[trigger] t[3 * i]) * 16 + hex_value(
        t[3 * i + 1],
    ) == mac[i] by {
        assert(t[3 * i] == hex_digit((mac[i] / 16) as nat));
        assert(t[3 * i + 1] == hex_digit((mac[i] % 16) as nat));
    }
}

// ---------------------------------------------------------------------------
// Connection statistics
// ---------------------------------------------------------------------------

impl ConnectionState {
    /// Records the access point's hardware address in the statistics of a
    /// connected state; other states are left as they are.
    pub fn with_bssid(&mut self, mac: [u8; 6])
        requires
            *old(self) matches ConnectionState::Connected(st) ==> address_text(st.bssid).len() == 0,
        ensures
            match *old(self) {
                ConnectionState::Connected(st) => *final(self) matches ConnectionState::Connected(
                    st2,
                ) && st2.rssi == st.rssi && st2.channel == st.channel && st2.ssid == st.ssid
                    && address_text(st2.bssid) == address_format(mac@),
                ConnectionState::Failed => *final(self) is Failed,
                ConnectionState::Connecting => *final(self) is Connecting,
            },
    {
        match self {
            ConnectionState::Connected(state) => {
                let text = address_label(mac);
                proof {
                    lemma_address_shape(mac@);
                    assert(encode_utf8(address_text(state.bssid)) =~= Seq::<u8>::empty());
                }
                let _ = address_push_str(&mut state.bssid, text.as_str());
                assert(address_text(state.bssid) =~= address_format(mac@));
            },
            _ => {},
        }
    }
}

/// `aps[i]` is the first access point of the scan named `network`.
pub open spec fn first_named(aps: Seq<AccessPoint>, network: Seq<char>, i: int) -> bool {
    &&& 0 <= i < aps.len()
    &&& network_text(aps[i].ssid) == network
    &&& forall|j: int| 0 <= j < i ==> network_text(#[trigger] aps[j].ssid) != network
}

/// No access point of the scan is named `network`.
pub open spec fn none_named(aps: Seq<AccessPoint>, network: Seq<char>) -> bool {
    forall|j: int| 0 <= j < aps.len() ==> network_text(#[trigger] aps[j].ssid) != network
}

/// The index of the first access point named `network`, if any.
pub fn find_network(aps: &Vec<AccessPoint>, network: &str) -> (r: Option<usize>)
    ensures
        match r {
            Some(i) => first_named(aps@, network@, i as int),
            None => none_named(aps@, network@),
        },
{
    let mut i: usize = 0;
    while i < aps.len()
        invariant
            i <= aps@.len(),
            forall|j: int| 0 <= j < i ==> network_text(#[trigger] aps@[j].ssid) != network@,
        decreases aps@.len() - i,
    {
        if network_is(&aps[i].ssid, network) {
            return Some(i);
        }
        i = i + 1;
    }
    None
}

/// The statistics reported for access point `ap`.
pub open spec fn reports(st: ConnectionStats, ap: AccessPoint) -> bool {
    &&& st.rssi == ap.signal_strength
    &&& st.channel == ap.channel
    &&& network_text(st.ssid) == network_text(ap.ssid)
    &&& address_text(st.bssid) == address_format(ap.bssid@)
}

/// The connected state that describes access point `ap`.
pub fn connected_to(ap: &AccessPoint) -> (s: ConnectionState)
    ensures
        s matches ConnectionState::Connected(st) && reports(st, *ap),
{
    let mut state = ConnectionState::Connected(
        ConnectionStats {
            rssi: ap.signal_strength,
            channel: ap.channel,
            ssid: copy_network(&ap.ssid),
            bssid: empty_address(),
        },
    );
    state.with_bssid(ap.bssid);
    state
}

/// The connected state published while the link is up but not yet described.
pub fn connected_without_details() -> (s: ConnectionState)
    ensures
        s matches ConnectionState::Connected(st) && st.rssi == 0 && st.channel == 0
            && address_text(st.bssid).len() == 0 && network_text(st.ssid).len() == 0,
{
    ConnectionState::Connected(
        ConnectionStats { rssi: 0, channel: 0, bssid: empty_address(), ssid: empty_network() },
    )
}

// ---------------------------------------------------------------------------
// The task that keeps the link up
// ---------------------------------------------------------------------------

/// Where the link task stands: each phase awaits the outcome of one action.
#[derive(Debug, Clone, Copy, PartialEq, Eq, Structural)]
pub enum WifiPhase {
    CheckingLink,
    Watching,
    Scanning,
    Stopping,
    CoolingDown,
    CheckingStarted,
    Starting,
    Joining,
    JoinBackoff,
}

/// What the link task asks to be done next.
#[derive(Debug, Clone, Copy, PartialEq, Eq, Structural)]
pub enum WifiAction {
    /// Read whether the station is associated.
    CheckLink,
    /// Wait for a disconnect event, at most `secs` seconds.
    WatchForDisconnect { secs: u64 },
    /// Scan for access points.
    Scan,
    /// Stop the WiFi controller.
    StopController,
    /// Wait `secs` seconds.
    Sleep { secs: u64 },
    /// Ask whether the controller is started.
    CheckStarted,
    /// Configure the station with the network's credentials and start the controller.
    ConfigureAndStart,
    /// Associate with the network.
    Join,
}

/// The outcome of an action.
pub enum WifiOutcome {
    Link { connected: bool },
    Watched { disconnected: bool },
    /// The access points found, or `None` when the scan failed.
    Scanned(Option<Vec<AccessPoint>>),
    Stopped,
    Slept,
    /// Whether the controller is started, or `None` when that could not be read.
    StartedQuery(Option<bool>),
    StartDone,
    Joined { ok: bool },
}

/// A status to publish (if any), then the action to perform.
pub struct WifiStep {
    pub publish: Option<ConnectionState>,
    pub action: WifiAction,
}

/// The decisions of the task that keeps the WiFi link up.
pub struct WifiTask {
    pub phase: WifiPhase,
}

/// The action that a phase awaits the outcome of.
pub open spec fn phase_action(p: WifiPhase) -> WifiAction {
    match p {
        WifiPhase::CheckingLink => WifiAction::CheckLink,
        WifiPhase::Watching => WifiAction::WatchForDisconnect { secs: 60 },
        WifiPhase::Scanning => WifiAction::Scan,
        WifiPhase::Stopping => WifiAction::StopController,
        WifiPhase::CoolingDown => WifiAction::Sleep { secs: 10 },
        WifiPhase::CheckingStarted => WifiAction::CheckStarted,
        WifiPhase::Starting => WifiAction::ConfigureAndStart,
        WifiPhase::Joining => WifiAction::Join,
        WifiPhase::JoinBackoff => WifiAction::Sleep { secs: 2 },
    }
}

/// The phase after outcome `o` in phase `p`; an outcome the phase does not
/// await leaves it where it is.
pub open spec fn next_phase(p: WifiPhase, o: WifiOutcome) -> WifiPhase {
    match (p, o) {
        (WifiPhase::CheckingLink, WifiOutcome::Link { connected }) => if connected {
            WifiPhase::Watching
        } else {
            WifiPhase::Stopping
        },
        (WifiPhase::Watching, WifiOutcome::Watched { disconnected }) => if disconnected {
            WifiPhase::Stopping
        } else {
            WifiPhase::Scanning
        },
        (WifiPhase::Scanning, WifiOutcome::Scanned(_)) => WifiPhase::CheckingLink,
        (WifiPhase::Stopping, WifiOutcome::Stopped) => WifiPhase::CoolingDown,
        (WifiPhase::CoolingDown, WifiOutcome::Slept) => WifiPhase::CheckingStarted,
        (WifiPhase::CheckingStarted, WifiOutcome::StartedQuery(started)) => if started == Some(
            false,
        ) {
            WifiPhase::Starting
        } else {
            WifiPhase::Joining
        },
        (WifiPhase::Starting, WifiOutcome::StartDone) => WifiPhase::Joining,
        (WifiPhase::Joining, WifiOutcome::Joined { ok }) => if ok {
            WifiPhase::CheckingLink
        } else {
            WifiPhase::JoinBackoff
        },
        (WifiPhase::JoinBackoff, WifiOutcome::Slept) => WifiPhase::Joining,
        (p, _) => p,
    }
}

/// `publish` is what the task publishes on outcome `o` in phase `p`.
pub open spec fn publishes(
    p: WifiPhase,
    o: WifiOutcome,
    network: Seq<char>,
    publish: Option<ConnectionState>,
) -> bool {
    match (p, o) {
        (WifiPhase::CheckingLink, WifiOutcome::Link { connected }) => if connected {
            publish matches Some(ConnectionState::Connected(st)) && st.rssi == 0 && st.channel == 0
                && address_text(st.bssid).len() == 0 && network_text(st.ssid).len() == 0
        } else {
            publish matches Some(ConnectionState::Failed)
        },
        (WifiPhase::Watching, WifiOutcome::Watched { disconnected }) => if disconnected {
            publish matches Some(ConnectionState::Failed)
        } else {
            publish is None
        },
        (WifiPhase::Scanning, WifiOutcome::Scanned(Some(aps))) => {
            &&& none_named(aps@, network) <==> publish is None
            &&& forall|i: int|
                first_named(aps@, network, i) ==> (publish matches Some(
                    ConnectionState::Connected(st),
                ) && reports(st, aps@[i]))
        },
        (WifiPhase::Joining, WifiOutcome::Joined { ok }) => if ok {
            publish is None
        } else {
            publish matches Some(ConnectionState::Failed)
        },
        _ => publish is None,
    }
}

impl WifiTask {
    /// The task at its start: it publishes `Connecting` and checks the link.
    pub fn new() -> (r: (WifiTask, WifiStep))
        ensures
            r.0.phase == WifiPhase::CheckingLink,
            r.1.publish matches Some(ConnectionState::Connecting),
            r.1.action == phase_action(r.0.phase),
    {
        (
            WifiTask { phase: WifiPhase::CheckingLink },
            WifiStep { publish: Some(ConnectionState::Connecting), action: WifiAction::CheckLink },
        )
    }

    /// Takes the outcome of the last action and decides what to publish and do next.
    /// `network` is the name of the configured network.
    pub fn step(&mut self, outcome: WifiOutcome, network: &str) -> (r: WifiStep)
        ensures
            final(self).phase == next_phase(old(self).phase, outcome),
            r.action == phase_action(final(self).phase),
            publishes(old(self).phase, outcome, network@, r.publish),
    {
        let phase = self.phase;
        let (next, publish): (WifiPhase, Option<ConnectionState>) = match outcome {
            WifiOutcome::Link { connected } => {
                if phase == WifiPhase::CheckingLink {
                    if connected {
                        (WifiPhase::Watching, Some(connected_without_details()))
                    } else {
                        (WifiPhase::Stopping, Some(ConnectionState::Failed))
                    }
                } else {
                    (phase, None)
                }
            },
            WifiOutcome::Watched { disconnected } => {
                if phase == WifiPhase::Watching {
                    if disconnected {
                        (WifiPhase::Stopping, Some(ConnectionState::Failed))
                    } else {
                        (WifiPhase::Scanning, None)
                    }
                } else {
                    (phase, None)
                }
            },
            WifiOutcome::Scanned(found) => {
                if phase == WifiPhase::Scanning {
                    match found {
                        Some(aps) => match find_network(&aps, network) {
                            Some(i) => (WifiPhase::CheckingLink, Some(connected_to(&aps[i]))),
                            None => (WifiPhase::CheckingLink, None),
                        },
                        None => (WifiPhase::CheckingLink, None),
                    }
                } else {
                    (phase, None)
                }
            },
            WifiOutcome::Stopped => {
                if phase == WifiPhase::Stopping {
                    (WifiPhase::CoolingDown, None)
                } else {
                    (phase, None)
                }
            },
            WifiOutcome::Slept => {
                if phase == WifiPhase::CoolingDown {
                    (WifiPhase::CheckingStarted, None)
                } else if phase == WifiPhase::JoinBackoff {
                    (WifiPhase::Joining, None)
                } else {
                    (phase, None)
                }
            },
            WifiOutcome::StartedQuery(started) => {
                if phase == WifiPhase::CheckingStarted {
                    match started {
                        Some(false) => (WifiPhase::Starting, None),
                        _ => (WifiPhase::Joining, None),
                    }
                } else {
                    (phase, None)
                }
            },
            WifiOutcome::StartDone => {
                if phase == WifiPhase::Starting {
                    (WifiPhase::Joining, None)
                } else {
                    (phase, None)
                }
            },
            WifiOutcome::Joined { ok } => {
                if phase == WifiPhase::Joining {
                    if ok {
                        (WifiPhase::CheckingLink, None)
                    } else {
                        (WifiPhase::JoinBackoff, Some(ConnectionState::Failed))
                    }
                } else {
                    (phase, None)
                }
            },
        };
        self.phase = next;
        let action = match next {
            WifiPhase::CheckingLink => WifiAction::CheckLink,
            WifiPhase::Watching => WifiAction::WatchForDisconnect { secs: 60 },
            WifiPhase::Scanning => WifiAction::Scan,
            WifiPhase::Stopping => WifiAction::StopController,
            WifiPhase::CoolingDown => WifiAction::Sleep { secs: 10 },
            WifiPhase::CheckingStarted => WifiAction::CheckStarted,
            WifiPhase::Starting => WifiAction::ConfigureAndStart,
            WifiPhase::Joining => WifiAction::Join,
            WifiPhase::JoinBackoff => WifiAction::Sleep { secs: 2 },
        };
        WifiStep { publish, action }
    }
}

// ---------------------------------------------------------------------------
// Laws
// ---------------------------------------------------------------------------

/// Whenever the task goes on to stop the controller (the link was found down
/// or was lost), it has just published `Failed`.
pub proof fn lemma_failed_before_stop(
    p: WifiPhase,
    o: WifiOutcome,
    network: Seq<char>,
    publish: Option<ConnectionState>,
)
    requires
        publishes(p, o, network, publish),
        next_phase(p, o) == WifiPhase::Stopping,
        p != WifiPhase::Stopping,
    ensures
        publish matches Some(ConnectionState::Failed),
{
}

/// The controller is configured and started only when it reported that it
/// was not started.
pub proof fn lemma_start_only_when_stopped(p: WifiPhase, o: WifiOutcome)
    requires
        next_phase(p, o) == WifiPhase::Starting,
        p != WifiPhase::Starting,
    ensures
        p == WifiPhase::CheckingStarted,
        o matches WifiOutcome::StartedQuery(Some(false)),
{
}

/// `Connected` is published only when the link was just seen up, or when a
/// scan just found the configured network (then with that access point's details).
pub proof fn lemma_connected_only_when_linked(
    p: WifiPhase,
    o: WifiOutcome,
    network: Seq<char>,
    publish: Option<ConnectionState>,
)
    requires
        publishes(p, o, network, publish),
        publish matches Some(ConnectionState::Connected(_)),
    ensures
        ({
            ||| p == WifiPhase::CheckingLink && (o matches WifiOutcome::Link { connected: true })
            ||| p == WifiPhase::Scanning && (o matches WifiOutcome::Scanned(Some(aps))
                && !none_named(aps@, network))
        }),
{
}

/// A failed attempt to join publishes `Failed` and retries after a pause,
/// without stopping the controller.
pub proof fn lemma_join_retry(network: Seq<char>, publish: Option<ConnectionState>)
    requires
        publishes(WifiPhase::Joining, WifiOutcome::Joined { ok: false }, network, publish),
    ensures
        publish matches Some(ConnectionState::Failed),
        next_phase(WifiPhase::Joining, WifiOutcome::Joined { ok: false }) == WifiPhase::JoinBackoff,
        phase_action(WifiPhase::JoinBackoff) == (WifiAction::Sleep { secs: 2 }),
        next_phase(WifiPhase::JoinBackoff, WifiOutcome::Slept) == WifiPhase::Joining,
{
}

} // verus!
