//! The MQTT session: how received messages update the amplifier's state, and
//! the decisions of the task that keeps the session with the broker alive.
use vstd::prelude::*;
use vstd::utf8::{decode_utf8, encode_utf8_decode_utf8, valid_utf8};

use crate::text::{same_text, utf8_text};
use crate::wxa50::{Input, Power, State};

verus! {

/// Topic on which the volume (a percentage) is published.
pub const MQTT_TOPIC_VOLUME: &'static str = "/amplifier/wxa-50/volume";

/// Topic on which the selected source is published.
pub const MQTT_TOPIC_INPUT: &'static str = "/amplifier/wxa-50/input";

/// Topic on which the power state is published.
pub const MQTT_TOPIC_POWER: &'static str = "/amplifier/wxa-50/power";

/// Topic filter the session subscribes to: every topic under the amplifier's.
pub const MQTT_TOPIC_BASE: &'static str = "/amplifier/wxa-50/#";

/// The reason code that the MQTT client reports when the network failed.
pub const NETWORK_ERROR: u8 = 0xFF;

/// How a failed step of the session is treated.
#[derive(Debug, Clone, Copy, PartialEq, Eq, Structural)]
pub enum MqttError {
    /// The message is dropped; the session goes on.
    Warning,
    /// The session is abandoned and set up again.
    Fatal,
}

/// The MQTT status shown to the rest of the device.
#[derive(Debug, Clone, Copy, PartialEq, Eq, Structural)]
pub enum ConnectionState {
    Failed,
    Connecting,
    Connected,
}

/// The topics the session tells apart.
#[derive(Debug, Clone, Copy, PartialEq, Eq, Structural)]
pub enum Topic {
    Volume,
    Input,
    Power,
    Other,
}

/// The topic named `t`.
pub open spec fn topic_of(t: Seq<char>) -> Topic {
    if t == MQTT_TOPIC_VOLUME@ {
        Topic::Volume
    } else if t == MQTT_TOPIC_INPUT@ {
        Topic::Input
    } else if t == MQTT_TOPIC_POWER@ {
        Topic::Power
    } else {
        Topic::Other
    }
}

/// Whether the topic filter `f` matches topic `t` by the MQTT rules, from
/// the current position on: a `+` stands for the rest of one level (any
/// characters but '/'), a final `#` for any remaining levels, and a final
/// `/#` also matches when the topic ends at the parent level.
pub open spec fn filter_matches_from(f: Seq<char>, t: Seq<char>) -> bool
    decreases f.len() + t.len(),
{
    if f.len() == 0 {
        t.len() == 0
    } else if f == seq!['#'] {
        true
    } else if f == seq!['/', '#'] && t.len() == 0 {
        true
    } else if f[0] == '+' {
        ||| filter_matches_from(f.drop_first(), t)
        ||| t.len() > 0 && t[0] != '/' && filter_matches_from(f, t.drop_first())
    } else {
        t.len() > 0 && f[0] == t[0] && filter_matches_from(f.drop_first(), t.drop_first())
    }
}

/// Whether the topic filter `f` matches topic `t`: a filter that starts with
/// a wildcard does not match topics that start with '$'.
pub open spec fn filter_matches(f: Seq<char>, t: Seq<char>) -> bool {
    &&& !(t.len() > 0 && t[0] == '$' && f.len() > 0 && (f[0] == '#' || f[0] == '+'))
    &&& filter_matches_from(f, t)
}

/// The text of a payload, when it is valid UTF-8.
pub open spec fn payload_text(payload: Seq<u8>) -> Option<Seq<char>> {
    if valid_utf8(payload) {
        Some(decode_utf8(payload))
    } else {
        None
    }
}

/// The power state a payload text announces: on for exactly "ON".
pub open spec fn power_named(t: Seq<char>) -> Power {
    if t == "ON"@ {
        Power::On
    } else {
        Power::Off
    }
}

/// Whether `t` names one of the sources the amplifier reports.
pub open spec fn known_source(t: Seq<char>) -> bool {
    ||| t == "TV (Optical)"@
    ||| t == "Optical"@
    ||| t == "TV (Wired)"@
    ||| t == "Wired"@
    ||| t == "AirPlay"@
    ||| t == "airplay"@
}

/// The source a payload text announces.
pub open spec fn input_named(t: Seq<char>) -> Input {
    if t == "TV (Optical)"@ || t == "Optical"@ {
        Input::Optical
    } else if t == "TV (Wired)"@ || t == "Wired"@ {
        Input::Wired
    } else if t == "AirPlay"@ || t == "airplay"@ {
        Input::AirPlay
    } else {
        Input::Unknown
    }
}

/// The state and result after a volume payload; `reading` is the payload's
/// text read as a binary32 number (its encoding), when it reads as one.
pub open spec fn after_volume(s: State, payload: Seq<u8>, reading: Option<u32>) -> (
    State,
    Result<(), MqttError>,
) {
    match (payload_text(payload), reading) {
        (Some(_), Some(v)) => (State { volume: v, power: s.power, input: s.input }, Ok(())),
        _ => (s, Err(MqttError::Warning)),
    }
}

/// The state and result after a power payload.
pub open spec fn after_power(s: State, payload: Seq<u8>) -> (State, Result<(), MqttError>) {
    match payload_text(payload) {
        Some(t) => (State { volume: s.volume, power: power_named(t), input: s.input }, Ok(())),
        None => (s, Err(MqttError::Warning)),
    }
}

/// The state and result after an input payload.
pub open spec fn after_input(s: State, payload: Seq<u8>) -> (State, Result<(), MqttError>) {
    match payload_text(payload) {
        Some(t) => (State { volume: s.volume, power: s.power, input: input_named(t) }, Ok(())),
        None => (s, Err(MqttError::Warning)),
    }
}

/// The treatment of a failed receive with reason code `code`.
pub open spec fn receive_failure(code: u8) -> MqttError {
    if code == NETWORK_ERROR {
        MqttError::Fatal
    } else {
        MqttError::Warning
    }
}

/// The state and result after a message on topic `topic`.
pub open spec fn after_message(
    s: State,
    topic: Seq<char>,
    payload: Seq<u8>,
    reading: Option<u32>,
) -> (State, Result<(), MqttError>) {
    match topic_of(topic) {
        Topic::Volume => after_volume(s, payload, reading),
        Topic::Input => after_input(s, payload),
        Topic::Power => after_power(s, payload),
        Topic::Other => (s, Ok(())),
    }
}

/// The text of `payload`, when it is valid UTF-8.
fn read_payload(payload: &[u8]) -> (r: Option<&str>)
    ensures
        match payload_text(payload@) {
            Some(t) => r matches Some(s) && s@ == t,
            None => r is None,
        },
{
    let r = utf8_text(payload);
    proof {
        if let Some(s) = r {
            encode_utf8_decode_utf8(s@);
        }
    }
    r
}

/// Tells the topics apart.
pub fn classify_topic(topic: &str) -> (t: Topic)
    ensures
        t == topic_of(topic@),
{
    if same_text(topic, MQTT_TOPIC_VOLUME) {
        Topic::Volume
    } else if same_text(topic, MQTT_TOPIC_INPUT) {
        Topic::Input
    } else if same_text(topic, MQTT_TOPIC_POWER) {
        Topic::Power
    } else {
        Topic::Other
    }
}

/// Applies a volume message. `reading` is the payload's text read as a
/// binary32 number, given as its encoding, or `None` when it does not read as one.
pub fn process_volume_msg(
    state: &mut State,
    payload: &[u8],
    reading: Option<u32>,
) -> (r: Result<(), MqttError>)
    ensures
        (*final(state), r) == after_volume(*old(state), payload@, reading),
        valid_utf8(payload@) && reading is Some ==> r is Ok && final(state).volume
            == reading->0,
        final(state).power == old(state).power && final(state).input == old(state).input,
{
    match read_payload(payload) {
        None => Err(MqttError::Warning),
        Some(_) => match reading {
            None => Err(MqttError::Warning),
            Some(v) => {
                state.volume = v;
                Ok(())
            },
        },
    }
}

/// Applies a power message: "ON" switches on, any other text off.
pub fn process_power_msg(state: &mut State, payload: &[u8]) -> (r: Result<(), MqttError>)
    ensures
        (*final(state), r) == after_power(*old(state), payload@),
{
    match read_payload(payload) {
        None => Err(MqttError::Warning),
        Some(s) => {
            state.power = if same_text(s, "ON") {
                Power::On
            } else {
                Power::Off
            };
            Ok(())
        },
    }
}

/// Applies an input message.
pub fn process_input_msg(state: &mut State, payload: &[u8]) -> (r: Result<(), MqttError>)
    ensures
        (*final(state), r) == after_input(*old(state), payload@),
        valid_utf8(payload@) && !known_source(decode_utf8(payload@)) ==> r is Ok
            && final(state).input == Input::Unknown,
        final(state).volume == old(state).volume && final(state).power == old(state).power,
{
    match read_payload(payload) {
        None => Err(MqttError::Warning),
        Some(s) => {
            state.input = if same_text(s, "TV (Optical)") || same_text(s, "Optical") {
                Input::Optical
            } else if same_text(s, "TV (Wired)") || same_text(s, "Wired") {
                Input::Wired
            } else if same_text(s, "AirPlay") || same_text(s, "airplay") {
                Input::AirPlay
            } else {
                Input::Unknown
            };
            Ok(())
        },
    }
}

/// Applies the outcome of a receive: a message `(topic, payload)`, or the
/// reason code of the failure. `reading` is the payload's text read as a
/// binary32 number (used for volume messages only).
pub fn process_incoming(
    state: &mut State,
    msg: Result<(&str, &[u8]), u8>,
    reading: Option<u32>,
) -> (r: Result<(), MqttError>)
    ensures
        match msg {
            Ok((topic, payload)) => (*final(state), r) == after_message(
                *old(state),
                topic@,
                payload@,
                reading,
            ),
            Err(code) => *final(state) == *old(state) && r == Err::<(), MqttError>(
                receive_failure(code),
            ),
        },
        msg matches Ok((topic, payload)) && topic@ == MQTT_TOPIC_VOLUME@ && valid_utf8(payload@)
            && reading is Some ==> r is Ok && *final(state) == (State {
            volume: reading->0,
            ..*old(state)
        }),
{
    match msg {
        Ok((topic, payload)) => match classify_topic(topic) {
            Topic::Volume => process_volume_msg(state, payload, reading),
            Topic::Input => process_input_msg(state, payload),
            Topic::Power => process_power_msg(state, payload),
            Topic::Other => Ok(()),
        },
        Err(code) => {
            if code == NETWORK_ERROR {
                Err(MqttError::Fatal)
            } else {
                Err(MqttError::Warning)
            }
        },
    }
}

// ---------------------------------------------------------------------------
// The task that keeps the session alive
// ---------------------------------------------------------------------------

/// Where the session task stands: each phase awaits the outcome of one action.
#[derive(Debug, Clone, Copy, PartialEq, Eq, Structural)]
pub enum MqttPhase {
    Resetting,
    Resolving,
    Opening,
    Handshaking,
    Subscribing,
    Listening,
    Pinging,
}

/// What the session task asks to be done next.
#[derive(Debug, Clone, Copy, PartialEq, Eq, Structural)]
pub enum MqttAction {
    /// Wait `millis` milliseconds.
    Sleep { millis: u64 },
    /// Set up a socket and look the broker's host name up.
    ResolveHost,
    /// Open the TCP connection to the broker.
    OpenSocket,
    /// Set up the client and connect to the broker.
    ConnectBroker,
    /// Subscribe to the amplifier's topics.
    Subscribe,
    /// Wait for a message, at most `secs` seconds.
    Listen { secs: u64 },
    /// Ping the broker.
    Ping,
}

/// The outcome of an action.
#[derive(Debug, Clone, Copy)]
pub enum MqttOutcome {
    Slept,
    Resolved { ok: bool },
    Opened { ok: bool },
    BrokerConnected { ok: bool },
    Subscribed,
    /// A receive completed and was processed with this result.
    Handled(Result<(), MqttError>),
    ListenTimedOut,
    Pinged,
}

/// A status to publish (if any), then the action to perform.
#[derive(Debug, Clone, Copy, PartialEq, Eq, Structural)]
pub struct MqttStep {
    pub publish: Option<ConnectionState>,
    pub action: MqttAction,
}

/// The decisions of the task that keeps the MQTT session alive.
///
/// The session only subscribes and listens: the amplifier's readings are
/// published to the broker by Home Assistant, and the device has no readings
/// of its own, nor any discovery message, to publish. So no phase sends
/// anything to the broker but the subscription and pings.
#[derive(Debug, Clone, Copy, PartialEq, Eq, Structural)]
pub struct MqttTask {
    pub phase: MqttPhase,
}

/// The action that a phase awaits the outcome of.
pub open spec fn session_action(p: MqttPhase) -> MqttAction {
    match p {
        MqttPhase::Resetting => MqttAction::Sleep { millis: 500 },
        MqttPhase::Resolving => MqttAction::ResolveHost,
        MqttPhase::Opening => MqttAction::OpenSocket,
        MqttPhase::Handshaking => MqttAction::ConnectBroker,
        MqttPhase::Subscribing => MqttAction::Subscribe,
        MqttPhase::Listening => MqttAction::Listen { secs: 2 },
        MqttPhase::Pinging => MqttAction::Ping,
    }
}

/// The phase after outcome `o` in phase `p`; an outcome the phase does not
/// await leaves it where it is.
pub open spec fn session_next(p: MqttPhase, o: MqttOutcome) -> MqttPhase {
    match (p, o) {
        (MqttPhase::Resetting, MqttOutcome::Slept) => MqttPhase::Resolving,
        (MqttPhase::Resolving, MqttOutcome::Resolved { ok }) => if ok {
            MqttPhase::Opening
        } else {
            MqttPhase::Resetting
        },
        (MqttPhase::Opening, MqttOutcome::Opened { ok }) => if ok {
            MqttPhase::Handshaking
        } else {
            MqttPhase::Resetting
        },
        (MqttPhase::Handshaking, MqttOutcome::BrokerConnected { ok }) => if ok {
            MqttPhase::Subscribing
        } else {
            MqttPhase::Resetting
        },
        (MqttPhase::Subscribing, MqttOutcome::Subscribed) => MqttPhase::Listening,
        (MqttPhase::Listening, MqttOutcome::Handled(result)) => if result == Err::<
            (),
            MqttError,
        >(MqttError::Fatal) {
            MqttPhase::Resetting
        } else {
            MqttPhase::Listening
        },
        (MqttPhase::Listening, MqttOutcome::ListenTimedOut) => MqttPhase::Pinging,
        (MqttPhase::Pinging, MqttOutcome::Pinged) => MqttPhase::Listening,
        (p, _) => p,
    }
}

/// The status that holds while the task is in phase `p`.
pub open spec fn session_status(p: MqttPhase) -> ConnectionState {
    match p {
        MqttPhase::Resetting => ConnectionState::Failed,
        MqttPhase::Resolving | MqttPhase::Opening | MqttPhase::Handshaking => {
            ConnectionState::Connecting
        },
        MqttPhase::Subscribing | MqttPhase::Listening | MqttPhase::Pinging => {
            ConnectionState::Connected
        },
    }
}

/// What the task publishes when it moves from phase `p` to phase `q`: the
/// status of `q` whenever that differs from the status of `p`.
pub open spec fn session_publish(p: MqttPhase, q: MqttPhase) -> Option<ConnectionState> {
    if session_status(q) != session_status(p) {
        Some(session_status(q))
    } else {
        None
    }
}

fn action_for(p: MqttPhase) -> (a: MqttAction)
    ensures
        a == session_action(p),
{
    match p {
        MqttPhase::Resetting => MqttAction::Sleep { millis: 500 },
        MqttPhase::Resolving => MqttAction::ResolveHost,
        MqttPhase::Opening => MqttAction::OpenSocket,
        MqttPhase::Handshaking => MqttAction::ConnectBroker,
        MqttPhase::Subscribing => MqttAction::Subscribe,
        MqttPhase::Listening => MqttAction::Listen { secs: 2 },
        MqttPhase::Pinging => MqttAction::Ping,
    }
}

fn status_for(p: MqttPhase) -> (s: ConnectionState)
    ensures
        s == session_status(p),
{
    match p {
        MqttPhase::Resetting => ConnectionState::Failed,
        MqttPhase::Resolving | MqttPhase::Opening | MqttPhase::Handshaking => {
            ConnectionState::Connecting
        },
        _ => ConnectionState::Connected,
    }
}

impl MqttTask {
    /// The task at its start: it publishes `Failed` and waits before connecting.
    pub fn new() -> (r: (MqttTask, MqttStep))
        ensures
            r.0.phase == MqttPhase::Resetting,
            r.1.publish == Some(ConnectionState::Failed),
            r.1.action == session_action(r.0.phase),
    {
        (
            MqttTask { phase: MqttPhase::Resetting },
            MqttStep {
                publish: Some(ConnectionState::Failed),
                action: MqttAction::Sleep { millis: 500 },
            },
        )
    }

    /// Takes the outcome of the last action and decides what to publish and do next.
    pub fn step(&mut self, outcome: MqttOutcome) -> (r: MqttStep)
        ensures
            final(self).phase == session_next(old(self).phase, outcome),
            r.action == session_action(final(self).phase),
            r.publish == session_publish(old(self).phase, final(self).phase),
    {
        let p = self.phase;
        let q = match (p, outcome) {
            (MqttPhase::Resetting, MqttOutcome::Slept) => MqttPhase::Resolving,
            (MqttPhase::Resolving, MqttOutcome::Resolved { ok }) => if ok {
                MqttPhase::Opening
            } else {
                MqttPhase::Resetting
            },
            (MqttPhase::Opening, MqttOutcome::Opened { ok }) => if ok {
                MqttPhase::Handshaking
            } else {
                MqttPhase::Resetting
            },
            (MqttPhase::Handshaking, MqttOutcome::BrokerConnected { ok }) => if ok {
                MqttPhase::Subscribing
            } else {
                MqttPhase::Resetting
            },
            (MqttPhase::Subscribing, MqttOutcome::Subscribed) => MqttPhase::Listening,
            (MqttPhase::Listening, MqttOutcome::Handled(result)) => match result {
                Err(MqttError::Fatal) => MqttPhase::Resetting,
                _ => MqttPhase::Listening,
            },
            (MqttPhase::Listening, MqttOutcome::ListenTimedOut) => MqttPhase::Pinging,
            (MqttPhase::Pinging, MqttOutcome::Pinged) => MqttPhase::Listening,
            (p, _) => p,
        };
        self.phase = q;
        let before = status_for(p);
        let after = status_for(q);
        let publish = if after != before {
            Some(after)
        } else {
            None
        };
        MqttStep { publish, action: action_for(q) }
    }
}

// ---------------------------------------------------------------------------
// Laws
// ---------------------------------------------------------------------------

/// A filter that is a topic's first `n` characters followed by `#`, where the
/// topic continues with at least one more level character, matches it.
proof fn lemma_prefix_wildcard(f: Seq<char>, t: Seq<char>, n: int, i: int)
    requires
        0 <= i <= n,
        n + 1 == f.len(),
        n < t.len(),
        f[n] == '#',
        forall|j: int| 0 <= j < n ==> f[j] == t[j] && f[j] != '+' && f[j] != '#',
    ensures
        filter_matches_from(f.subrange(i, f.len() as int), t.subrange(i, t.len() as int)),
    decreases n - i,
{
    let fs = f.subrange(i, f.len() as int);
    let ts = t.subrange(i, t.len() as int);
    if i < n {
        lemma_prefix_wildcard(f, t, n, i + 1);
        assert(fs.drop_first() =~= f.subrange(i + 1, f.len() as int));
        assert(ts.drop_first() =~= t.subrange(i + 1, t.len() as int));
        assert(fs[0] == f[i]);
        assert(fs.len() >= 2);
        assert(fs != seq!['#']);
    } else {
        assert(fs =~= seq!['#']);
    }
}

/// The subscription filter matches each topic the session handles, so every
/// reading published on them reaches the session.
pub proof fn lemma_subscription_covers_topics()
    ensures
        filter_matches(MQTT_TOPIC_BASE@, MQTT_TOPIC_VOLUME@),
        filter_matches(MQTT_TOPIC_BASE@, MQTT_TOPIC_INPUT@),
        filter_matches(MQTT_TOPIC_BASE@, MQTT_TOPIC_POWER@),
{
    reveal_strlit("/amplifier/wxa-50/#");
    reveal_strlit("/amplifier/wxa-50/volume");
    reveal_strlit("/amplifier/wxa-50/input");
    reveal_strlit("/amplifier/wxa-50/power");
    let f = MQTT_TOPIC_BASE@;
    assert(f.len() == 19);
    lemma_prefix_wildcard(f, MQTT_TOPIC_VOLUME@, 18, 0);
    lemma_prefix_wildcard(f, MQTT_TOPIC_INPUT@, 18, 0);
    lemma_prefix_wildcard(f, MQTT_TOPIC_POWER@, 18, 0);
    assert(f.subrange(0, 19) =~= f);
    assert(MQTT_TOPIC_VOLUME@.subrange(0, MQTT_TOPIC_VOLUME@.len() as int) =~= MQTT_TOPIC_VOLUME@);
    assert(MQTT_TOPIC_INPUT@.subrange(0, MQTT_TOPIC_INPUT@.len() as int) =~= MQTT_TOPIC_INPUT@);
    assert(MQTT_TOPIC_POWER@.subrange(0, MQTT_TOPIC_POWER@.len() as int) =~= MQTT_TOPIC_POWER@);
}

/// A message changes at most the field its topic names; a message on another
/// topic, or one whose payload is rejected, changes nothing.
pub proof fn lemma_message_changes_one_field(
    s: State,
    topic: Seq<char>,
    payload: Seq<u8>,
    reading: Option<u32>,
)
    ensures
        ({
            let (t, r) = after_message(s, topic, payload, reading);
            &&& topic_of(topic) != Topic::Volume ==> t.volume == s.volume
            &&& topic_of(topic) != Topic::Power ==> t.power == s.power
            &&& topic_of(topic) != Topic::Input ==> t.input == s.input
            &&& r is Err ==> t == s
            &&& topic_of(topic) == Topic::Other ==> t == s && r is Ok
        }),
{
}

/// Receiving the same message twice leaves the state as receiving it once.
pub proof fn lemma_message_idempotent(
    s: State,
    topic: Seq<char>,
    payload: Seq<u8>,
    reading: Option<u32>,
)
    ensures
        after_message(after_message(s, topic, payload, reading).0, topic, payload, reading).0
            == after_message(s, topic, payload, reading).0,
{
}

/// Only a network failure ends the session; every other failure and every
/// processed message keeps it listening.
pub proof fn lemma_only_network_failure_is_fatal(
    code: u8,
    s: State,
    topic: Seq<char>,
    payload: Seq<u8>,
    reading: Option<u32>,
)
    ensures
        receive_failure(code) == MqttError::Fatal <==> code == NETWORK_ERROR,
        after_message(s, topic, payload, reading).1 != Err::<(), MqttError>(MqttError::Fatal),
        session_next(
            MqttPhase::Listening,
            MqttOutcome::Handled(after_message(s, topic, payload, reading).1),
        ) == MqttPhase::Listening,
        session_next(MqttPhase::Listening, MqttOutcome::Handled(Err(receive_failure(code)))) == (
        if code == NETWORK_ERROR {
            MqttPhase::Resetting
        } else {
            MqttPhase::Listening
        }),
{
}

/// The last status published always is the status of the phase the task is
/// in: if it was before a step, it still is after it.
pub proof fn lemma_published_status_follows_phase(
    p: MqttPhase,
    o: MqttOutcome,
    last_published: ConnectionState,
)
    requires
        last_published == session_status(p),
    ensures
        ({
            let q = session_next(p, o);
            let now_published = match session_publish(p, q) {
                Some(st) => st,
                None => last_published,
            };
            now_published == session_status(q)
        }),
{
}

/// `Connected` is published only when the broker accepted the connection.
pub proof fn lemma_connected_only_after_broker(p: MqttPhase, o: MqttOutcome)
    ensures
        session_publish(p, session_next(p, o)) == Some(ConnectionState::Connected) ==> p
            == MqttPhase::Handshaking && o matches MqttOutcome::BrokerConnected { ok: true },
{
}

/// After an input message with valid text, the source depends on the text
/// alone: each of the six names gives its source, and any other text gives
/// `Unknown`, whatever the source was before; volume and power stay.
pub proof fn lemma_input_follows_text(s: State, payload: Seq<u8>)
    requires
        valid_utf8(payload),
    ensures
        ({
            let t = decode_utf8(payload);
            let (n, r) = after_input(s, payload);
            &&& r is Ok
            &&& n.volume == s.volume && n.power == s.power
            &&& (t == "TV (Optical)"@ || t == "Optical"@) ==> n.input == Input::Optical
            &&& (t == "TV (Wired)"@ || t == "Wired"@) ==> n.input == Input::Wired
            &&& (t == "AirPlay"@ || t == "airplay"@) ==> n.input == Input::AirPlay
            &&& (t != "TV (Optical)"@ && t != "Optical"@ && t != "TV (Wired)"@ && t != "Wired"@
                && t != "AirPlay"@ && t != "airplay"@) ==> n.input == Input::Unknown
        }),
{
    reveal_strlit("TV (Optical)");
    reveal_strlit("Optical");
    reveal_strlit("TV (Wired)");
    reveal_strlit("Wired");
    reveal_strlit("AirPlay");
    reveal_strlit("airplay");
    assert("TV (Optical)"@[0] != "TV (Wired)"@[0] || "TV (Optical)"@[4] != "TV (Wired)"@[4]);
    assert("Optical"@[0] != "Wired"@[0]);
    assert("TV (Optical)"@.len() != "Wired"@.len());
    assert("Optical"@.len() != "TV (Wired)"@.len());
    assert("AirPlay"@[0] != "TV (Optical)"@[0] && "AirPlay"@[0] != "Optical"@[0]);
    assert("airplay"@[0] != "TV (Optical)"@[0] && "airplay"@[0] != "Optical"@[0]);
    assert("AirPlay"@[0] != "TV (Wired)"@[0] && "AirPlay"@[0] != "Wired"@[0]);
    assert("airplay"@[0] != "TV (Wired)"@[0] && "airplay"@[0] != "Wired"@[0]);
}

/// Two states that receive the same input message end with the same source:
/// the previous source never shows through.
pub proof fn lemma_input_forgets_previous(s1: State, s2: State, payload: Seq<u8>)
    requires
        valid_utf8(payload),
    ensures
        after_input(s1, payload).0.input == after_input(s2, payload).0.input,
{
}

/// A volume message with valid text and a reading sets the volume to exactly
/// that reading, up or down, whatever the volume was; nothing else changes.
pub proof fn lemma_volume_takes_reading(s: State, payload: Seq<u8>, v: u32)
    requires
        valid_utf8(payload),
    ensures
        after_volume(s, payload, Some(v)).1 is Ok,
        after_volume(s, payload, Some(v)).0.volume == v,
        after_volume(s, payload, Some(v)).0.power == s.power,
        after_volume(s, payload, Some(v)).0.input == s.input,
{
}

/// A message on the volume topic sets the volume to its reading whatever the
/// power state and the rest of the state are (the amplifier is often still
/// off when its volume is published); power and source stay.
pub proof fn lemma_volume_topic_in_any_state(s: State, payload: Seq<u8>, v: u32)
    requires
        valid_utf8(payload),
    ensures
        after_message(s, MQTT_TOPIC_VOLUME@, payload, Some(v)) == (
        State { volume: v, power: s.power, input: s.input },
        Ok::<(), MqttError>(()),
        ),
{
}

/// Two states that receive the same volume-topic message end with the same volume.
pub proof fn lemma_volume_topic_forgets_previous(
    s1: State,
    s2: State,
    payload: Seq<u8>,
    v: u32,
)
    requires
        valid_utf8(payload),
    ensures
        after_message(s1, MQTT_TOPIC_VOLUME@, payload, Some(v)).0.volume == after_message(
            s2,
            MQTT_TOPIC_VOLUME@,
            payload,
            Some(v),
        ).0.volume,
{
}

} // verus!
