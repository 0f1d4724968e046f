use volume_knob::mqtt::{
    classify_topic, process_incoming, process_input_msg, process_power_msg, process_volume_msg,
    ConnectionState, MqttAction, MqttError, MqttOutcome, MqttPhase, MqttTask, Topic,
    MQTT_TOPIC_BASE, MQTT_TOPIC_INPUT, MQTT_TOPIC_POWER, MQTT_TOPIC_VOLUME, NETWORK_ERROR,
};
use volume_knob::wxa50::{Input, Power, State};

#[test]
fn initial_state_is_off_unknown_zero() {
    let s = State::new();
    assert_eq!(s.volume, 0);
    assert_eq!(s.power, Power::Off);
    assert_eq!(s.input, Input::Unknown);
}

#[test]
fn power_on_only_for_exact_on() {
    let mut s = State::new();
    assert_eq!(process_power_msg(&mut s, b"ON"), Ok(()));
    assert_eq!(s.power, Power::On);
    assert_eq!(process_power_msg(&mut s, b"on"), Ok(()));
    assert_eq!(s.power, Power::Off);
    s.power = Power::On;
    assert_eq!(process_power_msg(&mut s, b"OFF"), Ok(()));
    assert_eq!(s.power, Power::Off);
}

#[test]
fn invalid_utf8_is_a_warning_and_changes_nothing() {
    let mut s = State::new();
    s.power = Power::On;
    let before = s;
    assert_eq!(process_power_msg(&mut s, &[0xff, 0xfe]), Err(MqttError::Warning));
    assert_eq!(process_input_msg(&mut s, &[0xc3]), Err(MqttError::Warning));
    assert_eq!(process_volume_msg(&mut s, &[0x80], Some(0x4248_0000)), Err(MqttError::Warning));
    assert_eq!(s, before);
}

#[test]
fn input_names_map_to_sources() {
    let cases: [(&[u8], Input); 8] = [
        (b"TV (Optical)", Input::Optical),
        (b"Optical", Input::Optical),
        (b"TV (Wired)", Input::Wired),
        (b"Wired", Input::Wired),
        (b"AirPlay", Input::AirPlay),
        (b"airplay", Input::AirPlay),
        (b"unknown", Input::Unknown),
        (b"optical", Input::Unknown),
    ];
    for (payload, expected) in cases {
        let mut s = State::new();
        assert_eq!(process_input_msg(&mut s, payload), Ok(()));
        assert_eq!(s.input, expected);
    }
}

#[test]
fn volume_takes_the_reading() {
    let mut s = State::new();
    let reading = "42.5".parse::<f32>().ok().map(f32::to_bits);
    assert_eq!(process_volume_msg(&mut s, b"42.5", reading), Ok(()));
    assert_eq!(f32::from_bits(s.volume), 42.5);
    let unreadable = "loud".parse::<f32>().ok().map(f32::to_bits);
    assert_eq!(process_volume_msg(&mut s, b"loud", unreadable), Err(MqttError::Warning));
    assert_eq!(f32::from_bits(s.volume), 42.5);
}

#[test]
fn topics_are_told_apart() {
    assert_eq!(classify_topic(MQTT_TOPIC_VOLUME), Topic::Volume);
    assert_eq!(classify_topic("/amplifier/wxa-50/input"), Topic::Input);
    assert_eq!(classify_topic("amplifier/wxa-50/input"), Topic::Other);
    assert_eq!(classify_topic(MQTT_TOPIC_POWER), Topic::Power);
    assert_eq!(classify_topic("amplifier/wxa-50/other"), Topic::Other);
    assert_eq!(classify_topic(""), Topic::Other);
}

#[test]
fn incoming_dispatch_and_failures() {
    let mut s = State::new();
    assert_eq!(process_incoming(&mut s, Ok((MQTT_TOPIC_POWER, b"ON")), None), Ok(()));
    assert_eq!(s.power, Power::On);
    assert_eq!(process_incoming(&mut s, Ok((MQTT_TOPIC_INPUT, b"Wired")), None), Ok(()));
    assert_eq!(s.input, Input::Wired);
    assert_eq!(
        process_incoming(&mut s, Ok((MQTT_TOPIC_VOLUME, b"7")), Some(f32::to_bits(7.0))),
        Ok(())
    );
    assert_eq!(f32::from_bits(s.volume), 7.0);
    let before = s;
    assert_eq!(process_incoming(&mut s, Ok(("elsewhere", b"ON")), Some(0)), Ok(()));
    assert_eq!(s, before);
    assert_eq!(process_incoming(&mut s, Err(NETWORK_ERROR), None), Err(MqttError::Fatal));
    assert_eq!(process_incoming(&mut s, Err(0x83), None), Err(MqttError::Warning));
    assert_eq!(s, before);
}

#[test]
fn same_message_twice_same_state() {
    let mut once = State::new();
    let _ = process_incoming(&mut once, Ok((MQTT_TOPIC_INPUT, b"AirPlay")), None);
    let mut twice = once;
    let _ = process_incoming(&mut twice, Ok((MQTT_TOPIC_INPUT, b"AirPlay")), None);
    assert_eq!(once, twice);
}

#[test]
fn session_connects_and_reconnects() {
    let (mut task, first) = MqttTask::new();
    assert_eq!(first.publish, Some(ConnectionState::Failed));
    assert_eq!(first.action, MqttAction::Sleep { millis: 500 });
    let s = task.step(MqttOutcome::Slept);
    assert_eq!(s.publish, Some(ConnectionState::Connecting));
    assert_eq!(s.action, MqttAction::ResolveHost);
    let s = task.step(MqttOutcome::Resolved { ok: true });
    assert_eq!((s.publish, s.action), (None, MqttAction::OpenSocket));
    let s = task.step(MqttOutcome::Opened { ok: true });
    assert_eq!((s.publish, s.action), (None, MqttAction::ConnectBroker));
    let s = task.step(MqttOutcome::BrokerConnected { ok: true });
    assert_eq!((s.publish, s.action), (Some(ConnectionState::Connected), MqttAction::Subscribe));
    let s = task.step(MqttOutcome::Subscribed);
    assert_eq!((s.publish, s.action), (None, MqttAction::Listen { secs: 2 }));
    let s = task.step(MqttOutcome::Handled(Err(MqttError::Warning)));
    assert_eq!((s.publish, s.action), (None, MqttAction::Listen { secs: 2 }));
    let s = task.step(MqttOutcome::ListenTimedOut);
    assert_eq!((s.publish, s.action), (None, MqttAction::Ping));
    let s = task.step(MqttOutcome::Pinged);
    assert_eq!((s.publish, s.action), (None, MqttAction::Listen { secs: 2 }));
    let s = task.step(MqttOutcome::Handled(Err(MqttError::Fatal)));
    assert_eq!(s.publish, Some(ConnectionState::Failed));
    assert_eq!(s.action, MqttAction::Sleep { millis: 500 });
    assert_eq!(task.phase, MqttPhase::Resetting);
}

#[test]
fn session_failures_restart() {
    for failing in [
        MqttOutcome::Resolved { ok: false },
        MqttOutcome::Opened { ok: false },
        MqttOutcome::BrokerConnected { ok: false },
    ] {
        let (mut task, _) = MqttTask::new();
        task.step(MqttOutcome::Slept);
        if !matches!(failing, MqttOutcome::Resolved { .. }) {
            task.step(MqttOutcome::Resolved { ok: true });
        }
        if matches!(failing, MqttOutcome::BrokerConnected { .. }) {
            task.step(MqttOutcome::Opened { ok: true });
        }
        let s = task.step(failing);
        assert_eq!(s.publish, Some(ConnectionState::Failed));
        assert_eq!(s.action, MqttAction::Sleep { millis: 500 });
    }
}

#[test]
fn session_ignores_unexpected_outcomes() {
    let (mut task, _) = MqttTask::new();
    let s = task.step(MqttOutcome::Pinged);
    assert_eq!((s.publish, s.action), (None, MqttAction::Sleep { millis: 500 }));
    assert_eq!(task.phase, MqttPhase::Resetting);
}

#[test]
fn readme_power_topic_switches_on() {
    let mut s = State::new();
    assert_eq!(process_incoming(&mut s, Ok(("/amplifier/wxa-50/power", b"ON")), None), Ok(()));
    assert_eq!(s.power, Power::On);
    assert_eq!(s.input, Input::Unknown);
    assert_eq!(s.volume, 0);
}

#[test]
fn subscription_filter_covers_the_topics() {
    assert_eq!(MQTT_TOPIC_BASE, "/amplifier/wxa-50/#");
    let prefix = MQTT_TOPIC_BASE.trim_end_matches('#');
    for topic in [MQTT_TOPIC_VOLUME, MQTT_TOPIC_INPUT, MQTT_TOPIC_POWER] {
        assert!(topic.starts_with(prefix));
    }
}
