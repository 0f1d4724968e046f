use volume_knob::mqtt;
use volume_knob::ui::{
    backlight_duty, desired_backdrop, enter_backdrop, get_core_state, input_label,
    percentage_buffer, render_current_state, significant_change, CoreState, CurrentBackdrop,
    Screen, UiTask,
};
use volume_knob::wifi;
use volume_knob::wxa50::{Input, Power, State};

/// The ring chosen by comparing the volume as a float.
fn float_ring(power: Power, volume: f32) -> CurrentBackdrop {
    match (power, volume) {
        (Power::Off, _) => CurrentBackdrop::RingOff,
        (Power::On, v) if v <= 10.0 => CurrentBackdrop::Ring0_10,
        (Power::On, v) if v <= 20.0 => CurrentBackdrop::Ring10_20,
        (Power::On, v) if v <= 30.0 => CurrentBackdrop::Ring20_30,
        (Power::On, v) if v <= 40.0 => CurrentBackdrop::Ring30_40,
        (Power::On, v) if v <= 50.0 => CurrentBackdrop::Ring40_50,
        (Power::On, v) if v <= 60.0 => CurrentBackdrop::Ring50_60,
        (Power::On, v) if v <= 70.0 => CurrentBackdrop::Ring60_70,
        (Power::On, v) if v <= 80.0 => CurrentBackdrop::Ring70_80,
        (Power::On, v) if v <= 90.0 => CurrentBackdrop::Ring80_90,
        (Power::On, v) if v >= 90.0 => CurrentBackdrop::Ring90_100,
        (Power::On, _) => CurrentBackdrop::Ring0_10,
    }
}

fn reading(wifi_ok: bool, mqtt_ok: bool, volume: f32, input: Input, power: Power) -> CoreState {
    CoreState { wifi_ok, mqtt_ok, volume: volume.to_bits(), input, power }
}

#[test]
fn rings_follow_the_volume_bands() {
    let mut x: u32 = 7;
    let mut samples: Vec<u32> = (0..=1100).map(|k| (k as f32 * 0.1).to_bits()).collect();
    samples.extend([0x7fc0_0000, 0x7f80_0000, 0xff80_0000, 0x8000_0000, 0xc120_0000]);
    for _ in 0..5000 {
        x = x.wrapping_mul(22_695_477).wrapping_add(1);
        samples.push(x);
    }
    for b in samples {
        for power in [Power::On, Power::Off] {
            assert_eq!(desired_backdrop(power, b), float_ring(power, f32::from_bits(b)), "bits {:#x}", b);
        }
    }
    assert_eq!(desired_backdrop(Power::On, 10.0f32.to_bits()), CurrentBackdrop::Ring0_10);
    assert_eq!(desired_backdrop(Power::On, 10.5f32.to_bits()), CurrentBackdrop::Ring10_20);
    assert_eq!(desired_backdrop(Power::On, 95.0f32.to_bits()), CurrentBackdrop::Ring90_100);
    assert_eq!(desired_backdrop(Power::On, f32::NAN.to_bits()), CurrentBackdrop::Ring0_10);
}

#[test]
fn labels_for_sources() {
    assert_eq!(input_label(Input::Optical), "Optical");
    assert_eq!(input_label(Input::Wired), "Aux");
    assert_eq!(input_label(Input::AirPlay), "AirPlay");
    assert_eq!(input_label(Input::Unknown), "Unknown");
}

#[test]
fn percentage_buffer_fits_eight_bytes() {
    assert_eq!(percentage_buffer(37.4f32.to_bits()).unwrap().as_str(), "37%");
    assert_eq!(percentage_buffer(f32::NAN.to_bits()).unwrap().as_str(), "NaN%");
    assert_eq!(percentage_buffer(1234567.0f32.to_bits()).unwrap().as_str(), "1234567%");
    assert!(percentage_buffer(12345678.0f32.to_bits()).is_none());
    assert!(percentage_buffer((-1234567.0f32).to_bits()).is_none());
}

#[test]
fn core_state_reads_statuses() {
    let mut amp = State::new();
    amp.power = Power::On;
    let c = get_core_state(&amp, &wifi::ConnectionState::Connecting, &mqtt::ConnectionState::Connected);
    assert!(!c.wifi_ok && c.mqtt_ok);
    assert_eq!(c.power, Power::On);
    let c = get_core_state(
        &amp,
        &wifi::ConnectionState::Connected(wifi::ConnectionStats {
            rssi: 0,
            channel: 0,
            bssid: heapless::String::new(),
            ssid: heapless::String::new(),
        }),
        &mqtt::ConnectionState::Failed,
    );
    assert!(c.wifi_ok && !c.mqtt_ok);
}

#[test]
fn changes_compare_volume_as_numbers() {
    let a = reading(true, true, 0.0, Input::Optical, Power::On);
    let b = reading(true, true, -0.0, Input::Optical, Power::On);
    assert!(!significant_change(&a, &b));
    let n = reading(true, true, f32::NAN, Input::Optical, Power::On);
    assert!(significant_change(&n, &n));
    let c = reading(true, true, 0.0, Input::Wired, Power::On);
    assert!(significant_change(&a, &c));
}

#[test]
fn backlight_levels() {
    let down = reading(false, true, 1.0, Input::Optical, Power::On);
    assert_eq!(backlight_duty(&down, 0), 25);
    let mqtt_down = reading(true, false, 1.0, Input::Optical, Power::Off);
    assert_eq!(backlight_duty(&mqtt_down, 100), 25);
    let on = reading(true, true, 1.0, Input::Optical, Power::On);
    assert_eq!(backlight_duty(&on, 5), 75);
    assert_eq!(backlight_duty(&on, 6), 0);
    let off = reading(true, true, 1.0, Input::Optical, Power::Off);
    assert_eq!(backlight_duty(&off, 0), 0);
}

#[test]
fn backdrop_drawn_only_on_change() {
    let mut current = CurrentBackdrop::Blank;
    assert!(enter_backdrop(&mut current, CurrentBackdrop::StartupWifi));
    assert!(!enter_backdrop(&mut current, CurrentBackdrop::StartupWifi));
    assert_eq!(current, CurrentBackdrop::StartupWifi);
    let plan = render_current_state(&mut current, Power::On, Input::AirPlay, 55.0f32.to_bits());
    assert!(plan.draw_backdrop);
    assert_eq!(plan.backdrop, CurrentBackdrop::Ring50_60);
    assert_eq!(plan.label, "AirPlay");
    assert_eq!(plan.percentage.unwrap().as_str(), "55%");
    let again = render_current_state(&mut current, Power::On, Input::AirPlay, 58.0f32.to_bits());
    assert!(!again.draw_backdrop);
}

#[test]
fn display_task_rounds() {
    let hz = 1_000_000u64;
    let mut task = UiTask::new(0);
    // links down: WiFi start-up screen, drawn once, backlight 25%
    let f = task.tick(reading(false, false, 0.0, Input::Unknown, Power::Off), hz, hz);
    assert_eq!(f.brightness, 25);
    assert!(matches!(f.screen, Screen::WifiStartup { draw_backdrop: true }));
    let f = task.tick(reading(false, false, 0.0, Input::Unknown, Power::Off), 2 * hz, hz);
    assert!(matches!(f.screen, Screen::WifiStartup { draw_backdrop: false }));
    // WiFi up, MQTT down
    let f = task.tick(reading(true, false, 0.0, Input::Unknown, Power::Off), 3 * hz, hz);
    assert!(matches!(f.screen, Screen::MqttStartup { draw_backdrop: true }));
    assert_eq!(f.brightness, 25);
    // both up, amplifier on at 42%
    let f = task.tick(reading(true, true, 42.0, Input::Optical, Power::On), 4 * hz, hz);
    assert_eq!(f.brightness, 75);
    match f.screen {
        Screen::Readings(plan) => {
            assert_eq!(plan.backdrop, CurrentBackdrop::Ring40_50);
            assert!(plan.draw_backdrop);
            assert_eq!(plan.percentage.unwrap().as_str(), "42%");
            assert_eq!(plan.label, "Optical");
        }
        _ => panic!("expected readings"),
    }
    // unchanged: nothing redrawn, backlight on for five seconds, then off
    let f = task.tick(reading(true, true, 42.0, Input::Optical, Power::On), 9 * hz, hz);
    assert!(matches!(f.screen, Screen::Unchanged));
    assert_eq!(f.brightness, 75);
    let f = task.tick(reading(true, true, 42.0, Input::Optical, Power::On), 10 * hz, hz);
    assert!(matches!(f.screen, Screen::Unchanged));
    assert_eq!(f.brightness, 0);
    assert_eq!(task.last_change, 4 * hz);
}

fn rank(b: CurrentBackdrop) -> u8 {
    match b {
        CurrentBackdrop::Ring0_10 => 1,
        CurrentBackdrop::Ring10_20 => 2,
        CurrentBackdrop::Ring20_30 => 3,
        CurrentBackdrop::Ring30_40 => 4,
        CurrentBackdrop::Ring40_50 => 5,
        CurrentBackdrop::Ring50_60 => 6,
        CurrentBackdrop::Ring60_70 => 7,
        CurrentBackdrop::Ring70_80 => 8,
        CurrentBackdrop::Ring80_90 => 9,
        CurrentBackdrop::Ring90_100 => 10,
        _ => 0,
    }
}

#[test]
fn louder_never_shows_a_lower_band() {
    let mut volumes: Vec<f32> = (0..=2000).map(|k| k as f32 * 0.0625 - 10.0).collect();
    volumes.extend([f32::NEG_INFINITY, f32::INFINITY, 1e30, -1e30]);
    volumes.sort_by(|a, b| a.partial_cmp(b).unwrap());
    let ranks: Vec<u8> = volumes
        .iter()
        .map(|v| rank(desired_backdrop(Power::On, v.to_bits())))
        .collect();
    assert!(ranks.windows(2).all(|w| w[0] <= w[1]));
    assert_eq!(ranks[0], 1);
    assert_eq!(*ranks.last().unwrap(), 10);
}

#[test]
fn settled_display_redraws_nothing() {
    let mut task = UiTask::new(0);
    let s = reading(true, true, 12.0, Input::Wired, Power::On);
    assert!(matches!(task.tick(s, 1, 1).screen, Screen::Readings(_)));
    let before = task.current_backdrop;
    assert!(matches!(task.tick(s, 2, 1).screen, Screen::Unchanged));
    assert_eq!(task.current_backdrop, before);
    // a NaN volume never settles
    let n = reading(true, true, f32::NAN, Input::Wired, Power::On);
    assert!(matches!(task.tick(n, 3, 1).screen, Screen::Readings(_)));
    assert!(matches!(task.tick(n, 4, 1).screen, Screen::Readings(_)));
}
