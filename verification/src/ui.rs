//! What the round display shows and how bright it is.
use vstd::prelude::*;
use vstd::utf8::encode_utf8;

use crate::binary32::{
    at_least, at_most, decade, decode, lemma_bounds_follow_order, lemma_fields,
    lemma_percent_text_ascii, lemma_scaled_order, lemma_scaled_zero, magnitude_bits, no_greater, not_above, not_below, numbers_equal, percent_label, percent_text, same_number, unit,
};
use crate::bounded::{empty_label, label_push_str, label_text};
use crate::mqtt;
use crate::wifi;
use crate::wxa50::{Input, Power, State};

verus! {

/// The image currently covering the display.
#[derive(Debug, Clone, Copy, PartialEq, Eq, Structural)]
pub enum CurrentBackdrop {
    Blank,
    StartupWifi,
    StartupMqtt,
    RingOff,
    Ring0_10,
    Ring10_20,
    Ring20_30,
    Ring30_40,
    Ring40_50,
    Ring50_60,
    Ring60_70,
    Ring70_80,
    Ring80_90,
    Ring90_100,
}

/// Everything the display depends on. `volume` is a binary32 encoding.
#[derive(Debug, Clone, Copy)]
pub struct CoreState {
    pub wifi_ok: bool,
    pub mqtt_ok: bool,
    pub volume: u32,
    pub input: Input,
    pub power: Power,
}

/// The state shown before anything is known.
pub open spec fn initial_core_state() -> CoreState {
    CoreState {
        wifi_ok: false,
        mqtt_ok: false,
        volume: 0,
        input: Input::Unknown,
        power: Power::Off,
    }
}

/// Collects what the display depends on from the shared statuses.
pub fn get_core_state(
    amp: &State,
    wifi_status: &wifi::ConnectionState,
    mqtt_status: &mqtt::ConnectionState,
) -> (c: CoreState)
    ensures
        c.wifi_ok == (*wifi_status is Connected),
        c.mqtt_ok == (*mqtt_status == mqtt::ConnectionState::Connected),
        c.volume == amp.volume,
        c.input == amp.input,
        c.power == amp.power,
{
    CoreState {
        wifi_ok: match wifi_status {
            wifi::ConnectionState::Connected(_) => true,
            _ => false,
        },
        mqtt_ok: match mqtt_status {
            mqtt::ConnectionState::Connected => true,
            _ => false,
        },
        volume: amp.volume,
        input: amp.input,
        power: amp.power,
    }
}

/// Whether the display must be brought up to date: any field differs, the
/// volume compared as a number (so a NaN volume always differs).
pub open spec fn differs(a: CoreState, b: CoreState) -> bool {
    ||| a.power != b.power
    ||| a.wifi_ok != b.wifi_ok
    ||| a.mqtt_ok != b.mqtt_ok
    ||| !same_number(a.volume, b.volume)
    ||| a.input != b.input
}

/// Whether `new` differs from `last` in a way the display shows.
pub fn significant_change(last: &CoreState, new: &CoreState) -> (r: bool)
    ensures
        r == differs(*last, *new),
        last.power != new.power || last.wifi_ok != new.wifi_ok || last.mqtt_ok != new.mqtt_ok
            || last.input != new.input ==> r,
{
    new.power != last.power || new.wifi_ok != last.wifi_ok || new.mqtt_ok != last.mqtt_ok
        || !numbers_equal(new.volume, last.volume) || new.input != last.input
}

/// The backlight duty (percent): 25 while WiFi or MQTT is down, 75 while the
/// amplifier is on and the last change is at most 5 seconds old, otherwise off.
pub open spec fn duty(s: CoreState, secs_since_change: nat) -> u8 {
    if !s.wifi_ok || !s.mqtt_ok {
        25
    } else if s.power == Power::On && secs_since_change <= 5 {
        75
    } else {
        0
    }
}

/// The backlight duty for state `s`, `secs_since_change` seconds after the last change.
pub fn backlight_duty(s: &CoreState, secs_since_change: u64) -> (d: u8)
    ensures
        d == duty(*s, secs_since_change as nat),
{
    if !s.wifi_ok || !s.mqtt_ok {
        25
    } else if s.power == Power::On && secs_since_change <= 5 {
        75
    } else {
        0
    }
}

/// The ring shown for a power state and volume: off, or the band of ten
/// the volume falls in, upper bounds included; a NaN volume shows the lowest band.
pub open spec fn ring_for(power: Power, volume: u32) -> CurrentBackdrop {
    match power {
        Power::Off => CurrentBackdrop::RingOff,
        Power::On => if at_most(volume, 10 * unit()) {
            CurrentBackdrop::Ring0_10
        } else if at_most(volume, 20 * unit()) {
            CurrentBackdrop::Ring10_20
        } else if at_most(volume, 30 * unit()) {
            CurrentBackdrop::Ring20_30
        } else if at_most(volume, 40 * unit()) {
            CurrentBackdrop::Ring30_40
        } else if at_most(volume, 50 * unit()) {
            CurrentBackdrop::Ring40_50
        } else if at_most(volume, 60 * unit()) {
            CurrentBackdrop::Ring50_60
        } else if at_most(volume, 70 * unit()) {
            CurrentBackdrop::Ring60_70
        } else if at_most(volume, 80 * unit()) {
            CurrentBackdrop::Ring70_80
        } else if at_most(volume, 90 * unit()) {
            CurrentBackdrop::Ring80_90
        } else if at_least(volume, 90 * unit()) {
            CurrentBackdrop::Ring90_100
        } else {
            CurrentBackdrop::Ring0_10
        },
    }
}

/// The ring to show for a power state and volume.
pub fn desired_backdrop(power: Power, volume: u32) -> (b: CurrentBackdrop)
    ensures
        b == ring_for(power, volume),
{
    match power {
        Power::Off => CurrentBackdrop::RingOff,
        Power::On => {
            if not_above(volume, decade(1)) {
                CurrentBackdrop::Ring0_10
            } else if not_above(volume, decade(2)) {
                CurrentBackdrop::Ring10_20
            } else if not_above(volume, decade(3)) {
                CurrentBackdrop::Ring20_30
            } else if not_above(volume, decade(4)) {
                CurrentBackdrop::Ring30_40
            } else if not_above(volume, decade(5)) {
                CurrentBackdrop::Ring40_50
            } else if not_above(volume, decade(6)) {
                CurrentBackdrop::Ring50_60
            } else if not_above(volume, decade(7)) {
                CurrentBackdrop::Ring60_70
            } else if not_above(volume, decade(8)) {
                CurrentBackdrop::Ring70_80
            } else if not_above(volume, decade(9)) {
                CurrentBackdrop::Ring80_90
            } else if not_below(volume, decade(9)) {
                CurrentBackdrop::Ring90_100
            } else {
                CurrentBackdrop::Ring0_10
            }
        },
    }
}

/// The name shown for a source.
pub open spec fn input_text(input: Input) -> Seq<char> {
    match input {
        Input::Optical => "Optical"@,
        Input::Wired => "Aux"@,
        Input::AirPlay => "AirPlay"@,
        Input::Unknown => "Unknown"@,
    }
}

/// The name shown for a source.
pub fn input_label(input: Input) -> (s: &'static str)
    ensures
        s@ == input_text(input),
{
    match input {
        Input::Optical => "Optical",
        Input::Wired => "Aux",
        Input::AirPlay => "AirPlay",
        Input::Unknown => "Unknown",
    }
}

/// The volume text in the 8-byte buffer it is drawn from, or `None` when it
/// does not fit there.
pub fn percentage_buffer(volume: u32) -> (r: Option<heapless::String<8>>)
    ensures
        match r {
            Some(buf) => percent_text(volume).len() <= 8 && label_text(buf) == percent_text(volume),
            None => percent_text(volume).len() > 8,
        },
{
    let text = percent_label(volume);
    let mut buf = empty_label();
    proof {
        lemma_percent_text_ascii(volume);
        assert(encode_utf8(label_text(buf)) =~= Seq::<u8>::empty());
    }
    match label_push_str(&mut buf, text.as_str()) {
        Ok(()) => {
            assert(label_text(buf) =~= percent_text(volume));
            Some(buf)
        },
        Err(()) => None,
    }
}

/// Makes `wanted` the current backdrop; the result says whether it must be
/// drawn, that is whether it was not already showing.
pub fn enter_backdrop(current: &mut CurrentBackdrop, wanted: CurrentBackdrop) -> (draw: bool)
    ensures
        draw == (*old(current) != wanted),
        *final(current) == wanted,
{
    let draw = *current != wanted;
    *current = wanted;
    draw
}

/// What to draw to show the readings.
pub struct RenderPlan {
    /// The ring for the power state and volume.
    pub backdrop: CurrentBackdrop,
    /// Whether the ring must be drawn (it was not already showing).
    pub draw_backdrop: bool,
    /// The volume text, or `None` when it does not fit its buffer.
    pub percentage: Option<heapless::String<8>>,
    /// The source's name.
    pub label: &'static str,
}

/// The plan for showing `power`, `input` and `volume`.
pub open spec fn renders(
    plan: RenderPlan,
    before: CurrentBackdrop,
    after: CurrentBackdrop,
    power: Power,
    input: Input,
    volume: u32,
) -> bool {
    &&& plan.backdrop == ring_for(power, volume)
    &&& after == plan.backdrop
    &&& plan.draw_backdrop == (before != plan.backdrop)
    &&& plan.label@ == input_text(input)
    &&& match plan.percentage {
        Some(buf) => percent_text(volume).len() <= 8 && label_text(buf) == percent_text(volume),
        None => percent_text(volume).len() > 8,
    }
}

/// Decides how to show the readings and records the ring as the current backdrop.
pub fn render_current_state(
    current: &mut CurrentBackdrop,
    power: Power,
    input: Input,
    volume: u32,
) -> (plan: RenderPlan)
    ensures
        renders(plan, *old(current), *final(current), power, input, volume),
{
    let backdrop = desired_backdrop(power, volume);
    let draw_backdrop = enter_backdrop(current, backdrop);
    RenderPlan {
        backdrop,
        draw_backdrop,
        percentage: percentage_buffer(volume),
        label: input_label(input),
    }
}

// ---------------------------------------------------------------------------
// The display task
// ---------------------------------------------------------------------------

/// What the display shows this round.
pub enum Screen {
    /// The WiFi start-up screen and its spinner; the backdrop is drawn if `draw_backdrop`.
    WifiStartup { draw_backdrop: bool },
    /// The MQTT start-up screen and its spinner; the backdrop is drawn if `draw_backdrop`.
    MqttStartup { draw_backdrop: bool },
    /// The readings, redrawn as planned.
    Readings(RenderPlan),
    /// Nothing to redraw.
    Unchanged,
}

/// The backlight duty and the screen for one round.
pub struct UiFrame {
    pub brightness: u8,
    pub screen: Screen,
}

/// The display task's memory between rounds.
pub struct UiTask {
    pub current_backdrop: CurrentBackdrop,
    pub last_state: CoreState,
    /// When the last significant change was seen, in clock ticks.
    pub last_change: u64,
}

/// The task remembers `new_state`, seen at `now`, exactly when it differs
/// from the last state it showed.
pub open spec fn remembers(before: UiTask, after: UiTask, new_state: CoreState, now: u64) -> bool {
    if differs(before.last_state, new_state) {
        after.last_state == new_state && after.last_change == now
    } else {
        after.last_state == before.last_state && after.last_change == before.last_change
    }
}

/// The screen of a round: the WiFi start-up screen while WiFi is down, else the
/// MQTT start-up screen while MQTT is down, else the readings when they changed.
pub open spec fn shows(before: UiTask, after: UiTask, new_state: CoreState, screen: Screen) -> bool {
    let s = after.last_state;
    if !s.wifi_ok {
        &&& screen == (Screen::WifiStartup {
            draw_backdrop: before.current_backdrop != CurrentBackdrop::StartupWifi,
        })
        &&& after.current_backdrop == CurrentBackdrop::StartupWifi
    } else if !s.mqtt_ok {
        &&& screen == (Screen::MqttStartup {
            draw_backdrop: before.current_backdrop != CurrentBackdrop::StartupMqtt,
        })
        &&& after.current_backdrop == CurrentBackdrop::StartupMqtt
    } else if differs(before.last_state, new_state) {
        &&& screen matches Screen::Readings(plan)
        &&& renders(
            plan,
            before.current_backdrop,
            after.current_backdrop,
            s.power,
            s.input,
            s.volume,
        )
    } else {
        &&& screen is Unchanged
        &&& after.current_backdrop == before.current_backdrop
    }
}

impl UiTask {
    /// The task at its start (the display has just been cleared), at time `now`.
    pub fn new(now: u64) -> (t: UiTask)
        ensures
            t.current_backdrop == CurrentBackdrop::Blank,
            t.last_state == initial_core_state(),
            t.last_change == now,
    {
        UiTask {
            current_backdrop: CurrentBackdrop::Blank,
            last_state: CoreState {
                wifi_ok: false,
                mqtt_ok: false,
                volume: 0,
                input: Input::Unknown,
                power: Power::Off,
            },
            last_change: now,
        }
    }

    /// One round of the display task: `new_state` was just read at time `now`
    /// (clock ticks, `ticks_per_sec` of them per second).
    pub fn tick(&mut self, new_state: CoreState, now: u64, ticks_per_sec: u64) -> (f: UiFrame)
        requires
            ticks_per_sec > 0,
            now >= old(self).last_change,
        ensures
            remembers(*old(self), *final(self), new_state, now),
            f.brightness == duty(
                final(self).last_state,
                ((now - final(self).last_change) / (ticks_per_sec as int)) as nat,
            ),
            shows(*old(self), *final(self), new_state, f.screen),
            differs(old(self).last_state, new_state) ==> final(self).last_change == now
                && final(self).last_state == new_state,
            !new_state.wifi_ok || !new_state.mqtt_ok ==> f.brightness == 25,
            differs(old(self).last_state, new_state) && new_state.wifi_ok && new_state.mqtt_ok
                && new_state.power == Power::On ==> f.brightness == 75,
    {
        let rerender = significant_change(&self.last_state, &new_state);
        if rerender {
            self.last_change = now;
            self.last_state = new_state;
        }
        let brightness = backlight_duty(&self.last_state, (now - self.last_change) / ticks_per_sec);
        let screen = if !self.last_state.wifi_ok {
            Screen::WifiStartup {
                draw_backdrop: enter_backdrop(&mut self.current_backdrop, CurrentBackdrop::StartupWifi),
            }
        } else if !self.last_state.mqtt_ok {
            Screen::MqttStartup {
                draw_backdrop: enter_backdrop(&mut self.current_backdrop, CurrentBackdrop::StartupMqtt),
            }
        } else if rerender {
            Screen::Readings(
                render_current_state(
                    &mut self.current_backdrop,
                    self.last_state.power,
                    self.last_state.input,
                    self.last_state.volume,
                ),
            )
        } else {
            Screen::Unchanged
        };
        UiFrame { brightness, screen }
    }
}

// ---------------------------------------------------------------------------
// Laws
// ---------------------------------------------------------------------------

/// The position of a ring in the order of volume bands (0 for the other backdrops).
pub open spec fn band_rank(b: CurrentBackdrop) -> int {
    match b {
        CurrentBackdrop::Ring0_10 => 1,
        CurrentBackdrop::Ring10_20 => 2,
        CurrentBackdrop::Ring20_30 => 3,
        CurrentBackdrop::Ring30_40 => 4,
        CurrentBackdrop::Ring40_50 => 5,
        CurrentBackdrop::Ring50_60 => 6,
        CurrentBackdrop::Ring60_70 => 7,
        CurrentBackdrop::Ring70_80 => 8,
        CurrentBackdrop::Ring80_90 => 9,
        CurrentBackdrop::Ring90_100 => 10,
        _ => 0,
    }
}

/// A louder volume never shows a lower band.
pub proof fn lemma_ring_follows_volume(a: u32, b: u32)
    requires
        no_greater(a, b),
    ensures
        band_rank(ring_for(Power::On, a)) <= band_rank(ring_for(Power::On, b)),
{
    let u = unit();
    lemma_bounds_follow_order(a, b, 10 * u);
    lemma_bounds_follow_order(a, b, 20 * u);
    lemma_bounds_follow_order(a, b, 30 * u);
    lemma_bounds_follow_order(a, b, 40 * u);
    lemma_bounds_follow_order(a, b, 50 * u);
    lemma_bounds_follow_order(a, b, 60 * u);
    lemma_bounds_follow_order(a, b, 70 * u);
    lemma_bounds_follow_order(a, b, 80 * u);
    lemma_bounds_follow_order(a, b, 90 * u);
}

/// The backlight is at one of three levels: 25 whenever WiFi or MQTT is down,
/// 75 only while the amplifier is on and changed at most 5 seconds ago, else off.
pub proof fn lemma_backlight_levels(s: CoreState, secs: nat)
    ensures
        duty(s, secs) == 0 || duty(s, secs) == 25 || duty(s, secs) == 75,
        !s.wifi_ok || !s.mqtt_ok ==> duty(s, secs) == 25,
        duty(s, secs) == 75 ==> s.power == Power::On && secs <= 5,
        s.power == Power::Off && s.wifi_ok && s.mqtt_ok ==> duty(s, secs) == 0,
{
}

/// A backdrop is drawn only when it changes: of two entries of the same
/// backdrop in a row (as `enter_backdrop` states them), the second draws nothing.
pub proof fn lemma_backdrop_drawn_once(
    c0: CurrentBackdrop,
    wanted: CurrentBackdrop,
    draw1: bool,
    c1: CurrentBackdrop,
    draw2: bool,
    c2: CurrentBackdrop,
)
    requires
        draw1 == (c0 != wanted),
        c1 == wanted,
        draw2 == (c1 != wanted),
        c2 == wanted,
    ensures
        !draw2,
        c2 == c1,
        draw1 <==> c0 != c1,
{
}

/// A state differs from itself exactly when its volume is a NaN, so an
/// unchanged state with a numeric volume is not redrawn.
pub proof fn lemma_differs_only_on_change(s: CoreState)
    ensures
        differs(s, s) <==> decode(s.volume) is NotANumber,
{
}

/// The start-up screens take precedence: while WiFi is down the WiFi screen
/// shows (never a ring), else while MQTT is down the MQTT screen shows, else no
/// start-up screen shows.
pub proof fn lemma_startup_precedence(
    before: UiTask,
    after: UiTask,
    s: CoreState,
    now: u64,
    screen: Screen,
)
    requires
        remembers(before, after, s, now),
        shows(before, after, s, screen),
    ensures
        !after.last_state.wifi_ok ==> (screen matches Screen::WifiStartup { .. }),
        after.last_state.wifi_ok && !after.last_state.mqtt_ok ==> (screen matches Screen::MqttStartup {
            ..
        }),
        after.last_state.wifi_ok && after.last_state.mqtt_ok ==> (screen is Readings || screen is Unchanged),
        differs(before.last_state, s) ==> after.last_state == s,
{
}

/// With both links up, the readings are redrawn exactly when the new state
/// differs from the last one shown (a NaN volume always differs); otherwise
/// nothing is drawn.
pub proof fn lemma_redraw_exactly_on_change(
    before: UiTask,
    after: UiTask,
    s: CoreState,
    now: u64,
    screen: Screen,
)
    requires
        s.wifi_ok && s.mqtt_ok,
        remembers(before, after, s, now),
        shows(before, after, s, screen),
    ensures
        (screen is Readings) <==> differs(before.last_state, s),
        !differs(before.last_state, s) ==> screen is Unchanged,
{
}

/// After a round that remembered a state with a numeric volume, the same
/// state read again (with the links up) redraws nothing and keeps the backdrop.
pub proof fn lemma_settled_display(
    before: UiTask,
    mid: UiTask,
    after: UiTask,
    s: CoreState,
    screen: Screen,
    now: u64,
)
    requires
        remembers(before, mid, s, now),
        differs(before.last_state, s),
        !(decode(s.volume) is NotANumber),
        s.wifi_ok && s.mqtt_ok,
        remembers(mid, after, s, now),
        shows(mid, after, s, screen),
    ensures
        screen is Unchanged,
        after.current_backdrop == mid.current_backdrop,
        after.last_state == s,
{
}

/// Every change the display shows is significant: a change of power, of either
/// link, of the source, or of the volume to another number (two encodings
/// that are not both zeros, or any NaN) makes the states differ.
pub proof fn lemma_field_change_is_significant(a: CoreState, b: CoreState)
    ensures
        a.power != b.power ==> differs(a, b),
        a.wifi_ok != b.wifi_ok ==> differs(a, b),
        a.mqtt_ok != b.mqtt_ok ==> differs(a, b),
        a.input != b.input ==> differs(a, b),
        a.volume != b.volume && !(magnitude_bits(a.volume) == 0 && magnitude_bits(b.volume)
            == 0) ==> differs(a, b),
        magnitude_bits(a.volume) > 0x7f80_0000 ==> differs(a, b),
{
    let ma = magnitude_bits(a.volume);
    let mb = magnitude_bits(b.volume);
    if a.volume != b.volume && !(ma == 0 && mb == 0) {
        if ma < 0x7f80_0000 && mb < 0x7f80_0000 {
            lemma_fields(ma);
            lemma_fields(mb);
            lemma_scaled_order(ma, mb);
            lemma_scaled_zero(ma);
            lemma_scaled_zero(mb);
            assert(!same_number(a.volume, b.volume));
        } else {
            lemma_fields(ma);
            lemma_fields(mb);
            assert(!same_number(a.volume, b.volume));
        }
    }
    lemma_fields(ma);
}

/// A significant change restarts the backlight: the round that sees it
/// remembers the new state at the current time, so with both links up and the
/// amplifier on the backlight is at 75; with a link down it is at 25.
pub proof fn lemma_change_restarts_backlight(
    before: UiTask,
    after: UiTask,
    s: CoreState,
    now: u64,
    ticks_per_sec: u64,
)
    requires
        ticks_per_sec > 0,
        remembers(before, after, s, now),
        differs(before.last_state, s),
    ensures
        after.last_change == now,
        after.last_state == s,
        s.wifi_ok && s.mqtt_ok && s.power == Power::On ==> duty(
            after.last_state,
            ((now - after.last_change) / (ticks_per_sec as int)) as nat,
        ) == 75,
        !s.wifi_ok || !s.mqtt_ok ==> duty(
            after.last_state,
            ((now - after.last_change) / (ticks_per_sec as int)) as nat,
        ) == 25,
{
}

} // verus!
