//! The displays, what each one shows, and the decisions of the periodic
//! update: which bytes go to which display on each tick.
//!
//! Nothing here touches a port. A caller owns the loop: it hands each tick
//! the latest readings, writes the bytes that come back to the links, and
//! reports each write's outcome.

use vstd::prelude::*;
use crate::presets::PresetManager;
use crate::protocol::{
    brightness, encode, encode_spec, frame_spec, lemma_encoded_frames_are_marked, DisplayIntent,
    IntentView, StaticPattern,
    BITMAP_LEN, CMD_BRIGHTNESS,
};
use crate::render::{
    battery_image, clock_image, render_battery_display, render_clock, shown_charge,
};
use crate::text::same_text;

verus! {

/// What a display shows.
#[derive(Clone, Debug, PartialEq, Eq)]
pub enum Mode {
    /// The device's idle animation, stepped by the shared frame counter.
    Idle,
    /// A gauge of processor load.
    Cpu,
    /// A gauge of memory use.
    Ram,
    /// The time of day in binary.
    Clock,
    /// The battery gauge.
    Battery,
    /// One of the device's built-in patterns.
    Static(StaticPattern),
    /// The custom bitmap stored under this name.
    Custom(String),
}

/// The built-in mode that a name selects, if it selects one.
pub open spec fn builtin_mode(name: Seq<char>) -> Option<Mode> {
    if name == "idle"@ {
        Some(Mode::Idle)
    } else if name == "cpu"@ {
        Some(Mode::Cpu)
    } else if name == "ram"@ {
        Some(Mode::Ram)
    } else if name == "clock"@ {
        Some(Mode::Clock)
    } else if name == "battery"@ {
        Some(Mode::Battery)
    } else if name == "gradient"@ {
        Some(Mode::Static(StaticPattern::Gradient))
    } else if name == "double_gradient"@ {
        Some(Mode::Static(StaticPattern::DoubleGradient))
    } else if name == "zigzag"@ {
        Some(Mode::Static(StaticPattern::Zigzag))
    } else if name == "lotus_h"@ {
        Some(Mode::Static(StaticPattern::LotusHorizontal))
    } else if name == "lotus_v"@ {
        Some(Mode::Static(StaticPattern::LotusVertical))
    } else if name == "full_brightness"@ {
        Some(Mode::Static(StaticPattern::FullBrightness))
    } else if name == "panic"@ {
        Some(Mode::Static(StaticPattern::Panic))
    } else {
        None
    }
}

/// The mode that a selector name stands for: a built-in name selects its
/// mode, any other name the custom bitmap stored under it.
pub fn mode_from_name(name: &str) -> (r: Mode)
    ensures
        match builtin_mode(name@) {
            Some(m) => r == m,
            None => r matches Mode::Custom(n) && n@ == name@,
        },
{
    if same_text(name, "idle") {
        Mode::Idle
    } else if same_text(name, "cpu") {
        Mode::Cpu
    } else if same_text(name, "ram") {
        Mode::Ram
    } else if same_text(name, "clock") {
        Mode::Clock
    } else if same_text(name, "battery") {
        Mode::Battery
    } else if same_text(name, "gradient") {
        Mode::Static(StaticPattern::Gradient)
    } else if same_text(name, "double_gradient") {
        Mode::Static(StaticPattern::DoubleGradient)
    } else if same_text(name, "zigzag") {
        Mode::Static(StaticPattern::Zigzag)
    } else if same_text(name, "lotus_h") {
        Mode::Static(StaticPattern::LotusHorizontal)
    } else if same_text(name, "lotus_v") {
        Mode::Static(StaticPattern::LotusVertical)
    } else if same_text(name, "full_brightness") {
        Mode::Static(StaticPattern::FullBrightness)
    } else if same_text(name, "panic") {
        Mode::Static(StaticPattern::Panic)
    } else {
        Mode::Custom(name.to_owned())
    }
}

/// The outside readings that one tick renders from.
#[derive(Clone, Copy, Debug, PartialEq, Eq)]
pub struct Readings {
    /// Processor load, 0 to 100.
    pub cpu_percent: u8,
    /// Memory use, 0 to 100.
    pub ram_percent: u8,
    /// Local hour, 0 to 23.
    pub hour: u8,
    /// Local minute, 0 to 59.
    pub minute: u8,
    /// Battery charge, 0 to 100, when a battery is present.
    pub battery_percent: Option<u8>,
}

/// The step of the idle animation at frame `frame`: the frame counter over
/// four, modulo three.
pub open spec fn idle_index(frame: u8) -> u8 {
    ((frame / 4) % 3) as u8
}

/// The frame counter after one tick: one more, wrapping from 255 to 0.
pub open spec fn next_frame(frame: u8) -> u8 {
    ((frame + 1) % 256) as u8
}

/// What a display in `mode` is asked to show.
pub open spec fn render_spec(
    mode: Mode,
    readings: Readings,
    frame: u8,
    store: Map<Seq<char>, Seq<u8>>,
) -> IntentView {
    match mode {
        Mode::Idle => IntentView::Idle(idle_index(frame)),
        Mode::Cpu => IntentView::Percentage(readings.cpu_percent),
        Mode::Ram => IntentView::Percentage(readings.ram_percent),
        Mode::Clock => IntentView::Bitmap(clock_image(readings.hour, readings.minute)),
        Mode::Battery => IntentView::Bitmap(battery_image(shown_charge(readings.battery_percent))),
        Mode::Static(p) => IntentView::Pattern(p),
        Mode::Custom(name) => if store.contains_key(name@) {
            IntentView::Bitmap(store[name@])
        } else {
            IntentView::NoOp
        },
    }
}

/// Decides what a display in `mode` shows: the idle step of `frame`, a
/// metric gauge, the clock or battery screen, a built-in pattern, or the
/// stored custom bitmap (nothing at all when no bitmap has that name).
pub fn render(mode: &Mode, readings: &Readings, frame: u8, presets: &PresetManager) -> (r: DisplayIntent)
    requires
        presets.wf(),
    ensures
        r@ == render_spec(*mode, *readings, frame, presets@),
{
    match mode {
        Mode::Idle => DisplayIntent::Idle((frame / 4) % 3),
        Mode::Cpu => DisplayIntent::Percentage(readings.cpu_percent),
        Mode::Ram => DisplayIntent::Percentage(readings.ram_percent),
        Mode::Clock => DisplayIntent::Bitmap(render_clock(readings.hour, readings.minute)),
        Mode::Battery => DisplayIntent::Bitmap(render_battery_display(readings.battery_percent)),
        Mode::Static(p) => DisplayIntent::Pattern(*p),
        Mode::Custom(name) => match presets.get_preset(name.as_str()) {
            Some(img) => DisplayIntent::Bitmap(img),
            None => DisplayIntent::NoOp,
        },
    }
}

/// One display: its link when connected, what it shows, its brightness, and
/// whether the last write to it failed.
pub struct DeviceState<L> {
    pub link: Option<L>,
    pub mode: Mode,
    pub brightness: u8,
    pub faulted: bool,
}

/// The bytes a tick sends to one display: none while it is disconnected or
/// when its intent encodes to nothing.
pub open spec fn tick_output<L>(
    device: DeviceState<L>,
    readings: Readings,
    frame: u8,
    store: Map<Seq<char>, Seq<u8>>,
) -> Option<Seq<u8>> {
    let bytes = encode_spec(render_spec(device.mode, readings, frame, store));
    if device.link is Some && bytes.len() > 0 {
        Some(bytes)
    } else {
        None
    }
}

/// The bytes a tick sends to each display, in display order.
pub open spec fn tick_outputs<L>(
    devices: Seq<DeviceState<L>>,
    readings: Readings,
    frame: u8,
    store: Map<Seq<char>, Seq<u8>>,
) -> Seq<Option<Seq<u8>>> {
    Seq::new(devices.len(), |i: int| tick_output(devices[i], readings, frame, store))
}

/// The cells of an optional byte buffer.
pub open spec fn bytes_view(o: Option<Vec<u8>>) -> Option<Seq<u8>> {
    match o {
        Some(v) => Some(v@),
        None => None,
    }
}

/// Every display, the latest readings, the shared idle frame counter and the
/// custom bitmaps.
pub struct DisplaySession<L> {
    pub devices: Vec<DeviceState<L>>,
    pub readings: Readings,
    pub idle_frame: u8,
    pub presets: PresetManager,
}

/// The brightness a display starts with.
pub const DEFAULT_BRIGHTNESS: u8 = 120;

impl<L> DisplaySession<L> {
    /// A session of `device_count` displays, none connected, each showing the
    /// idle animation at the default brightness.
    pub fn new(device_count: usize, presets: PresetManager) -> (r: Self)
        requires
            presets.wf(),
        ensures
            r.presets.wf(),
            r.presets@ == presets@,
            r.devices@.len() == device_count,
            forall|i: int|
                0 <= i < device_count ==> {
                    let d = #[trigger] r.devices@[i];
                    &&& d.link is None
                    &&& d.mode == Mode::Idle
                    &&& d.brightness == DEFAULT_BRIGHTNESS
                    &&& !d.faulted
                },
            r.idle_frame == 0,
            r.readings == (Readings {
                cpu_percent: 0,
                ram_percent: 0,
                hour: 0,
                minute: 0,
                battery_percent: None,
            }),
    {
        let mut devices: Vec<DeviceState<L>> = Vec::new();
        let mut i: usize = 0;
        while i < device_count
            invariant
                i <= device_count,
                devices@.len() == i,
                forall|j: int|
                    0 <= j < i ==> {
                        let d = #[trigger] devices@[j];
                        &&& d.link is None
                        &&& d.mode == Mode::Idle
                        &&& d.brightness == DEFAULT_BRIGHTNESS
                        &&& !d.faulted
                    },
            decreases device_count - i,
        {
            devices.push(
                DeviceState { link: None, mode: Mode::Idle, brightness: DEFAULT_BRIGHTNESS, faulted: false },
            );
            i = i + 1;
        }
        DisplaySession {
            devices,
            readings: Readings {
                cpu_percent: 0,
                ram_percent: 0,
                hour: 0,
                minute: 0,
                battery_percent: None,
            },
            idle_frame: 0,
            presets,
        }
    }

    /// Whether any display is connected; the periodic update runs only then.
    pub fn any_connected(&self) -> (r: bool)
        ensures
            r == exists|i: int| 0 <= i < self.devices@.len() && (#[trigger] self.devices@[i]).link is Some,
    {
        let mut i: usize = 0;
        while i < self.devices.len()
            invariant
                i <= self.devices@.len(),
                forall|j: int| 0 <= j < i ==> (#[trigger] self.devices@[j]).link is None,
            decreases self.devices@.len() - i,
        {
            if self.devices[i].link.is_some() {
                return true;
            }
            i = i + 1;
        }
        false
    }

    /// Hands display `index` its newly opened link and clears its fault.
    /// Returns the brightness frame to send first, so that the display starts
    /// at its chosen brightness.
    pub fn connect_device(&mut self, index: usize, link: L) -> (r: Vec<u8>)
        requires
            index < old(self).devices@.len(),
        ensures
            final(self).devices@ == old(self).devices@.update(
                index as int,
                DeviceState {
                    link: Some(link),
                    faulted: false,
                    ..old(self).devices@[index as int]
                },
            ),
            final(self).readings == old(self).readings,
            final(self).idle_frame == old(self).idle_frame,
            final(self).presets == old(self).presets,
            r@ == frame_spec(CMD_BRIGHTNESS, seq![old(self).devices@[index as int].brightness]),
    {
        self.devices[index].link = Some(link);
        self.devices[index].faulted = false;
        brightness(self.devices[index].brightness)
    }

    /// Drops the link of display `index`; a disconnected display is skipped
    /// by every tick and has no fault.
    pub fn disconnect_device(&mut self, index: usize)
        requires
            index < old(self).devices@.len(),
        ensures
            final(self).devices@ == old(self).devices@.update(
                index as int,
                DeviceState { link: None, faulted: false, ..old(self).devices@[index as int] },
            ),
            final(self).readings == old(self).readings,
            final(self).idle_frame == old(self).idle_frame,
            final(self).presets == old(self).presets,
    {
        self.devices[index].link = None;
        self.devices[index].faulted = false;
    }

    /// Chooses what display `index` shows from the next tick on.
    pub fn set_mode(&mut self, index: usize, mode: Mode)
        requires
            index < old(self).devices@.len(),
        ensures
            final(self).devices@ == old(self).devices@.update(
                index as int,
                DeviceState { mode: mode, ..old(self).devices@[index as int] },
            ),
            final(self).readings == old(self).readings,
            final(self).idle_frame == old(self).idle_frame,
            final(self).presets == old(self).presets,
    {
        self.devices[index].mode = mode;
    }

    /// Records the brightness of display `index`. Returns the frame that sets
    /// it when the display is connected, and nothing otherwise.
    pub fn set_brightness(&mut self, index: usize, level: u8) -> (r: Option<Vec<u8>>)
        requires
            index < old(self).devices@.len(),
        ensures
            final(self).devices@ == old(self).devices@.update(
                index as int,
                DeviceState { brightness: level, ..old(self).devices@[index as int] },
            ),
            final(self).readings == old(self).readings,
            final(self).idle_frame == old(self).idle_frame,
            final(self).presets == old(self).presets,
            bytes_view(r) == if old(self).devices@[index as int].link is Some {
                Some(frame_spec(CMD_BRIGHTNESS, seq![level]))
            } else {
                None::<Seq<u8>>
            },
    {
        self.devices[index].brightness = level;
        if self.devices[index].link.is_some() {
            Some(brightness(level))
        } else {
            None
        }
    }

    /// Records the outcome of the last write to display `index`: a failed
    /// write marks it faulted, a successful one clears the mark.
    pub fn record_send_result(&mut self, index: usize, succeeded: bool)
        requires
            index < old(self).devices@.len(),
        ensures
            final(self).devices@ == old(self).devices@.update(
                index as int,
                DeviceState { faulted: !succeeded, ..old(self).devices@[index as int] },
            ),
            final(self).readings == old(self).readings,
            final(self).idle_frame == old(self).idle_frame,
            final(self).presets == old(self).presets,
    {
        self.devices[index].faulted = !succeeded;
    }

    /// One periodic update: takes the new readings, advances the idle frame
    /// counter (wrapping from 255 to 0), and decides for every display on its
    /// own the bytes to send it: none for a disconnected display, else the
    /// encoding of what its mode renders, unless that is empty.
    pub fn tick(&mut self, readings: Readings) -> (r: Vec<Option<Vec<u8>>>)
        requires
            old(self).presets.wf(),
        ensures
            final(self).readings == readings,
            final(self).idle_frame == next_frame(old(self).idle_frame),
            final(self).devices@ == old(self).devices@,
            final(self).presets == old(self).presets,
            r@.len() == old(self).devices@.len(),
            forall|i: int|
                0 <= i < r@.len() ==> bytes_view(#[trigger] r@[i]) == tick_outputs(
                    old(self).devices@,
                    readings,
                    next_frame(old(self).idle_frame),
                    old(self).presets@,
                )[i],
    {
        self.readings = readings;
        self.idle_frame = self.idle_frame.wrapping_add(1);
        let mut out: Vec<Option<Vec<u8>>> = Vec::new();
        let mut i: usize = 0;
        while i < self.devices.len()
            invariant
                self.presets.wf(),
                i <= self.devices@.len(),
                out@.len() == i,
                forall|j: int|
                    0 <= j < i ==> bytes_view(#[trigger] out@[j]) == tick_output(
                        self.devices@[j],
                        self.readings,
                        self.idle_frame,
                        self.presets@,
                    ),
            decreases self.devices@.len() - i,
        {
            let device = &self.devices[i];
            if device.link.is_some() {
                let intent = render(&device.mode, &self.readings, self.idle_frame, &self.presets);
                let bytes = encode(&intent);
                if bytes.len() > 0 {
                    out.push(Some(bytes));
                } else {
                    out.push(None);
                }
            } else {
                out.push(None);
            }
            i = i + 1;
        }
        out
    }
}

/// With two displays of which exactly one is connected, a tick sends nothing
/// to the other one and sends the connected one the encoding of what its mode
/// renders: one non-empty frame sequence, unless the mode names a custom
/// bitmap that is not stored.
pub proof fn lemma_tick_with_one_of_two_connected<L>(
    devices: Seq<DeviceState<L>>,
    readings: Readings,
    frame: u8,
    presets: PresetManager,
    k: int,
)
    requires
        presets.wf(),
        devices.len() == 2,
        0 <= k < 2,
        devices[k].link is Some,
        devices[1 - k].link is None,
        !(devices[k].mode matches Mode::Custom(name) && !presets@.contains_key(name@)),
    ensures
        tick_outputs(devices, readings, frame, presets@)[1 - k] is None,
        tick_outputs(devices, readings, frame, presets@)[k] == Some(
            encode_spec(render_spec(devices[k].mode, readings, frame, presets@)),
        ),
        encode_spec(render_spec(devices[k].mode, readings, frame, presets@)).len() > 0,
{
    let intent = render_spec(devices[k].mode, readings, frame, presets@);
    presets.lemma_stored_bitmaps_are_full();
    lemma_encoded_frames_are_marked(intent);
    if let IntentView::Bitmap(img) = intent {
        assert(img.len() == BITMAP_LEN);
    }
}

/// The idle frame counter wraps from 255 to 0. The idle step is 0, 1 or 2;
/// it holds for four frames, then moves on to the next step modulo three, so
/// that it repeats every twelve frames until the counter wraps.
pub proof fn lemma_idle_cycle(frame: u8)
    ensures
        next_frame(255) == 0,
        frame < 255 ==> next_frame(frame) == frame + 1,
        idle_index(frame) < 3,
        frame < 255 && frame % 4 != 3 ==> idle_index(next_frame(frame)) == idle_index(frame),
        frame < 255 && frame % 4 == 3 ==> idle_index(next_frame(frame)) == (idle_index(frame) + 1)
            % 3,
        frame + 12 <= 255 ==> idle_index((frame + 12) as u8) == idle_index(frame),
{
}

} // verus!
