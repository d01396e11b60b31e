//! Controller input: what each source last sent, and what a port makes of the
//! sources that feed it.

use vstd::prelude::*;

use crate::clock::{Monotonic, MAX_DURATION_NS};
use crate::table::{Table, TableKey};

verus! {

/// How long what a source sent counts.
pub const STALE_TIMEOUT_NS: u128 = 300_000_000;

/// How long a pulsed button stays pressed.
pub const TRANSIENT_PULSE_NS: u128 = 100_000_000;

pub const MAX_PORTS: u32 = 8;

pub const JOYPAD_BUTTON_COUNT: usize = 16;

pub const AXIS_COUNT: usize = 6;

/// An analog trigger beyond this value presses its button.
pub const TRIGGER_THRESHOLD: i16 = 8191;

#[derive(Debug, Clone, Copy, PartialEq, Eq, Hash, Structural)]
pub enum Button {
    B,
    Y,
    Select,
    Start,
    Up,
    Down,
    Left,
    Right,
    A,
    X,
    L,
    R,
    L2,
    R2,
    L3,
    R3,
}

/// The number that libretro knows a button by.
pub open spec fn button_id(button: Button) -> int {
    match button {
        Button::B => 0,
        Button::Y => 1,
        Button::Select => 2,
        Button::Start => 3,
        Button::Up => 4,
        Button::Down => 5,
        Button::Left => 6,
        Button::Right => 7,
        Button::A => 8,
        Button::X => 9,
        Button::L => 10,
        Button::R => 11,
        Button::L2 => 12,
        Button::R2 => 13,
        Button::L3 => 14,
        Button::R3 => 15,
    }
}

impl Button {
    pub fn retro_id(self) -> (id: u32)
        ensures
            id == button_id(self),
            id < JOYPAD_BUTTON_COUNT,
    {
        match self {
            Button::B => 0,
            Button::Y => 1,
            Button::Select => 2,
            Button::Start => 3,
            Button::Up => 4,
            Button::Down => 5,
            Button::Left => 6,
            Button::Right => 7,
            Button::A => 8,
            Button::X => 9,
            Button::L => 10,
            Button::R => 11,
            Button::L2 => 12,
            Button::R2 => 13,
            Button::L3 => 14,
            Button::R3 => 15,
        }
    }

    /// The button with this number: there is one for each number below the
    /// count of buttons, and none for any other.
    pub fn from_retro_id(id: u32) -> (button: Option<Self>)
        ensures
            button is Some <==> id < JOYPAD_BUTTON_COUNT,
            button is Some ==> button_id(button->0) == id,
    {
        match id {
            0 => Some(Button::B),
            1 => Some(Button::Y),
            2 => Some(Button::Select),
            3 => Some(Button::Start),
            4 => Some(Button::Up),
            5 => Some(Button::Down),
            6 => Some(Button::Left),
            7 => Some(Button::Right),
            8 => Some(Button::A),
            9 => Some(Button::X),
            10 => Some(Button::L),
            11 => Some(Button::R),
            12 => Some(Button::L2),
            13 => Some(Button::R2),
            14 => Some(Button::L3),
            15 => Some(Button::R3),
            _ => None,
        }
    }
}

#[derive(Debug, Clone, Copy, PartialEq, Eq, Hash, Structural)]
pub enum Axis {
    Lx,
    Ly,
    Rx,
    Ry,
    L2,
    R2,
}

pub open spec fn axis_id(axis: Axis) -> int {
    match axis {
        Axis::Lx => 0,
        Axis::Ly => 1,
        Axis::Rx => 2,
        Axis::Ry => 3,
        Axis::L2 => 4,
        Axis::R2 => 5,
    }
}

impl Axis {
    /// The place of an axis among the axes.
    pub fn index(self) -> (id: usize)
        ensures
            id == axis_id(self),
            id < AXIS_COUNT,
    {
        match self {
            Axis::Lx => 0,
            Axis::Ly => 1,
            Axis::Rx => 2,
            Axis::Ry => 3,
            Axis::L2 => 4,
            Axis::R2 => 5,
        }
    }
}

/// The buttons that an update speaks of, and whether each is pressed.
#[derive(Debug, Clone, Copy)]
pub struct ButtonMap {
    pub pressed: [Option<bool>; 16],
}

impl ButtonMap {
    /// What the map says of the button numbered `id`.
    pub open spec fn at(self, id: int) -> Option<bool> {
        self.pressed@[id]
    }

    pub fn new() -> (map: Self)
        ensures
            forall|id: int| 0 <= id < JOYPAD_BUTTON_COUNT ==> #[trigger] map.at(id) is None,
    {
        ButtonMap { pressed: [None; 16] }
    }

    pub fn insert(&mut self, button: Button, pressed: bool)
        ensures
            final(self).at(button_id(button)) == Some(pressed),
            forall|id: int|
                0 <= id < JOYPAD_BUTTON_COUNT && id != button_id(button) ==> #[trigger] final(self).at(id)
                    == old(self).at(id),
    {
        let id: usize = button.retro_id() as usize;
        self.pressed[id] = Some(pressed);
    }

    pub fn get(&self, button: Button) -> (pressed: Option<bool>)
        ensures
            pressed == self.at(button_id(button)),
    {
        self.pressed[button.retro_id() as usize]
    }
}

/// The axes that an update speaks of, and the position of each.
#[derive(Debug, Clone, Copy)]
pub struct AxisMap {
    pub positions: [Option<i16>; 6],
}

impl AxisMap {
    /// What the map says of the axis numbered `id`.
    pub open spec fn at(self, id: int) -> Option<i16> {
        self.positions@[id]
    }

    pub fn new() -> (map: Self)
        ensures
            forall|id: int| 0 <= id < AXIS_COUNT ==> #[trigger] map.at(id) is None,
    {
        AxisMap { positions: [None; 6] }
    }

    pub fn insert(&mut self, axis: Axis, position: i16)
        ensures
            final(self).at(axis_id(axis)) == Some(position),
            forall|id: int|
                0 <= id < AXIS_COUNT && id != axis_id(axis) ==> #[trigger] final(self).at(id)
                    == old(self).at(id),
    {
        let id: usize = axis.index();
        self.positions[id] = Some(position);
    }

    pub fn get(&self, axis: Axis) -> (position: Option<i16>)
        ensures
            position == self.at(axis_id(axis)),
    {
        self.positions[axis.index()]
    }
}

/// What a source sends: the buttons and axes that have changed.
#[derive(Debug, Clone, Copy)]
pub struct InputUpdate {
    pub buttons: ButtonMap,
    pub axes: AxisMap,
}

impl Default for InputUpdate {
    fn default() -> (update: Self)
        ensures
            forall|id: int|
                0 <= id < JOYPAD_BUTTON_COUNT ==> #[trigger] update.buttons.at(id) is None,
            forall|id: int| 0 <= id < AXIS_COUNT ==> #[trigger] update.axes.at(id) is None,
    {
        InputUpdate { buttons: ButtonMap::new(), axes: AxisMap::new() }
    }
}

/// What a source has last sent, and when.
#[derive(Debug, Clone, Copy)]
pub struct SourceState {
    pub buttons: [bool; 16],
    pub axes: [i16; 6],
    pub updated_at: u128,
}

#[verifier::ext_equal]
pub struct SourceModel {
    pub buttons: Seq<bool>,
    pub axes: Seq<i16>,
    pub updated_at: u128,
}

impl View for SourceState {
    type V = SourceModel;

    open spec fn view(&self) -> SourceModel {
        SourceModel {
            buttons: self.buttons@,
            axes: self.axes@,
            updated_at: self.updated_at,
        }
    }
}

/// A source that has sent nothing: every button up, every axis at rest.
pub open spec fn idle_source(now: u128) -> SourceModel {
    SourceModel {
        buttons: Seq::new(16, |i: int| false),
        axes: Seq::new(6, |i: int| 0i16),
        updated_at: now,
    }
}

/// A source once an update has come: what the update speaks of is as it says,
/// the rest as before.
pub open spec fn updated_source(before: SourceModel, update: InputUpdate, now: u128) -> SourceModel {
    SourceModel {
        buttons: Seq::new(
            16,
            |i: int|
                match update.buttons.at(i) {
                    Some(pressed) => pressed,
                    None => before.buttons[i],
                },
        ),
        axes: Seq::new(
            6,
            |i: int|
                match update.axes.at(i) {
                    Some(position) => position,
                    None => before.axes[i],
                },
        ),
        updated_at: now,
    }
}

/// All that the ports know: what each source of a port has last sent, and until
/// when a button of a port is pulsed.
#[verifier::ext_equal]
pub struct HubModel {
    pub sources: Map<(u32, Seq<char>), SourceModel>,
    pub pulses: Map<(u32, u32), u128>,
}

/// What a port knows of a source, idle where it has not heard of it.
pub open spec fn source_at(s: HubModel, port: u32, source: Seq<char>, now: u128) -> SourceModel {
    if s.sources.contains_key((port, source)) {
        s.sources[(port, source)]
    } else {
        idle_source(now)
    }
}

/// The hub once a source has sent an update.
pub open spec fn applied(
    s: HubModel,
    now: u128,
    port: u32,
    source: Seq<char>,
    update: InputUpdate,
) -> HubModel {
    if port >= MAX_PORTS {
        s
    } else {
        HubModel {
            sources: s.sources.insert(
                (port, source),
                updated_source(source_at(s, port, source, now), update, now),
            ),
            ..s
        }
    }
}

/// The hub once a source has pulsed a button.
pub open spec fn pulsed(
    s: HubModel,
    now: u128,
    port: u32,
    source: Seq<char>,
    button: Button,
) -> HubModel {
    if port >= MAX_PORTS {
        s
    } else {
        HubModel {
            sources: s.sources.insert(
                (port, source),
                SourceModel { updated_at: now, ..source_at(s, port, source, now) },
            ),
            pulses: s.pulses.insert(
                (port, button_id(button) as u32),
                (now + TRANSIENT_PULSE_NS) as u128,
            ),
        }
    }
}

/// The hub without anything that a source has sent to any port.
pub open spec fn without_source(s: HubModel, source: Seq<char>) -> HubModel {
    HubModel {
        sources: s.sources.restrict(
            Set::new(|key: (u32, Seq<char>)| s.sources.contains_key(key) && key.1 != source),
        ),
        ..s
    }
}

/// What a port hands to the machine.
#[verifier::ext_equal]
pub struct PadModel {
    pub buttons: Seq<bool>,
    pub axes: Seq<i16>,
}

pub open spec fn idle_pad() -> PadModel {
    PadModel { buttons: Seq::new(16, |i: int| false), axes: Seq::new(6, |i: int| 0i16) }
}

/// How far an axis is from rest.
pub open spec fn tilt(position: i16) -> int {
    if position < 0 {
        -position
    } else {
        position as int
    }
}

/// Whether a port has heard of any source.
pub open spec fn port_in_use(s: HubModel, port: u32) -> bool {
    exists|source: Seq<char>| #[trigger] s.sources.contains_key((port, source))
}

/// Whether what a source has sent to a port still counts.
pub open spec fn counts(s: HubModel, port: u32, source: Seq<char>, now: u128) -> bool {
    &&& s.sources.contains_key((port, source))
    &&& now - s.sources[(port, source)].updated_at <= STALE_TIMEOUT_NS
}

/// Whether a source that counts presses the button.
pub open spec fn held(s: HubModel, port: u32, now: u128, id: int) -> bool {
    exists|source: Seq<char>| #[trigger]
        counts(s, port, source, now) && s.sources[(port, source)].buttons[id]
}

/// Whether the button is pulsed.
pub open spec fn pulsing(s: HubModel, port: u32, now: u128, id: int) -> bool {
    s.pulses.contains_key((port, id as u32)) && s.pulses[(port, id as u32)] > now
}

/// Whether `position` is what the sources that count make of an axis: the
/// position of one that is furthest from rest, or rest.
pub open spec fn dominant(s: HubModel, port: u32, now: u128, id: int, position: i16) -> bool {
    &&& position == 0 || exists|source: Seq<char>| #[trigger]
        counts(s, port, source, now) && s.sources[(port, source)].axes[id] == position
    &&& forall|source: Seq<char>| #[trigger]
        counts(s, port, source, now) ==> tilt(s.sources[(port, source)].axes[id]) <= tilt(position)
}

/// Whether a trigger that is pulled far enough presses the button.
pub open spec fn triggered(axes: Seq<i16>, id: int) -> bool {
    ||| (id == button_id(Button::L2) && axes[axis_id(Axis::L2)] > TRIGGER_THRESHOLD)
    ||| (id == button_id(Button::R2) && axes[axis_id(Axis::R2)] > TRIGGER_THRESHOLD)
}

/// Whether `pad` is what a port makes of its sources at `now`. Of two sources
/// that tilt an axis equally far, either may count.
pub open spec fn merged(s: HubModel, now: u128, port: u32, pad: PadModel) -> bool {
    if port >= MAX_PORTS || !port_in_use(s, port) {
        pad == idle_pad()
    } else {
        &&& pad.buttons.len() == 16
        &&& pad.axes.len() == 6
        &&& forall|id: int|
            0 <= id < 6 ==> dominant(s, port, now, id, #[trigger] pad.axes[id])
        &&& forall|id: int|
            0 <= id < 16 ==> #[trigger] pad.buttons[id] == (held(s, port, now, id) || pulsing(
                s,
                port,
                now,
                id,
            ) || triggered(pad.axes, id))
    }
}

/// What the machine reads of one button.
pub open spec fn button_reading(pad: PadModel, id: u32) -> i16 {
    if id < JOYPAD_BUTTON_COUNT && pad.buttons[id as int] {
        1
    } else {
        0
    }
}

/// What the machine reads of one axis of one stick.
pub open spec fn stick_reading(pad: PadModel, index: u32, id: u32) -> i16 {
    if index == 0 && id == 0 {
        pad.axes[axis_id(Axis::Lx)]
    } else if index == 0 && id == 1 {
        pad.axes[axis_id(Axis::Ly)]
    } else if index == 1 && id == 0 {
        pad.axes[axis_id(Axis::Rx)]
    } else if index == 1 && id == 1 {
        pad.axes[axis_id(Axis::Ry)]
    } else {
        0
    }
}

#[derive(Debug, Clone)]
pub struct SourceKey {
    pub port: u32,
    pub source: String,
}

impl View for SourceKey {
    type V = (u32, Seq<char>);

    open spec fn view(&self) -> (u32, Seq<char>) {
        (self.port, self.source@)
    }
}

impl TableKey for SourceKey {
    fn same_key(&self, other: &Self) -> (same: bool) {
        self.port == other.port && self.source == other.source
    }
}

#[derive(Debug, Clone, Copy)]
pub struct PulseKey {
    pub port: u32,
    pub button: u32,
}

impl View for PulseKey {
    type V = (u32, u32);

    open spec fn view(&self) -> (u32, u32) {
        (self.port, self.button)
    }
}

impl TableKey for PulseKey {
    fn same_key(&self, other: &Self) -> (same: bool) {
        self.port == other.port && self.button == other.button
    }
}

/// What a port hands to the machine.
#[derive(Debug, Clone, Copy)]
pub struct MergedState {
    pub buttons: [bool; 16],
    pub axes: [i16; 6],
}

impl View for MergedState {
    type V = PadModel;

    open spec fn view(&self) -> PadModel {
        PadModel { buttons: self.buttons@, axes: self.axes@ }
    }
}

#[derive(Debug)]
pub struct InputState {
    pub sources: Table<SourceKey, SourceState>,
    pub pulses: Table<PulseKey, u128>,
}

/// What a table of sources stands for.
pub open spec fn sources_view(table: Map<(u32, Seq<char>), SourceState>) -> Map<
    (u32, Seq<char>),
    SourceModel,
> {
    table.map_values(|s: SourceState| s@)
}

impl View for InputState {
    type V = HubModel;

    open spec fn view(&self) -> HubModel {
        HubModel { sources: sources_view(self.sources@), pulses: self.pulses@ }
    }
}

/// The position that is further from rest, the first of two equal ones.
fn dominant_axis(existing: i16, candidate: i16) -> (position: i16)
    ensures
        position == (if tilt(candidate) > tilt(existing) {
            candidate
        } else {
            existing
        }),
{
    let old_tilt: i32 = if existing < 0 {
        -(existing as i32)
    } else {
        existing as i32
    };
    let new_tilt: i32 = if candidate < 0 {
        -(candidate as i32)
    } else {
        candidate as i32
    };
    if new_tilt > old_tilt {
        candidate
    } else {
        existing
    }
}

impl InputState {
    pub open spec fn wf(self) -> bool {
        self.sources.wf() && self.pulses.wf()
    }

    /// What the port knows of the source, idle where it has not heard of it.
    fn source_state(&self, key: &SourceKey, now: u128) -> (state: SourceState)
        requires
            self.wf(),
        ensures
            state@ == source_at(self@, key@.0, key@.1, now),
    {
        match self.sources.get(key) {
            Some(state) => *state,
            None => {
                let state = SourceState { buttons: [false; 16], axes: [0; 6], updated_at: now };
                assert(state@ =~= idle_source(now));
                state
            },
        }
    }

    fn set_source(&mut self, key: SourceKey, state: SourceState)
        requires
            old(self).wf(),
        ensures
            final(self).wf(),
            final(self)@ == (HubModel {
                sources: old(self)@.sources.insert(key@, state@),
                ..old(self)@
            }),
    {
        let ghost table = self.sources@;
        self.sources.insert(key, state);
        assert(sources_view(self.sources@) =~= sources_view(table).insert(key@, state@));
    }
}

/// What the sources have sent to the ports.
#[derive(Debug)]
pub struct InputHub {
    pub state: InputState,
    pub clock: Monotonic,
}

impl View for InputHub {
    type V = HubModel;

    open spec fn view(&self) -> HubModel {
        self.state@
    }
}

impl Default for InputHub {
    fn default() -> (hub: Self)
        ensures
            hub.wf(),
            hub@ == (HubModel { sources: Map::empty(), pulses: Map::empty() }),
    {
        let hub = InputHub {
            state: InputState { sources: Table::new(), pulses: Table::new() },
            clock: Monotonic::start(),
        };
        assert(hub@.sources =~= Map::empty());
        hub
    }
}

impl InputHub {
    pub open spec fn wf(self) -> bool {
        self.state.wf()
    }

    /// Notes what a source has sent to a port at `now`.
    pub fn apply_update_at(&mut self, now: u128, port: u32, source: &str, update: &InputUpdate)
        requires
            old(self).wf(),
        ensures
            final(self).wf(),
            final(self).clock == old(self).clock,
            final(self)@ == applied(old(self)@, now, port, source@, *update),
    {
        if port >= MAX_PORTS {
            return;
        }
        let key = SourceKey { port, source: source.to_owned() };
        let mut entry = self.state.source_state(&key, now);
        let ghost before = entry@;
        let mut i: usize = 0;
        while i < 16
            invariant
                i <= 16,
                entry.buttons@.len() == 16,
                entry.axes@ == before.axes,
                forall|j: int|
                    0 <= j < i ==> #[trigger] entry.buttons@[j] == updated_source(
                        before,
                        *update,
                        now,
                    ).buttons[j],
                forall|j: int| i <= j < 16 ==> #[trigger] entry.buttons@[j] == before.buttons[j],
            decreases 16 - i,
        {
            if let Some(pressed) = update.buttons.pressed[i] {
                entry.buttons[i] = pressed;
            }
            i += 1;
        }
        let mut k: usize = 0;
        while k < 6
            invariant
                k <= 6,
                entry.axes@.len() == 6,
                entry.buttons@ =~= updated_source(before, *update, now).buttons,
                forall|j: int|
                    0 <= j < k ==> #[trigger] entry.axes@[j] == updated_source(
                        before,
                        *update,
                        now,
                    ).axes[j],
                forall|j: int| k <= j < 6 ==> #[trigger] entry.axes@[j] == before.axes[j],
            decreases 6 - k,
        {
            if let Some(position) = update.axes.positions[k] {
                entry.axes[k] = position;
            }
            k += 1;
        }
        entry.updated_at = now;
        assert(entry@ =~= updated_source(before, *update, now));
        self.state.set_source(key, entry);
    }

    /// Notes what a source has sent to a port.
    pub fn apply_update(&mut self, port: u32, source: &str, update: &InputUpdate)
        requires
            old(self).wf(),
        ensures
            final(self).wf(),
            final(self).clock == old(self).clock,
            exists|now: u128|
                now <= MAX_DURATION_NS && final(self)@ == #[trigger] applied(
                    old(self)@,
                    now,
                    port,
                    source@,
                    *update,
                ),
    {
        let now: u128 = self.clock.now_ns();
        self.apply_update_at(now, port, source, update);
    }

    /// Presses a button for a short time from `now`.
    pub fn pulse_button_at(&mut self, now: u128, port: u32, source: &str, button: Button)
        requires
            old(self).wf(),
            now <= MAX_DURATION_NS,
        ensures
            final(self).wf(),
            final(self).clock == old(self).clock,
            final(self)@ == pulsed(old(self)@, now, port, source@, button),
    {
        if port >= MAX_PORTS {
            return;
        }
        let key = SourceKey { port, source: source.to_owned() };
        let mut entry = self.state.source_state(&key, now);
        entry.updated_at = now;
        self.state.set_source(key, entry);
        self.state.pulses.insert(
            PulseKey { port, button: button.retro_id() },
            now + TRANSIENT_PULSE_NS,
        );
    }

    /// Presses a button for a short time.
    pub fn pulse_button(&mut self, port: u32, source: &str, button: Button)
        requires
            old(self).wf(),
        ensures
            final(self).wf(),
            final(self).clock == old(self).clock,
            exists|now: u128|
                now <= MAX_DURATION_NS && final(self)@ == #[trigger] pulsed(
                    old(self)@,
                    now,
                    port,
                    source@,
                    button,
                ),
    {
        let now: u128 = self.clock.now_ns();
        self.pulse_button_at(now, port, source, button);
    }

    /// Forgets what a source has sent to any port.
    pub fn remove_source(&mut self, source: &str)
        requires
            old(self).wf(),
        ensures
            final(self).wf(),
            final(self).clock == old(self).clock,
            final(self)@ == without_source(old(self)@, source@),
    {
        let name = source.to_owned();
        let ghost before = self.state.sources@;
        let mut i: usize = 0;
        while i < self.state.sources.entries.len()
            invariant
                i <= self.state.sources.entries@.len(),
                self.wf(),
                self.clock == old(self).clock,
                name@ == source@,
                self.state.pulses == old(self).state.pulses,
                forall|j: int|
                    0 <= j < i ==> (#[trigger] self.state.sources.entries@[j]).0@.1 != source@,
                forall|k: (u32, Seq<char>)| #[trigger]
                    self.state.sources@.contains_key(k) ==> before.contains_key(k) && before[k]
                        == self.state.sources@[k],
                forall|k: (u32, Seq<char>)|
                    before.contains_key(k) && k.1 != source@ ==> #[trigger]
                    self.state.sources@.contains_key(k),
            decreases self.state.sources.entries@.len() - i,
        {
            proof {
                self.state.sources.lemma_entry(i as int);
            }
            if self.state.sources.entries[i].0.source == name {
                self.state.sources.remove_at(i);
            } else {
                i += 1;
            }
        }
        proof {
            let after = self.state.sources@;
            assert forall|k: (u32, Seq<char>)| after.contains_key(k) implies k.1 != source@ by {
                let place = self.state.sources.place(k);
                self.state.sources.lemma_entry(place);
            }
            assert(sources_view(after) =~= without_source(old(self)@, source@).sources);
        }
    }

    /// What a port makes of its sources at `now`.
    pub fn merged_for_port_at(&self, now: u128, port: u32) -> (pad: MergedState)
        requires
            self.wf(),
        ensures
            merged(self@, now, port, pad@),
            pad@.buttons.len() == 16,
            pad@.axes.len() == 6,
    {
        let mut pad = MergedState { buttons: [false; 16], axes: [0; 6] };
        assert(pad@ =~= idle_pad());
        if port >= MAX_PORTS {
            return pad;
        }
        let ghost s = self@;
        let ghost table = self.state.sources;
        let mut used: bool = false;
        let mut i: usize = 0;
        while i < self.state.sources.entries.len()
            invariant
                i <= table.entries@.len(),
                self.wf(),
                s == self@,
                table == self.state.sources,
                pad.buttons@.len() == 16,
                pad.axes@.len() == 6,
                used == (exists|j: int| 0 <= j < i && (#[trigger] table.entries@[j]).0@.0 == port),
                forall|id: int|
                    0 <= id < 16 ==> #[trigger] pad.buttons@[id] == (exists|j: int|
                        0 <= j < i && (#[trigger] table.entries@[j]).0@.0 == port && counts(
                            s,
                            port,
                            table.entries@[j].0@.1,
                            now,
                        ) && table.entries@[j].1.buttons@[id]),
                forall|id: int|
                    0 <= id < 6 ==> (#[trigger] pad.axes@[id] == 0 || exists|j: int|
                        0 <= j < i && (#[trigger] table.entries@[j]).0@.0 == port && counts(
                            s,
                            port,
                            table.entries@[j].0@.1,
                            now,
                        ) && table.entries@[j].1.axes@[id] == pad.axes@[id]),
                forall|id: int, j: int|
                    0 <= id < 6 && 0 <= j < i && (#[trigger] table.entries@[j]).0@.0 == port
                        && counts(s, port, table.entries@[j].0@.1, now) ==> tilt(
                        table.entries@[j].1.axes@[id],
                    ) <= tilt(#[trigger] pad.axes@[id]),
            decreases table.entries@.len() - i,
        {
            let entry = &self.state.sources.entries[i];
            proof {
                table.lemma_entry(i as int);
                assert(s.sources[table.entries@[i as int].0@]
                    == table.entries@[i as int].1@);
            }
            if entry.0.port == port {
                used = true;
                if now <= entry.1.updated_at || now - entry.1.updated_at <= STALE_TIMEOUT_NS {
                    assert(counts(s, port, table.entries@[i as int].0@.1, now));
                    let ghost pad0 = pad;
                    let mut b: usize = 0;
                    while b < 16
                        invariant
                            b <= 16,
                            i < table.entries@.len(),
                            *entry == table.entries@[i as int],
                            pad.buttons@.len() == 16,
                            pad.axes == pad0.axes,
                            forall|id: int|
                                0 <= id < b ==> #[trigger] pad.buttons@[id] == (pad0.buttons@[id]
                                    || entry.1.buttons@[id]),
                            forall|id: int|
                                b <= id < 16 ==> #[trigger] pad.buttons@[id]
                                    == pad0.buttons@[id],
                        decreases 16 - b,
                    {
                        if entry.1.buttons[b] {
                            pad.buttons[b] = true;
                        }
                        b += 1;
                    }
                    let ghost pad1 = pad;
                    let mut a: usize = 0;
                    while a < 6
                        invariant
                            a <= 6,
                            i < table.entries@.len(),
                            *entry == table.entries@[i as int],
                            pad.axes@.len() == 6,
                            pad.buttons == pad1.buttons,
                            pad1.axes == pad0.axes,
                            forall|id: int|
                                0 <= id < a ==> #[trigger] pad.axes@[id] == (if tilt(
                                    entry.1.axes@[id],
                                ) > tilt(pad0.axes@[id]) {
                                    entry.1.axes@[id]
                                } else {
                                    pad0.axes@[id]
                                }),
                            forall|id: int|
                                a <= id < 6 ==> #[trigger] pad.axes@[id] == pad0.axes@[id],
                        decreases 6 - a,
                    {
                        let position: i16 = dominant_axis(pad.axes[a], entry.1.axes[a]);
                        pad.axes[a] = position;
                        a += 1;
                    }
                    proof {
                        assert forall|id: int| 0 <= id < 16 implies #[trigger] pad.buttons@[id] == (
                        exists|j: int|
                            0 <= j < i + 1 && (#[trigger] table.entries@[j]).0@.0 == port && counts(
                                s,
                                port,
                                table.entries@[j].0@.1,
                                now,
                            ) && table.entries@[j].1.buttons@[id]) by {
                            assert(pad1.buttons@[id] == (pad0.buttons@[id]
                                || entry.1.buttons@[id]));
                            if entry.1.buttons@[id] {
                                assert(table.entries@[i as int].1.buttons@[id]);
                            }
                        }
                        assert forall|id: int| 0 <= id < 6 implies (#[trigger] pad.axes@[id] == 0
                            || exists|j: int|
                            0 <= j < i + 1 && (#[trigger] table.entries@[j]).0@.0 == port && counts(
                                s,
                                port,
                                table.entries@[j].0@.1,
                                now,
                            ) && table.entries@[j].1.axes@[id] == pad.axes@[id]) by {
                            if pad.axes@[id] == entry.1.axes@[id] {
                                assert(table.entries@[i as int].1.axes@[id] == pad.axes@[id]);
                            } else {
                                assert(pad.axes@[id] == pad0.axes@[id]);
                            }
                        }
                        assert forall|id: int, j: int|
                            0 <= id < 6 && 0 <= j < i + 1 && (
                            #[trigger] table.entries@[j]).0@.0 == port && counts(
                                s,
                                port,
                                table.entries@[j].0@.1,
                                now,
                            ) implies tilt(table.entries@[j].1.axes@[id]) <= tilt(
                            #[trigger] pad.axes@[id],
                        ) by {
                            if j < i {
                                assert(tilt(table.entries@[j].1.axes@[id]) <= tilt(
                                    pad0.axes@[id],
                                ));
                            }
                        }
                    }
                } else {
                    assert(!counts(s, port, table.entries@[i as int].0@.1, now));
                }
            }
            i += 1;
        }
        proof {
            assert(used == port_in_use(s, port)) by {
                if used {
                    let j = choose|j: int|
                        0 <= j < table.entries@.len() && (#[trigger] table.entries@[j]).0@.0
                            == port;
                    table.lemma_entry(j);
                    assert(s.sources.contains_key((port, table.entries@[j].0@.1)));
                }
                if port_in_use(s, port) {
                    let source = choose|source: Seq<char>| #[trigger]
                        s.sources.contains_key((port, source));
                    let j = table.place((port, source));
                    assert(table.has((port, source)));
                    assert(table.entries@[j].0@ == (port, source));
                }
            }
        }
        if !used {
            proof {
                assert(forall|id: int| 0 <= id < 16 ==> !#[trigger] pad.buttons@[id]);
                assert(forall|id: int| 0 <= id < 6 ==> #[trigger] pad.axes@[id] == 0);
                assert(pad@ =~= idle_pad());
            }
            return pad;
        }
        let ghost summed = pad;
        proof {
            assert forall|id: int| 0 <= id < 16 implies #[trigger] summed.buttons@[id] == held(
                s,
                port,
                now,
                id,
            ) by {
                if summed.buttons@[id] {
                    let j = choose|j: int|
                        0 <= j < table.entries@.len() && (#[trigger] table.entries@[j]).0@.0 == port
                            && counts(s, port, table.entries@[j].0@.1, now)
                            && table.entries@[j].1.buttons@[id];
                    table.lemma_entry(j);
                    let source = table.entries@[j].0@.1;
                    assert(table.entries@[j].0@ == (port, source));
                    assert(counts(s, port, source, now) && s.sources[(
                        port,
                        source,
                    )].buttons[id]);
                }
                if held(s, port, now, id) {
                    let source = choose|source: Seq<char>| #[trigger]
                        counts(s, port, source, now) && s.sources[(port, source)].buttons[id];
                    let j = table.place((port, source));
                    assert(table.has((port, source)));
                    table.lemma_entry(j);
                    assert(table.entries@[j].0@.0 == port);
                }
            }
            assert forall|id: int| 0 <= id < 6 implies dominant(
                s,
                port,
                now,
                id,
                #[trigger] summed.axes@[id],
            ) by {
                let position = summed.axes@[id];
                if position != 0 {
                    let j = choose|j: int|
                        0 <= j < table.entries@.len() && (#[trigger] table.entries@[j]).0@.0 == port
                            && counts(s, port, table.entries@[j].0@.1, now)
                            && table.entries@[j].1.axes@[id] == position;
                    table.lemma_entry(j);
                    let source = table.entries@[j].0@.1;
                    assert(table.entries@[j].0@ == (port, source));
                    assert(counts(s, port, source, now) && s.sources[(port, source)].axes[id]
                        == position);
                }
                assert forall|source: Seq<char>| #[trigger] counts(s, port, source, now) implies tilt(
                    s.sources[(port, source)].axes[id],
                ) <= tilt(position) by {
                    let j = table.place((port, source));
                    assert(table.has((port, source)));
                    table.lemma_entry(j);
                    assert(table.entries@[j].0@.0 == port);
                }
            }
        }
        let mut b: usize = 0;
        while b < 16
            invariant
                b <= 16,
                self.wf(),
                s == self@,
                pad.buttons@.len() == 16,
                pad.axes == summed.axes,
                forall|id: int|
                    0 <= id < b ==> #[trigger] pad.buttons@[id] == (summed.buttons@[id] || pulsing(
                        s,
                        port,
                        now,
                        id,
                    )),
                forall|id: int|
                    b <= id < 16 ==> #[trigger] pad.buttons@[id] == summed.buttons@[id],
            decreases 16 - b,
        {
            if let Some(deadline) = self.state.pulses.get(&PulseKey { port, button: b as u32 }) {
                if *deadline > now {
                    pad.buttons[b] = true;
                }
            }
            b += 1;
        }
        if pad.axes[4] > TRIGGER_THRESHOLD {
            pad.buttons[12] = true;
        }
        if pad.axes[5] > TRIGGER_THRESHOLD {
            pad.buttons[13] = true;
        }
        pad
    }

    /// Whether a button of a port is pressed at `now`: one or zero.
    pub fn joypad_button_state_at(&self, now: u128, port: u32, button_id: u32) -> (pressed: i16)
        requires
            self.wf(),
        ensures
            exists|pad: PadModel| #[trigger]
                merged(self@, now, port, pad) && pressed == button_reading(pad, button_id),
    {
        let pad = self.merged_for_port_at(now, port);
        let ghost shown = pad@;
        assert(merged(self@, now, port, shown));
        match Button::from_retro_id(button_id) {
            Some(button) => if pad.buttons[button.retro_id() as usize] {
                1
            } else {
                0
            },
            None => 0,
        }
    }

    /// Whether a button of a port is pressed: one or zero.
    pub fn joypad_button_state(&self, port: u32, button_id: u32) -> (pressed: i16)
        requires
            self.wf(),
        ensures
            exists|now: u128, pad: PadModel|
                now <= MAX_DURATION_NS && #[trigger] merged(self@, now, port, pad) && pressed
                    == button_reading(pad, button_id),
    {
        let now: u128 = self.clock.now_ns();
        self.joypad_button_state_at(now, port, button_id)
    }

    /// The position of one axis of one stick of a port at `now`.
    pub fn analog_state_at(&self, now: u128, port: u32, index: u32, id: u32) -> (position: i16)
        requires
            self.wf(),
        ensures
            exists|pad: PadModel| #[trigger]
                merged(self@, now, port, pad) && position == stick_reading(pad, index, id),
    {
        let pad = self.merged_for_port_at(now, port);
        let ghost shown = pad@;
        assert(merged(self@, now, port, shown));
        match (index, id) {
            (0, 0) => pad.axes[0],
            (0, 1) => pad.axes[1],
            (1, 0) => pad.axes[2],
            (1, 1) => pad.axes[3],
            _ => 0,
        }
    }

    /// The position of one axis of one stick of a port.
    pub fn analog_state(&self, port: u32, index: u32, id: u32) -> (position: i16)
        requires
            self.wf(),
        ensures
            exists|now: u128, pad: PadModel|
                now <= MAX_DURATION_NS && #[trigger] merged(self@, now, port, pad) && position
                    == stick_reading(pad, index, id),
    {
        let now: u128 = self.clock.now_ns();
        self.analog_state_at(now, port, index, id)
    }
}

/// Numbers and buttons go one to one.
pub proof fn law_button_ids_distinct(a: Button, b: Button)
    requires
        button_id(a) == button_id(b),
    ensures
        a == b,
{
}

/// What a source sends last is what its port knows of it, and only of what the
/// update speaks.
pub proof fn law_last_update_wins(
    s: HubModel,
    now: u128,
    port: u32,
    source: Seq<char>,
    update: InputUpdate,
    id: int,
)
    requires
        port < MAX_PORTS,
        0 <= id < 16,
    ensures
        ({
            let after = applied(s, now, port, source, update).sources[(port, source)];
            &&& update.buttons.at(id) is Some ==> after.buttons[id] == update.buttons.at(id)->0
            &&& update.buttons.at(id) is None ==> after.buttons[id] == source_at(
                s,
                port,
                source,
                now,
            ).buttons[id]
            &&& after.updated_at == now
        }),
{
}

/// A pulse stays until it runs out, whatever its source sends meanwhile.
pub proof fn law_pulse_survives_update(
    s: HubModel,
    pulsed_at: u128,
    sent_at: u128,
    read_at: u128,
    port: u32,
    source: Seq<char>,
    button: Button,
    update: InputUpdate,
    pad: PadModel,
)
    requires
        port < MAX_PORTS,
        pulsed_at <= MAX_DURATION_NS,
        read_at < pulsed_at + TRANSIENT_PULSE_NS,
        merged(
            applied(pulsed(s, pulsed_at, port, source, button), sent_at, port, source, update),
            read_at,
            port,
            pad,
        ),
    ensures
        button_reading(pad, button_id(button) as u32) == 1,
{
    let after = applied(
        pulsed(s, pulsed_at, port, source, button),
        sent_at,
        port,
        source,
        update,
    );
    assert(after.sources.contains_key((port, source)));
    assert(port_in_use(after, port));
    assert(pulsing(after, port, read_at, button_id(button)));
}

/// A pulse that has run out presses nothing: only what a source holds, or a
/// pulled trigger, does.
pub proof fn law_pulse_runs_out(
    s: HubModel,
    pulsed_at: u128,
    read_at: u128,
    port: u32,
    source: Seq<char>,
    button: Button,
    pad: PadModel,
)
    requires
        port < MAX_PORTS,
        pulsed_at <= MAX_DURATION_NS,
        read_at >= pulsed_at + TRANSIENT_PULSE_NS,
        merged(pulsed(s, pulsed_at, port, source, button), read_at, port, pad),
        !held(pulsed(s, pulsed_at, port, source, button), port, read_at, button_id(button)),
        !triggered(pad.axes, button_id(button)),
    ensures
        button_reading(pad, button_id(button) as u32) == 0,
{
    let after = pulsed(s, pulsed_at, port, source, button);
    assert(after.sources.contains_key((port, source)));
    assert(port_in_use(after, port));
    assert(!pulsing(after, port, read_at, button_id(button)));
}

/// A port whose only source has left is idle.
pub proof fn law_last_source_leaves(
    s: HubModel,
    now: u128,
    port: u32,
    source: Seq<char>,
    pad: PadModel,
)
    requires
        forall|other: Seq<char>| #[trigger]
            s.sources.contains_key((port, other)) ==> other == source,
        merged(without_source(s, source), now, port, pad),
    ensures
        pad == idle_pad(),
{
    let after = without_source(s, source);
    assert(!port_in_use(after, port)) by {
        if port_in_use(after, port) {
            let other = choose|other: Seq<char>| #[trigger]
                after.sources.contains_key((port, other));
            assert(s.sources.contains_key((port, other)));
        }
    }
}

/// A source that has been silent for too long counts for nothing.
pub proof fn law_stale_source_is_ignored(
    s: HubModel,
    now: u128,
    port: u32,
    source: Seq<char>,
    pad: PadModel,
    id: int,
)
    requires
        port < MAX_PORTS,
        0 <= id < 16,
        forall|other: Seq<char>| #[trigger]
            s.sources.contains_key((port, other)) ==> other == source,
        s.sources.contains_key((port, source)),
        now - s.sources[(port, source)].updated_at > STALE_TIMEOUT_NS,
        !pulsing(s, port, now, id),
        merged(s, now, port, pad),
    ensures
        !pad.buttons[id],
        forall|a: int| 0 <= a < 6 ==> #[trigger] pad.axes[a] == 0,
{
    assert(port_in_use(s, port));
    assert forall|other: Seq<char>| !#[trigger] counts(s, port, other, now) by {
    }
    assert forall|a: int| 0 <= a < 6 implies #[trigger] pad.axes[a] == 0 by {
        assert(dominant(s, port, now, a, pad.axes[a]));
    }
    assert(!held(s, port, now, id));
}

/// Of the sources that count the one that tilts an axis furthest prevails.
pub proof fn law_furthest_tilt_prevails(
    s: HubModel,
    now: u128,
    port: u32,
    source: Seq<char>,
    pad: PadModel,
    id: int,
)
    requires
        port < MAX_PORTS,
        0 <= id < 6,
        counts(s, port, source, now),
        merged(s, now, port, pad),
    ensures
        tilt(s.sources[(port, source)].axes[id]) <= tilt(pad.axes[id]),
{
    assert(port_in_use(s, port));
    assert(dominant(s, port, now, id, pad.axes[id]));
}

} // verus!
