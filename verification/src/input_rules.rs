//! What controllers do to what the machine reads: from what a source sends to
//! the numbers that libretro asks with.

use vstd::prelude::*;

use crate::input;
use crate::input::{Axis, Button, HubModel, InputUpdate, PadModel};

verus! {

/// The numbers by which libretro knows the buttons.
pub proof fn law_button_numbers(button: Button)
    ensures
        button == Button::B <==> input::button_id(button) == 0,
        button == Button::Y <==> input::button_id(button) == 1,
        button == Button::Select <==> input::button_id(button) == 2,
        button == Button::Start <==> input::button_id(button) == 3,
        button == Button::Up <==> input::button_id(button) == 4,
        button == Button::Down <==> input::button_id(button) == 5,
        button == Button::Left <==> input::button_id(button) == 6,
        button == Button::Right <==> input::button_id(button) == 7,
        button == Button::A <==> input::button_id(button) == 8,
        button == Button::X <==> input::button_id(button) == 9,
        button == Button::L <==> input::button_id(button) == 10,
        button == Button::R <==> input::button_id(button) == 11,
        button == Button::L2 <==> input::button_id(button) == 12,
        button == Button::R2 <==> input::button_id(button) == 13,
        button == Button::L3 <==> input::button_id(button) == 14,
        button == Button::R3 <==> input::button_id(button) == 15,
{
}

/// Whether no source has sent anything to the port, and no button is pulsed there.
pub open spec fn unused(s: HubModel, port: u32) -> bool {
    &&& forall|source: Seq<char>| !(#[trigger] s.sources.contains_key((port, source)))
    &&& forall|id: u32| !(#[trigger] s.pulses.contains_key((port, id)))
}

/// Whether an update says `position` of `axis` and speaks of nothing else.
pub open spec fn tilts_only(update: InputUpdate, axis: Axis, position: i16) -> bool {
    &&& forall|id: int| 0 <= id < 16 ==> #[trigger] update.buttons.at(id) is None
    &&& forall|id: int|
        0 <= id < 6 ==> #[trigger] update.axes.at(id) == if id == input::axis_id(axis) {
            Some(position)
        } else {
            None
        }
}

/// Whether an update says that `button` is pressed and speaks of nothing else.
pub open spec fn presses_only(update: InputUpdate, button: Button) -> bool {
    &&& forall|id: int| 0 <= id < 6 ==> #[trigger] update.axes.at(id) is None
    &&& forall|id: int|
        0 <= id < 16 ==> #[trigger] update.buttons.at(id) == if id == input::button_id(button) {
            Some(true)
        } else {
            None
        }
}

/// What the machine makes of a hub in which one source alone has sent something
/// to the port.
proof fn lemma_alone(s: HubModel, port: u32, source: Seq<char>, now: u128, pad: PadModel)
    requires
        port < 8,
        s.sources.contains_key((port, source)),
        forall|other: Seq<char>| #[trigger]
            s.sources.contains_key((port, other)) ==> other == source,
        input::merged(s, now, port, pad),
    ensures
        now - s.sources[(port, source)].updated_at <= 300_000_000 ==> {
            &&& forall|id: int|
                0 <= id < 6 ==> #[trigger] pad.axes[id] == s.sources[(port, source)].axes[id]
            &&& forall|id: int|
                0 <= id < 16 ==> #[trigger] pad.buttons[id] == (s.sources[(
                    port,
                    source,
                )].buttons[id] || input::pulsing(s, port, now, id) || input::triggered(
                    pad.axes,
                    id,
                ))
        },
        now - s.sources[(port, source)].updated_at > 300_000_000 ==> {
            &&& forall|id: int| 0 <= id < 6 ==> #[trigger] pad.axes[id] == 0
            &&& forall|id: int|
                0 <= id < 16 ==> #[trigger] pad.buttons[id] == input::pulsing(s, port, now, id)
        },
        pad.axes.len() == 6,
        pad.buttons.len() == 16,
{
    assert(input::port_in_use(s, port));
    if now - s.sources[(port, source)].updated_at <= 300_000_000 {
        assert(input::counts(s, port, source, now));
        assert forall|id: int| 0 <= id < 6 implies #[trigger] pad.axes[id] == s.sources[(
            port,
            source,
        )].axes[id] by {
            assert(input::dominant(s, port, now, id, pad.axes[id]));
        }
    } else {
        assert forall|other: Seq<char>| !#[trigger] input::counts(s, port, other, now) by {
        }
        assert forall|id: int| 0 <= id < 6 implies #[trigger] pad.axes[id] == 0 by {
            assert(input::dominant(s, port, now, id, pad.axes[id]));
        }
        assert forall|id: int| 0 <= id < 16 implies !input::held(s, port, now, id) by {
        }
    }
}

/// The position that a source sends for an axis of a stick is what the machine
/// reads of that stick and axis, and the other three read as at rest: stick 0 is
/// the left one and 1 the right one, and of each 0 is across and 1 is up and down.
/// It counts for three tenths of a second.
pub proof fn law_stick_is_read(
    s: HubModel,
    sent: u128,
    port: u32,
    source: Seq<char>,
    update: InputUpdate,
    axis: Axis,
    p: i16,
    now: u128,
    pad: PadModel,
    index: u32,
    id: u32,
    position: i16,
)
    requires
        port < 8,
        unused(s, port),
        tilts_only(update, axis, p),
        input::merged(input::applied(s, sent, port, source, update), now, port, pad),
        position == input::stick_reading(pad, index, id),
    ensures
        now - sent <= 300_000_000 ==> {
            &&& axis == Axis::Lx ==> position == if index == 0 && id == 0 {
                p
            } else {
                0
            }
            &&& axis == Axis::Ly ==> position == if index == 0 && id == 1 {
                p
            } else {
                0
            }
            &&& axis == Axis::Rx ==> position == if index == 1 && id == 0 {
                p
            } else {
                0
            }
            &&& axis == Axis::Ry ==> position == if index == 1 && id == 1 {
                p
            } else {
                0
            }
            &&& axis == Axis::L2 || axis == Axis::R2 ==> position == 0
        },
        now - sent > 300_000_000 ==> position == 0,
{
    let after = input::applied(s, sent, port, source, update);
    lemma_alone(after, port, source, now, pad);
    assert forall|a: int| 0 <= a < 6 implies after.sources[(port, source)].axes[a] == (if a
        == input::axis_id(axis) {
        p
    } else {
        0
    }) by {
        assert(update.axes.at(a) == if a == input::axis_id(axis) {
            Some(p)
        } else {
            None
        });
    }
}

/// A button that a source presses reads as pressed under its number, and no other
/// does, for three tenths of a second after the source was last heard.
pub proof fn law_button_is_read(
    s: HubModel,
    sent: u128,
    port: u32,
    source: Seq<char>,
    update: InputUpdate,
    button: Button,
    now: u128,
    pad: PadModel,
    id: u32,
    pressed: i16,
)
    requires
        port < 8,
        unused(s, port),
        presses_only(update, button),
        input::merged(input::applied(s, sent, port, source, update), now, port, pad),
        pressed == input::button_reading(pad, id),
    ensures
        pressed == if now - sent <= 300_000_000 && id == input::button_id(button) {
            1i16
        } else {
            0
        },
{
    let after = input::applied(s, sent, port, source, update);
    lemma_alone(after, port, source, now, pad);
    assert forall|a: int| 0 <= a < 6 implies after.sources[(port, source)].axes[a] == 0 by {
        assert(update.axes.at(a) is None);
    }
    if id < 16 {
        assert(!input::pulsing(after, port, now, id as int));
        assert(update.buttons.at(id as int) == if id == input::button_id(button) {
            Some(true)
        } else {
            None
        });
    }
}

/// An analog trigger that is pulled beyond 8191 presses its shoulder button,
/// number 12 for the left one and 13 for the right one, and nothing else.
pub proof fn law_trigger_presses(
    s: HubModel,
    sent: u128,
    port: u32,
    source: Seq<char>,
    update: InputUpdate,
    axis: Axis,
    p: i16,
    now: u128,
    pad: PadModel,
    id: u32,
    pressed: i16,
)
    requires
        port < 8,
        unused(s, port),
        tilts_only(update, axis, p),
        now - sent <= 300_000_000,
        input::merged(input::applied(s, sent, port, source, update), now, port, pad),
        pressed == input::button_reading(pad, id),
    ensures
        pressed == if p > 8191 && ((axis == Axis::L2 && id == 12) || (axis == Axis::R2 && id == 13)) {
            1i16
        } else {
            0
        },
{
    let after = input::applied(s, sent, port, source, update);
    lemma_alone(after, port, source, now, pad);
    assert forall|a: int| 0 <= a < 6 implies after.sources[(port, source)].axes[a] == (if a
        == input::axis_id(axis) {
        p
    } else {
        0
    }) by {
        assert(update.axes.at(a) == if a == input::axis_id(axis) {
            Some(p)
        } else {
            None
        });
    }
    if id < 16 {
        assert(update.buttons.at(id as int) is None);
        assert(!input::pulsing(after, port, now, id as int));
    }
}

/// A pulsed button reads as pressed for a tenth of a second from the pulse and
/// then no longer; no other button does.
pub proof fn law_pulse_is_read(
    s: HubModel,
    at: u128,
    port: u32,
    source: Seq<char>,
    button: Button,
    now: u128,
    pad: PadModel,
    id: u32,
    pressed: i16,
)
    requires
        port < 8,
        at <= crate::clock::MAX_DURATION_NS,
        unused(s, port),
        input::merged(input::pulsed(s, at, port, source, button), now, port, pad),
        pressed == input::button_reading(pad, id),
    ensures
        pressed == if now < at + 100_000_000 && id == input::button_id(button) {
            1i16
        } else {
            0
        },
{
    let after = input::pulsed(s, at, port, source, button);
    lemma_alone(after, port, source, now, pad);
    if id < 16 {
        assert(input::pulsing(after, port, now, id as int) == (id == input::button_id(button)
            && now < at + 100_000_000));
    }
}

/// What is sent to one port, or pulsed there, does not show at another.
pub proof fn law_ports_are_apart(
    s: HubModel,
    sent: u128,
    port: u32,
    source: Seq<char>,
    update: InputUpdate,
    button: Button,
    other: u32,
    now: u128,
    pad: PadModel,
)
    requires
        other != port,
    ensures
        input::merged(input::applied(s, sent, port, source, update), now, other, pad)
            <==> input::merged(s, now, other, pad),
        input::merged(input::pulsed(s, sent, port, source, button), now, other, pad)
            <==> input::merged(s, now, other, pad),
{
    lemma_same_port(s, input::applied(s, sent, port, source, update), other, now, pad);
    lemma_same_port(s, input::pulsed(s, sent, port, source, button), other, now, pad);
}

proof fn lemma_same_port(s: HubModel, t: HubModel, port: u32, now: u128, pad: PadModel)
    requires
        forall|source: Seq<char>|
            (#[trigger] s.sources.contains_key((port, source)) <==> t.sources.contains_key(
                (port, source),
            )) && s.sources[(port, source)] == t.sources[(port, source)],
        forall|id: u32|
            (#[trigger] s.pulses.contains_key((port, id)) <==> t.pulses.contains_key((port, id)))
                && s.pulses[(port, id)] == t.pulses[(port, id)],
    ensures
        input::merged(s, now, port, pad) <==> input::merged(t, now, port, pad),
{
    lemma_same_port_one_way(s, t, port, now, pad);
    lemma_same_port_one_way(t, s, port, now, pad);
}

proof fn lemma_same_port_one_way(s: HubModel, t: HubModel, port: u32, now: u128, pad: PadModel)
    requires
        forall|source: Seq<char>| #![all_triggers]
            (s.sources.contains_key((port, source)) <==> t.sources.contains_key((port, source)))
                && s.sources[(port, source)] == t.sources[(port, source)],
        forall|id: u32| #![all_triggers]
            (s.pulses.contains_key((port, id)) <==> t.pulses.contains_key((port, id)))
                && s.pulses[(port, id)] == t.pulses[(port, id)],
    ensures
        input::merged(s, now, port, pad) ==> input::merged(t, now, port, pad),
{
    if input::merged(s, now, port, pad) {
        assert(forall|source: Seq<char>|
            s.sources.contains_key((port, source)) <==> #[trigger] t.sources.contains_key(
                (port, source),
            ));
        assert(forall|source: Seq<char>|
            input::counts(s, port, source, now) <==> #[trigger] input::counts(t, port, source, now));
        assert(forall|source: Seq<char>|
            (#[trigger] input::counts(s, port, source, now)) <==> input::counts(t, port, source, now));
        assert(input::port_in_use(s, port) <==> input::port_in_use(t, port)) by {
            if input::port_in_use(s, port) {
                let source = choose|source: Seq<char>| #[trigger]
                    s.sources.contains_key((port, source));
                assert(t.sources.contains_key((port, source)));
            }
        }
        if port < 8 && input::port_in_use(s, port) {
            assert forall|id: int| 0 <= id < 6 implies input::dominant(
                t,
                port,
                now,
                id,
                #[trigger] pad.axes[id],
            ) by {
                assert(input::dominant(s, port, now, id, pad.axes[id]));
                if pad.axes[id] != 0 {
                    let source = choose|source: Seq<char>| #[trigger]
                        input::counts(s, port, source, now) && s.sources[(port, source)].axes[id]
                            == pad.axes[id];
                    assert(input::counts(t, port, source, now));
                }
            }
            assert forall|id: int| 0 <= id < 16 implies input::held(s, port, now, id)
                == input::held(t, port, now, id) by {
                if input::held(s, port, now, id) {
                    let source = choose|source: Seq<char>| #[trigger]
                        input::counts(s, port, source, now) && s.sources[(
                            port,
                            source,
                        )].buttons[id];
                    assert(input::counts(t, port, source, now));
                }
                if input::held(t, port, now, id) {
                    let source = choose|source: Seq<char>| #[trigger]
                        input::counts(t, port, source, now) && t.sources[(
                            port,
                            source,
                        )].buttons[id];
                    assert(input::counts(s, port, source, now));
                }
            }
            assert forall|id: int| 0 <= id < 16 implies #[trigger] pad.buttons[id] == (input::held(
                t,
                port,
                now,
                id,
            ) || input::pulsing(t, port, now, id) || input::triggered(pad.axes, id)) by {
                assert(input::held(s, port, now, id) == input::held(t, port, now, id));
                assert(input::pulsing(s, port, now, id) == input::pulsing(t, port, now, id));
            }
        }
    }
}

/// There are eight ports: nothing is noted of a ninth, and nothing is read there.
pub proof fn law_eight_ports(
    s: HubModel,
    at: u128,
    port: u32,
    source: Seq<char>,
    update: InputUpdate,
    button: Button,
    now: u128,
    pad: PadModel,
    index: u32,
    id: u32,
)
    requires
        port >= 8,
        input::merged(s, now, port, pad),
    ensures
        input::applied(s, at, port, source, update) == s,
        input::pulsed(s, at, port, source, button) == s,
        input::button_reading(pad, id) == 0,
        input::stick_reading(pad, index, id) == 0,
{
}

/// Of two sources of a port that both count, a button is pressed if either
/// presses it, and an axis stands where the one holds it that is further from
/// rest.
pub proof fn law_two_sources_join(
    s: HubModel,
    port: u32,
    one: Seq<char>,
    two: Seq<char>,
    now: u128,
    pad: PadModel,
    axis: int,
    button: int,
)
    requires
        port < 8,
        0 <= axis < 6,
        0 <= button < 16,
        s.sources.contains_key((port, one)),
        s.sources.contains_key((port, two)),
        now - s.sources[(port, one)].updated_at <= 300_000_000,
        now - s.sources[(port, two)].updated_at <= 300_000_000,
        forall|source: Seq<char>| #[trigger]
            s.sources.contains_key((port, source)) ==> source == one || source == two,
        forall|id: u32| !(#[trigger] s.pulses.contains_key((port, id))),
        input::merged(s, now, port, pad),
    ensures
        ({
            let x = s.sources[(port, one)].axes[axis];
            let y = s.sources[(port, two)].axes[axis];
            let p = pad.axes[axis];
            &&& p == x || p == y
            &&& p >= x || -p >= x
            &&& p >= -x || -p >= -x
            &&& p >= y || -p >= y
            &&& p >= -y || -p >= -y
        }),
        button != 12 && button != 13 ==> pad.buttons[button] == (s.sources[(
            port,
            one,
        )].buttons[button] || s.sources[(port, two)].buttons[button]),
{
    assert(input::port_in_use(s, port));
    assert(input::counts(s, port, one, now));
    assert(input::counts(s, port, two, now));
    assert(input::dominant(s, port, now, axis, pad.axes[axis]));
    assert(!input::pulsing(s, port, now, button));
    assert(pad.buttons[button] == (input::held(s, port, now, button) || input::pulsing(
        s,
        port,
        now,
        button,
    ) || input::triggered(pad.axes, button)));
}

/// What an update does not speak of stays as the source had it, a new source
/// starts at rest, and what it does speak of is as it says.
pub proof fn law_update_changes_what_it_says(
    s: HubModel,
    now: u128,
    port: u32,
    source: Seq<char>,
    update: InputUpdate,
    axis: int,
    button: int,
)
    requires
        port < 8,
        0 <= axis < 6,
        0 <= button < 16,
    ensures
        ({
            let t = input::applied(s, now, port, source, update);
            let after = t.sources[(port, source)];
            let known = s.sources.contains_key((port, source));
            &&& t.sources.contains_key((port, source))
            &&& t.pulses == s.pulses
            &&& after.updated_at == now
            &&& update.axes.at(axis) is Some ==> after.axes[axis] == update.axes.at(axis)->0
            &&& update.axes.at(axis) is None && known ==> after.axes[axis] == s.sources[(
                port,
                source,
            )].axes[axis]
            &&& update.axes.at(axis) is None && !known ==> after.axes[axis] == 0
            &&& update.buttons.at(button) is Some ==> after.buttons[button] == update.buttons.at(
                button,
            )->0
            &&& update.buttons.at(button) is None && known ==> after.buttons[button]
                == s.sources[(port, source)].buttons[button]
            &&& update.buttons.at(button) is None && !known ==> !after.buttons[button]
        }),
{
}

/// Forgetting a source takes it from every port and leaves the others, and the
/// pulses, as they are.
pub proof fn law_source_is_forgotten(s: HubModel, source: Seq<char>, port: u32, other: Seq<char>)
    ensures
        ({
            let t = input::without_source(s, source);
            &&& !t.sources.contains_key((port, source))
            &&& t.pulses == s.pulses
            &&& other != source ==> (t.sources.contains_key((port, other))
                <==> s.sources.contains_key((port, other)))
            &&& other != source && s.sources.contains_key((port, other)) ==> t.sources[(
                port,
                other,
            )] == s.sources[(port, other)]
        }),
{
}

} // verus!
