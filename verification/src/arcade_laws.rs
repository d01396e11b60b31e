//! What the arcade promises whatever is asked of it.

use vstd::prelude::*;

use crate::arcade::Side;
use crate::arcade_model as model;
use crate::arcade_model::{
    ArcadeModel, DetailModel, EntryModel, ErrorModel, JoinModel, MachineModel, Place, RoundModel,
    ScoreKeyModel, ScoreModel, CLAIM_TIMEOUT_MS, NO_SHOW_COOLDOWN_MS,
};
use crate::text;

verus! {

/// Every place of `m2` was one of `m`, held by the same player on the same
/// ticket; `from` says which.
pub open spec fn keeps(m: MachineModel, m2: MachineModel, from: spec_fn(Place) -> Place) -> bool {
    &&& forall|p: Place| #[trigger]
        model::key_at(m2, p) is Some ==> model::key_at(m, from(p)) == model::key_at(m2, p)
    &&& forall|p: Place| #[trigger]
        model::ticket_at(m2, p) is Some ==> model::ticket_at(m, from(p)) == model::ticket_at(m2, p)
    &&& forall|p: Place, q: Place|
        (#[trigger] model::key_at(m2, p)) is Some && (#[trigger] model::key_at(m2, q)) is Some
            && from(p) == from(q) ==> p == q
}

/// Nobody came to the machine.
pub open spec fn shrinks(m: MachineModel, m2: MachineModel) -> bool {
    exists|from: spec_fn(Place) -> Place| #[trigger] keeps(m, m2, from)
}

proof fn lemma_unchanged(m: MachineModel, m2: MachineModel)
    requires
        m2.left_queue == m.left_queue,
        m2.right_queue == m.right_queue,
        m2.left_player == m.left_player || m2.left_player is None,
        m2.right_player == m.right_player || m2.right_player is None,
    ensures
        shrinks(m, m2),
{
    assert(keeps(m, m2, |p: Place| p));
}

proof fn lemma_shrinks_via(m: MachineModel, m2: MachineModel, m3: MachineModel)
    requires
        shrinks(m, m2),
        shrinks(m2, m3),
    ensures
        shrinks(m, m3),
{
    let f = choose|f: spec_fn(Place) -> Place| #[trigger] keeps(m, m2, f);
    let g = choose|g: spec_fn(Place) -> Place| #[trigger] keeps(m2, m3, g);
    let h = |p: Place| f(g(p));
    assert forall|p: Place| #[trigger] model::key_at(m3, p) is Some implies model::key_at(m, h(p))
        == model::key_at(m3, p) by {
        assert(model::key_at(m2, g(p)) is Some);
    }
    assert forall|p: Place| #[trigger] model::ticket_at(m3, p) is Some implies model::ticket_at(
        m,
        h(p),
    ) == model::ticket_at(m3, p) by {
        assert(model::ticket_at(m2, g(p)) is Some);
    }
    assert forall|p: Place, q: Place|
        (#[trigger] model::key_at(m3, p)) is Some && (#[trigger] model::key_at(m3, q)) is Some
            && h(p) == h(q) implies p == q by {
        assert(model::key_at(m2, g(p)) is Some);
        assert(model::key_at(m2, g(q)) is Some);
    }
    assert(keeps(m, m3, h));
}

proof fn lemma_removed(m: MachineModel, side: Side, k: int)
    requires
        0 <= k < m.queue(side).len(),
    ensures
        shrinks(m, m.with_queue(side, m.queue(side).remove(k))),
{
    let f = |p: Place|
        match p {
            Place::LeftLine(j) => if side == Side::Left && j >= k {
                Place::LeftLine(j + 1)
            } else {
                p
            },
            Place::RightLine(j) => if side == Side::Right && j >= k {
                Place::RightLine(j + 1)
            } else {
                p
            },
            _ => p,
        };
    assert(keeps(m, m.with_queue(side, m.queue(side).remove(k)), f));
}

proof fn lemma_order_removed(queue: Seq<EntryModel>, k: int)
    requires
        model::in_order(queue),
        0 <= k < queue.len(),
    ensures
        model::in_order(queue.remove(k)),
{
    let rest = queue.remove(k);
    assert forall|a: int, b: int| 0 <= a < b < rest.len() implies (#[trigger] rest[a]).ticket_id < (
    #[trigger] rest[b]).ticket_id by {
        let a0 = if a < k { a } else { a + 1 };
        let b0 = if b < k { b } else { b + 1 };
        assert(rest[a] == queue[a0] && rest[b] == queue[b0]);
    }
}

/// Where everybody stayed or left, what held of places and tickets still holds.
proof fn lemma_places(ms: Seq<MachineModel>, ms2: Seq<MachineModel>, next: u64)
    requires
        model::one_place_each(ms),
        model::one_ticket_each(ms),
        model::tickets_known(ms, next),
        ms2.len() == ms.len(),
        forall|i: int| 0 <= i < ms.len() ==> shrinks(#[trigger] ms[i], ms2[i]),
    ensures
        model::one_place_each(ms2),
        model::one_ticket_each(ms2),
        model::tickets_known(ms2, next),
{
    assert forall|i: int, p: Place, j: int, q: Place|
        0 <= i < ms2.len() && 0 <= j < ms2.len() && #[trigger] model::key_at(ms2[i], p) is Some
            && model::key_at(ms2[i], p) == #[trigger] model::key_at(ms2[j], q) implies i == j && p
        == q by {
        assert(shrinks(ms[i], ms2[i]) && shrinks(ms[j], ms2[j]));
        let f = choose|f: spec_fn(Place) -> Place| #[trigger] keeps(ms[i], ms2[i], f);
        let g = choose|g: spec_fn(Place) -> Place| #[trigger] keeps(ms[j], ms2[j], g);
        assert(model::key_at(ms[i], f(p)) == model::key_at(ms[j], g(q)));
    }
    assert forall|i: int, p: Place, j: int, q: Place|
        0 <= i < ms2.len() && 0 <= j < ms2.len() && #[trigger] model::ticket_at(ms2[i], p) is Some
            && model::ticket_at(ms2[i], p) == #[trigger] model::ticket_at(ms2[j], q) implies i == j
        && p == q by {
        assert(shrinks(ms[i], ms2[i]) && shrinks(ms[j], ms2[j]));
        let f = choose|f: spec_fn(Place) -> Place| #[trigger] keeps(ms[i], ms2[i], f);
        let g = choose|g: spec_fn(Place) -> Place| #[trigger] keeps(ms[j], ms2[j], g);
        assert(model::ticket_at(ms[i], f(p)) == model::ticket_at(ms[j], g(q)));
        assert(model::key_at(ms2[i], p) is Some && model::key_at(ms2[j], q) is Some);
    }
    assert forall|i: int, p: Place|
        0 <= i < ms2.len() && #[trigger] model::ticket_at(ms2[i], p) is Some implies 1
        <= model::ticket_at(ms2[i], p)->0 < next by {
        assert(shrinks(ms[i], ms2[i]));
        let f = choose|f: spec_fn(Place) -> Place| #[trigger] keeps(ms[i], ms2[i], f);
        assert(model::ticket_at(ms[i], f(p)) is Some);
    }
}

proof fn lemma_places_one(ms: Seq<MachineModel>, i: int, m2: MachineModel, next: u64)
    requires
        model::one_place_each(ms),
        model::one_ticket_each(ms),
        model::tickets_known(ms, next),
        0 <= i < ms.len(),
        shrinks(ms[i], m2),
    ensures
        model::one_place_each(ms.update(i, m2)),
        model::one_ticket_each(ms.update(i, m2)),
        model::tickets_known(ms.update(i, m2), next),
{
    let ms2 = ms.update(i, m2);
    assert forall|j: int| 0 <= j < ms.len() implies shrinks(#[trigger] ms[j], ms2[j]) by {
        if j != i {
            lemma_unchanged(ms[j], ms2[j]);
        }
    }
    lemma_places(ms, ms2, next);
}

/// Whether nobody waits for a free seat on the other side while no call is out.
spec fn other_side_served(m: MachineModel, side: Side) -> bool {
    let other = model::other_side(side);
    m.called is Some || m.seat(other) is Some || m.queue(other).len() == 0
}

proof fn lemma_call_next(m: MachineModel, side: Side, now: u64, timeout: u64)
    requires
        model::in_order(m.left_queue),
        model::in_order(m.right_queue),
        model::call_sound(m),
        model::players_named(m),
        other_side_served(m, side),
    ensures
        model::machine_sound(model::call_next(m, side, now, timeout)),
        shrinks(m, model::call_next(m, side, now, timeout)),
{
    lemma_unchanged(m, model::call_next(m, side, now, timeout));
}

proof fn lemma_call_either(m: MachineModel, side: Side, now: u64, timeout: u64)
    requires
        model::in_order(m.left_queue),
        model::in_order(m.right_queue),
        model::call_sound(m),
        model::players_named(m),
    ensures
        model::machine_sound(model::call_either(m, side, now, timeout)),
        shrinks(m, model::call_either(m, side, now, timeout)),
{
    let first = model::call_next(m, side, now, timeout);
    lemma_unchanged(m, first);
    lemma_call_next(first, model::other_side(side), now, timeout);
    lemma_shrinks_via(m, first, model::call_either(m, side, now, timeout));
}

proof fn lemma_without_none(queue: Seq<EntryModel>, ticket: u64)
    requires
        forall|k: int| 0 <= k < queue.len() ==> (#[trigger] queue[k]).ticket_id != ticket,
    ensures
        model::without_ticket(queue, ticket) == queue,
    decreases queue.len(),
{
    if queue.len() > 0 {
        lemma_without_none(queue.drop_last(), ticket);
        assert(queue.last() == queue[queue.len() - 1]);
        assert(queue.drop_last().push(queue.last()) =~= queue);
    }
}

/// Taking back the call of a queue's first ticket takes that ticket out.
pub proof fn lemma_without_head(queue: Seq<EntryModel>, ticket: u64)
    requires
        model::in_order(queue),
        queue.len() > 0,
        queue[0].ticket_id == ticket,
    ensures
        model::without_ticket(queue, ticket) == queue.remove(0),
    decreases queue.len(),
{
    if queue.len() == 1 {
        assert(queue.drop_last() =~= Seq::<EntryModel>::empty());
        assert(model::without_ticket(queue.drop_last(), ticket) =~= Seq::<EntryModel>::empty());
        assert(queue.remove(0) =~= Seq::<EntryModel>::empty());
    } else {
        lemma_without_head(queue.drop_last(), ticket);
        assert(queue.last() == queue[queue.len() - 1]);
        assert(queue.drop_last().remove(0).push(queue.last()) =~= queue.remove(0));
    }
}

pub proof fn lemma_drop_head(queue: Seq<EntryModel>, ticket: u64)
    requires
        queue.len() > 0,
        queue[0].ticket_id == ticket,
    ensures
        model::drop_ticket(queue, ticket) == queue.remove(0),
{
    assert(model::is_ticket(queue, ticket, 0));
    let k = model::ticket_place(queue, ticket);
    assert(model::is_ticket(queue, ticket, k));
    if k > 0 {
        assert(queue[0].ticket_id != ticket);
    }
}

proof fn lemma_tick_machine(m: MachineModel, now: u64)
    requires
        model::machine_sound(m),
    ensures
        model::machine_sound(model::tick_machine(m, now)),
        shrinks(m, model::tick_machine(m, now)),
{
    if model::missed(m, now) {
        let c = m.called->0;
        lemma_without_head(m.queue(c.side), c.ticket_id);
        lemma_removed(m, c.side, 0);
        lemma_order_removed(m.queue(c.side), 0);
        let shorter = m.with_queue(c.side, m.queue(c.side).remove(0));
        let idle = MachineModel { called: None, ..shorter };
        lemma_unchanged(shorter, idle);
        lemma_shrinks_via(m, shorter, idle);
        lemma_call_either(idle, c.side, now, CLAIM_TIMEOUT_MS);
        lemma_shrinks_via(m, idle, model::tick_machine(m, now));
    } else {
        lemma_unchanged(m, model::tick_machine(m, now));
    }
}

/// Time passing leaves the arcade sound.
pub proof fn law_tick_keeps_sound(s: ArcadeModel, now: u64)
    requires
        model::sound(s),
    ensures
        model::sound(model::tick(s, now)),
{
    let t = model::tick(s, now);
    assert forall|i: int| 0 <= i < s.machines.len() implies shrinks(
        #[trigger] s.machines[i],
        t.machines[i],
    ) by {
        lemma_tick_machine(s.machines[i], now);
    }
    lemma_places(s.machines, t.machines, s.next_ticket_id);
    assert forall|i: int| 0 <= i < t.machines.len() implies model::machine_sound(
        #[trigger] t.machines[i],
    ) by {
        lemma_tick_machine(s.machines[i], now);
    }
    assert forall|i: int| 0 <= i < t.machines.len() implies (#[trigger] t.machines[i]).id == i
        + 1 by {
        assert(s.machines[i].id == i + 1);
    }
}

/// A machine that stays sound and that nobody came to can be put in its own
/// place.
proof fn lemma_replaced(s: ArcadeModel, i: int, m2: MachineModel)
    requires
        model::sound(s),
        0 <= i < s.machines.len(),
        model::machine_sound(m2),
        m2.id == s.machines[i].id,
        shrinks(s.machines[i], m2),
    ensures
        model::sound(model::with_machine(s, i, m2)),
{
    lemma_places_one(s.machines, i, m2, s.next_ticket_id);
    let t = model::with_machine(s, i, m2);
    assert forall|j: int| 0 <= j < t.machines.len() implies (#[trigger] t.machines[j]).id == j
        + 1 by {
        assert(s.machines[j].id == j + 1);
    }
    assert forall|j: int| 0 <= j < t.machines.len() implies model::machine_sound(
        #[trigger] t.machines[j],
    ) by {
        assert(model::machine_sound(s.machines[j]));
    }
}

proof fn lemma_leave_machine(m: MachineModel, side: Side, ticket: u64, now: u64)
    requires
        model::machine_sound(m),
        model::has_ticket(m.queue(side), ticket),
    ensures
        model::machine_sound(model::leave_machine(m, side, ticket, now)),
        shrinks(m, model::leave_machine(m, side, ticket, now)),
        model::leave_machine(m, side, ticket, now).id == m.id,
{
    let k = model::ticket_place(m.queue(side), ticket);
    assert(model::is_ticket(m.queue(side), ticket, k));
    lemma_removed(m, side, k);
    lemma_order_removed(m.queue(side), k);
    let shorter = m.with_queue(side, m.queue(side).remove(k));
    if m.called is Some && m.called->0.ticket_id == ticket {
        let idle = MachineModel { called: None, ..shorter };
        lemma_unchanged(shorter, idle);
        lemma_shrinks_via(m, shorter, idle);
        lemma_call_either(idle, side, now, CLAIM_TIMEOUT_MS);
        lemma_shrinks_via(m, idle, model::leave_machine(m, side, ticket, now));
    } else {
        lemma_unchanged(shorter, shorter.with_status());
        lemma_shrinks_via(m, shorter, shorter.with_status());
        if m.called is Some && m.called->0.side == side {
            assert(k > 0);
            assert(m.queue(side).remove(k)[0] == m.queue(side)[0]);
        }
    }
}

proof fn lemma_claim_machine(m: MachineModel, now: u64)
    requires
        model::machine_sound(m),
        m.called is Some,
    ensures
        model::machine_sound(model::claim_machine(m, now)),
        shrinks(m, model::claim_machine(m, now)),
        model::claim_machine(m, now).id == m.id,
{
    let c = m.called->0;
    let queue = m.queue(c.side);
    lemma_drop_head(queue, c.ticket_id);
    lemma_order_removed(queue, 0);
    let seated = MachineModel {
        called: None,
        ..m.with_queue(c.side, model::drop_ticket(queue, c.ticket_id)).with_seat(
            c.side,
            Some(model::SeatModel { player_name: c.player_name, player_key: c.player_key }),
        )
    };
    let f = |p: Place|
        match p {
            Place::LeftSeat => if c.side == Side::Left {
                Place::LeftLine(0)
            } else {
                p
            },
            Place::RightSeat => if c.side == Side::Right {
                Place::RightLine(0)
            } else {
                p
            },
            Place::LeftLine(j) => if c.side == Side::Left {
                Place::LeftLine(j + 1)
            } else {
                p
            },
            Place::RightLine(j) => if c.side == Side::Right {
                Place::RightLine(j + 1)
            } else {
                p
            },
        };
    assert(keeps(m, seated, f));
    lemma_call_next(seated, model::other_side(c.side), now, CLAIM_TIMEOUT_MS);
    lemma_shrinks_via(m, seated, model::claim_machine(m, now));
}

proof fn lemma_end_machine(m: MachineModel, round: RoundModel, now: u64)
    requires
        model::machine_sound(m),
        m.left_player is Some,
        m.right_player is Some,
    ensures
        model::machine_sound(model::end_machine(m, round, now)),
        shrinks(m, model::end_machine(m, round, now)),
        model::end_machine(m, round, now).id == m.id,
{
    let loser = model::other_side(round.winner_side);
    let free = MachineModel { last_round: Some(round), called: None, ..m.with_seat(loser, None) };
    lemma_unchanged(m, free);
    lemma_call_next(free, loser, now, CLAIM_TIMEOUT_MS);
    lemma_shrinks_via(m, free, model::end_machine(m, round, now));
}

proof fn lemma_fresh_key(ms: Seq<MachineModel>, key: Seq<char>)
    requires
        !model::sits(ms, key),
        !model::waits(ms, key),
    ensures
        forall|i: int, p: Place|
            0 <= i < ms.len() ==> #[trigger] model::key_at(ms[i], p) != Some(key),
{
    assert forall|i: int, p: Place| 0 <= i < ms.len() implies #[trigger] model::key_at(ms[i], p)
        != Some(key) by {
        assert(!model::sits_at(ms[i], key));
        assert(!model::waits_at(ms[i], key));
        assert(!model::has_key(ms[i].left_queue, key));
        assert(!model::has_key(ms[i].right_queue, key));
    }
}

proof fn lemma_join_state(s: ArcadeModel, i: int, side: Side, raw: Seq<char>, now: u64)
    requires
        model::sound(s),
        0 <= i < s.machines.len(),
        s.next_ticket_id < u64::MAX,
        model::display_name(raw).len() > 0,
        !model::sits(s.machines, model::player_key(raw)),
        !model::waits(s.machines, model::player_key(raw)),
    ensures
        model::sound(model::join_state(s, i, side, raw, now)),
{
    let key = model::player_key(raw);
    let entry = EntryModel {
        ticket_id: s.next_ticket_id,
        player_name: model::display_name(raw),
        player_key: key,
        joined_unix_ms: now,
    };
    let m = s.machines[i];
    let ms = s.machines;
    let next = (s.next_ticket_id + 1) as u64;
    lemma_fresh_key(ms, key);
    let grown = m.with_queue(side, m.queue(side).push(entry));
    let spot = match side {
        Side::Left => Place::LeftLine(m.left_queue.len() as int),
        Side::Right => Place::RightLine(m.right_queue.len() as int),
    };
    let ms1 = ms.update(i, grown);
    assert forall|j: int, p: Place| 0 <= j < ms1.len() && !(j == i && p == spot) implies
        #[trigger] model::key_at(ms1[j], p) == model::key_at(ms[j], p) by {
    }
    assert forall|j: int, p: Place| 0 <= j < ms1.len() && !(j == i && p == spot) implies
        #[trigger] model::ticket_at(ms1[j], p) == model::ticket_at(ms[j], p) by {
    }
    assert(model::key_at(ms1[i], spot) == Some(key));
    assert(model::ticket_at(ms1[i], spot) == Some(s.next_ticket_id));
    assert(model::one_place_each(ms1)) by {
        assert forall|a: int, p: Place, b: int, q: Place|
            0 <= a < ms1.len() && 0 <= b < ms1.len() && #[trigger] model::key_at(ms1[a], p) is Some
                && model::key_at(ms1[a], p) == #[trigger] model::key_at(ms1[b], q) implies a == b
            && p == q by {
            assert(model::key_at(ms[a], p) != Some(key));
            assert(model::key_at(ms[b], q) != Some(key));
        }
    }
    assert(model::one_ticket_each(ms1)) by {
        assert forall|a: int, p: Place, b: int, q: Place|
            0 <= a < ms1.len() && 0 <= b < ms1.len() && #[trigger] model::ticket_at(
                ms1[a],
                p,
            ) is Some && model::ticket_at(ms1[a], p) == #[trigger] model::ticket_at(
                ms1[b],
                q,
            ) implies a == b && p == q by {
            assert(model::ticket_at(ms[a], p) != Some(s.next_ticket_id));
            assert(model::ticket_at(ms[b], q) != Some(s.next_ticket_id));
        }
    }
    assert(model::tickets_known(ms1, next)) by {
        assert forall|a: int, p: Place|
            0 <= a < ms1.len() && #[trigger] model::ticket_at(ms1[a], p) is Some implies 1
            <= model::ticket_at(ms1[a], p)->0 < next by {
            if !(a == i && p == spot) {
                assert(model::ticket_at(ms[a], p) is Some);
            }
        }
    }
    assert forall|k: int| 0 <= k < m.queue(side).len() implies (
    #[trigger] m.queue(side)[k]).ticket_id < s.next_ticket_id by {
        let p = match side {
            Side::Left => Place::LeftLine(k),
            Side::Right => Place::RightLine(k),
        };
        assert(model::ticket_at(ms[i], p) == Some(m.queue(side)[k].ticket_id));
    }
    assert(model::in_order(m.left_queue) && model::in_order(m.right_queue));
    assert(model::in_order(grown.left_queue) && model::in_order(grown.right_queue));
    if m.called is Some {
        assert(grown.queue(m.called->0.side)[0] == m.queue(m.called->0.side)[0]);
    }
    assert(model::call_sound(grown));
    let m2 = model::join_machine(m, side, entry, now);
    lemma_call_next(grown, side, now, CLAIM_TIMEOUT_MS);
    lemma_unchanged(grown, grown.with_status());
    lemma_places_one(ms1, i, m2, next);
    let t = model::join_state(s, i, side, raw, now);
    assert(t.machines =~= ms1.update(i, m2));
    assert forall|j: int| 0 <= j < t.machines.len() implies (#[trigger] t.machines[j]).id == j
        + 1 by {
        assert(s.machines[j].id == j + 1);
    }
    assert forall|j: int| 0 <= j < t.machines.len() implies model::machine_sound(
        #[trigger] t.machines[j],
    ) by {
        assert(model::machine_sound(s.machines[j]));
    }
}

/// Taking a ticket, or being refused one, leaves the arcade sound.
pub proof fn law_join_keeps_sound(
    before: ArcadeModel,
    now: u64,
    id: u32,
    raw: Seq<char>,
    side: Side,
    after: ArcadeModel,
    answer: Result<JoinModel, ErrorModel>,
)
    requires
        model::sound(before),
        before.next_ticket_id < u64::MAX,
        model::join_outcome(before, now, id, raw, side, after, answer),
    ensures
        model::sound(after),
{
    let s = model::tick(before, now);
    law_tick_keeps_sound(before, now);
    if model::display_name(raw).len() == 0 {
    } else if model::join_conflict(s, now, model::player_key(raw)) is Some {
    } else if !model::has_machine(s.machines, id) {
        assert(model::tickets_known(after.machines, after.next_ticket_id));
    } else {
        let i = model::machine_place(s.machines, id);
        assert(model::is_machine(s.machines, id, i));
        lemma_join_state(s, i, side, raw, now);
    }
}

/// Giving a ticket back, or failing to, leaves the arcade sound.
pub proof fn law_leave_keeps_sound(
    before: ArcadeModel,
    now: u64,
    id: u32,
    ticket: u64,
    after: ArcadeModel,
    answer: Result<DetailModel, ErrorModel>,
)
    requires
        model::sound(before),
        model::leave_outcome(before, now, id, ticket, after, answer),
    ensures
        model::sound(after),
{
    let s = model::tick(before, now);
    law_tick_keeps_sound(before, now);
    if ticket != 0 && model::has_machine(s.machines, id) {
        let i = model::machine_place(s.machines, id);
        assert(model::is_machine(s.machines, id, i));
        assert(model::machine_sound(s.machines[i]));
        if let Some(side) = model::ticket_side(s.machines[i], ticket) {
            lemma_leave_machine(s.machines[i], side, ticket, now);
            lemma_replaced(s, i, model::leave_machine(s.machines[i], side, ticket, now));
        }
    }
}

/// Claiming a seat, or failing to, leaves the arcade sound.
pub proof fn law_claim_keeps_sound(
    before: ArcadeModel,
    now: u64,
    id: u32,
    ticket: u64,
    after: ArcadeModel,
    answer: Result<DetailModel, ErrorModel>,
)
    requires
        model::sound(before),
        model::claim_outcome(before, now, id, ticket, after, answer),
    ensures
        model::sound(after),
{
    let s = model::tick(before, now);
    law_tick_keeps_sound(before, now);
    if ticket != 0 && model::has_machine(s.machines, id) {
        let i = model::machine_place(s.machines, id);
        assert(model::is_machine(s.machines, id, i));
        assert(model::machine_sound(s.machines[i]));
        if model::claim_conflict(s.machines[i], ticket) is None {
            lemma_claim_machine(s.machines[i], now);
            lemma_replaced(s, i, model::claim_machine(s.machines[i], now));
        }
    }
}

proof fn lemma_with_result(
    scores: Map<ScoreKeyModel, ScoreModel>,
    day: u64,
    id: u32,
    player: model::SeatModel,
    score: u32,
)
    requires
        model::scores_sound(scores),
        model::named(player.player_name, player.player_key),
    ensures
        model::scores_sound(model::with_result(scores, day, id, player, score)),
{
    let after = model::with_result(scores, day, id, player, score);
    assert forall|d: u64, key: Seq<char>| #[trigger]
        after.contains_key((d, None, key)) implies exists|at: u32| #[trigger]
        model::best_is_at(after, d, key, at) by {
        if d == day && key == player.player_key {
            if scores.contains_key((d, None, key)) && score < scores[(d, None, key)].score {
                let at = choose|at: u32| #[trigger] model::best_is_at(scores, d, key, at);
                assert(model::best_is_at(after, d, key, at));
            } else {
                assert(scores.contains_key((d, Some(id), key)) ==> score >= scores[(
                    d,
                    Some(id),
                    key,
                )].score);
                assert(model::best_is_at(after, d, key, id));
            }
        } else {
            assert(scores.contains_key((d, None, key)));
            let at = choose|at: u32| #[trigger] model::best_is_at(scores, d, key, at);
            assert(model::best_is_at(after, d, key, at));
        }
    }
}

/// Ending a round, or failing to, leaves the arcade sound.
pub proof fn law_end_keeps_sound(
    before: ArcadeModel,
    now: u64,
    id: u32,
    winner: Side,
    left_score: u32,
    right_score: u32,
    after: ArcadeModel,
    answer: Result<DetailModel, ErrorModel>,
)
    requires
        model::sound(before),
        before.next_round_id < u64::MAX,
        model::end_outcome(before, now, id, winner, left_score, right_score, after, answer),
    ensures
        model::sound(after),
{
    let s = model::tick(before, now);
    law_tick_keeps_sound(before, now);
    if model::has_machine(s.machines, id) {
        let i = model::machine_place(s.machines, id);
        assert(model::is_machine(s.machines, id, i));
        assert(model::machine_sound(s.machines[i]));
        if model::end_conflict(s.machines[i]) is None {
            let m = s.machines[i];
            let round = RoundModel {
                round_id: s.next_round_id,
                left_player: m.left_player->0.player_name,
                right_player: m.right_player->0.player_name,
                winner_side: winner,
                left_score,
                right_score,
                ended_unix_ms: now,
            };
            let day = model::day_of(now);
            lemma_with_result(s.scores, day, m.id, m.left_player->0, left_score);
            lemma_with_result(
                model::with_result(s.scores, day, m.id, m.left_player->0, left_score),
                day,
                m.id,
                m.right_player->0,
                right_score,
            );
            lemma_end_machine(m, round, now);
            lemma_replaced(s, i, model::end_machine(m, round, now));
            assert(after.machines == model::with_machine(
                s,
                i,
                model::end_machine(m, round, now),
            ).machines);
        }
    }
}

/// A new arcade is sound.
pub proof fn law_fresh_sound(count: u32)
    ensures
        model::sound(model::fresh_arcade(count)),
{
    let s = model::fresh_arcade(count);
    assert forall|i: int, p: Place| 0 <= i < s.machines.len() implies #[trigger] model::key_at(
        s.machines[i],
        p,
    ) is None by {
    }
}

/// A machine at rest never shows that a round has just ended.
pub proof fn law_status_settles(s: ArcadeModel, i: int)
    requires
        model::sound(s),
        0 <= i < s.machines.len(),
    ensures
        s.machines[i].status != crate::arcade::MachineStatus::PostRound,
        s.machines[i].status == model::status_of(s.machines[i]),
{
    assert(model::machine_sound(s.machines[i]));
}

/// First come, first served: whoever is called has waited longest on that side.
pub proof fn law_first_come_first_called(s: ArcadeModel, i: int, k: int)
    requires
        model::sound(s),
        0 <= i < s.machines.len(),
        s.machines[i].called is Some,
        0 <= k < s.machines[i].queue(s.machines[i].called->0.side).len(),
    ensures
        s.machines[i].called->0.ticket_id <= s.machines[i].queue(
            s.machines[i].called->0.side,
        )[k].ticket_id,
{
    let m = s.machines[i];
    assert(model::machine_sound(m));
    let queue = m.queue(m.called->0.side);
    assert(model::in_order(queue));
    if k > 0 {
        assert(queue[0].ticket_id < queue[k].ticket_id);
    }
}

/// Nobody waits for a free seat while no call is out.
pub proof fn law_waiting_are_called(s: ArcadeModel, i: int, side: Side)
    requires
        model::sound(s),
        0 <= i < s.machines.len(),
        s.machines[i].seat(side) is None,
        s.machines[i].queue(side).len() > 0,
    ensures
        s.machines[i].called is Some,
        s.machines[i].status == crate::arcade::MachineStatus::SeatCall,
{
    assert(model::machine_sound(s.machines[i]));
}

/// A player sits and waits at one place of the arcade at most.
pub proof fn law_no_player_twice(s: ArcadeModel, i: int, p: Place, j: int, q: Place)
    requires
        model::sound(s),
        0 <= i < s.machines.len(),
        0 <= j < s.machines.len(),
        model::key_at(s.machines[i], p) is Some,
        model::key_at(s.machines[i], p) == model::key_at(s.machines[j], q),
    ensures
        i == j,
        p == q,
{
}

/// Whoever misses a call cannot take a ticket until the cooldown has run out,
/// whatever name the key was written with and wherever the player asks.
pub proof fn law_no_show_waits(s: ArcadeModel, i: int, now: u64, later: u64, raw: Seq<char>)
    requires
        0 <= i < s.machines.len(),
        model::missed(s.machines[i], now),
        model::player_key(raw) == s.machines[i].called->0.player_key,
        later < model::later_by(now, NO_SHOW_COOLDOWN_MS),
    ensures
        model::tick(s, now).cooldown_until.contains_key(model::player_key(raw)),
        model::tick(s, now).cooldown_until[model::player_key(raw)] == model::later_by(
            now,
            NO_SHOW_COOLDOWN_MS,
        ),
        model::join_conflict(
            model::tick(model::tick(s, now), later),
            later,
            model::player_key(raw),
        ) is Some,
{
    assert(model::no_show(s.machines, now, model::player_key(raw)));
    let t = model::tick(s, now);
    let u = model::tick(t, later);
    let key = model::player_key(raw);
    assert(t.cooldown_until.contains_key(key));
    assert(u.cooldown_until.contains_key(key));
    if model::no_show(t.machines, later, key) {
        assert(model::later_by(later, NO_SHOW_COOLDOWN_MS) > later || later == u64::MAX);
    }
}

/// Whoever is at a machine stays there as time passes, or has missed a call.
proof fn lemma_tick_keeps(m: MachineModel, now: u64, p: Place)
    requires
        model::machine_sound(m),
        model::key_at(m, p) is Some,
    ensures
        ({
            let key = model::key_at(m, p)->0;
            let m2 = model::tick_machine(m, now);
            ||| model::sits_at(m2, key)
            ||| model::waits_at(m2, key)
            ||| model::missed(m, now) && m.called->0.player_key == key
        }),
{
    let key = model::key_at(m, p)->0;
    let m2 = model::tick_machine(m, now);
    if model::missed(m, now) {
        lemma_without_head(m.queue(m.called->0.side), m.called->0.ticket_id);
    }
    match p {
        Place::LeftLine(k) => {
            if model::missed(m, now) && m.called->0.side == Side::Left {
                if k > 0 {
                    assert(m2.left_queue[k - 1] == m.left_queue[k]);
                }
            } else {
                assert(m2.left_queue[k] == m.left_queue[k]);
            }
        },
        Place::RightLine(k) => {
            if model::missed(m, now) && m.called->0.side == Side::Right {
                if k > 0 {
                    assert(m2.right_queue[k - 1] == m.right_queue[k]);
                }
            } else {
                assert(m2.right_queue[k] == m.right_queue[k]);
            }
        },
        _ => {},
    }
}

/// Whoever sits, waits or is called at any machine is refused a ticket at every
/// machine, however the name is written.
pub proof fn law_present_player_is_refused(
    before: ArcadeModel,
    now: u64,
    id: u32,
    raw: Seq<char>,
    side: Side,
    after: ArcadeModel,
    answer: Result<JoinModel, ErrorModel>,
    i: int,
)
    requires
        model::sound(before),
        now < u64::MAX,
        model::join_outcome(before, now, id, raw, side, after, answer),
        0 <= i < before.machines.len(),
        model::sits_at(before.machines[i], model::player_key(raw)) || model::waits_at(
            before.machines[i],
            model::player_key(raw),
        ),
    ensures
        answer is Err,
        answer->Err_0 is Conflict,
{
    let key = model::player_key(raw);
    let m = before.machines[i];
    let s = model::tick(before, now);
    assert(model::machine_sound(m));
    let p = if m.left_player is Some && m.left_player->0.player_key == key {
        Place::LeftSeat
    } else if m.right_player is Some && m.right_player->0.player_key == key {
        Place::RightSeat
    } else if model::has_key(m.left_queue, key) {
        Place::LeftLine(choose|k: int| 0 <= k < m.left_queue.len() && (
        #[trigger] m.left_queue[k]).player_key == key)
    } else if model::has_key(m.right_queue, key) {
        Place::RightLine(choose|k: int| 0 <= k < m.right_queue.len() && (
        #[trigger] m.right_queue[k]).player_key == key)
    } else {
        match m.called->0.side {
            Side::Left => Place::LeftLine(0),
            Side::Right => Place::RightLine(0),
        }
    };
    assert(model::key_at(m, p) == Some(key));
    assert(key.len() > 0);
    lemma_tick_keeps(m, now, p);
    assert(s.machines[i] == model::tick_machine(m, now));
    if model::missed(m, now) && m.called->0.player_key == key {
        assert(model::no_show(before.machines, now, key));
        assert(s.cooldown_until.contains_key(key));
    } else if model::sits_at(s.machines[i], key) {
        assert(model::sits(s.machines, key));
    } else {
        assert(model::waits(s.machines, key));
    }
}

/// A refused ticket leaves every seat and queue as time alone would have.
pub proof fn law_refused_ticket_changes_no_machine(
    before: ArcadeModel,
    now: u64,
    id: u32,
    raw: Seq<char>,
    side: Side,
    after: ArcadeModel,
    answer: Result<JoinModel, ErrorModel>,
)
    requires
        model::join_outcome(before, now, id, raw, side, after, answer),
        answer is Err,
    ensures
        after.machines == before.machines || after.machines == model::tick(before, now).machines,
        after.scores == before.scores,
{
}

/// A new ticket is higher than every one that was given out before. It goes to
/// the end of its queue and moves nobody who waits or sits, there or at another
/// machine. Where the seat is free and no call is out, the first in the queue is
/// called.
pub proof fn law_join_at_the_end(
    before: ArcadeModel,
    now: u64,
    id: u32,
    raw: Seq<char>,
    side: Side,
    after: ArcadeModel,
    answer: Result<JoinModel, ErrorModel>,
)
    requires
        model::sound(before),
        before.next_ticket_id < u64::MAX,
        model::join_outcome(before, now, id, raw, side, after, answer),
        answer is Ok,
    ensures
        ({
            let s = model::tick(before, now);
            let i = model::machine_place(s.machines, id);
            let m = s.machines[i];
            let m2 = after.machines[i];
            let ticket = answer->Ok_0.ticket_id;
            &&& 0 <= i < s.machines.len()
            &&& m2.queue(side).drop_last() == m.queue(side)
            &&& m2.queue(side).last().ticket_id == ticket
            &&& m2.queue(side).last().player_key == model::player_key(raw)
            &&& answer->Ok_0.position == m2.queue(side).len()
            &&& m2.queue(model::other_side(side)) == m.queue(model::other_side(side))
            &&& m2.left_player == m.left_player
            &&& m2.right_player == m.right_player
            &&& m2.called == if m.called is None && m.seat(side) is None {
                Some(model::call_to(m2.queue(side)[0], side, now, CLAIM_TIMEOUT_MS))
            } else {
                m.called
            }
            &&& after.machines == s.machines.update(i, m2)
            &&& ticket == before.next_ticket_id
            &&& after.next_ticket_id == ticket + 1
            &&& forall|j: int, p: Place|
                0 <= j < before.machines.len() && #[trigger] model::ticket_at(
                    before.machines[j],
                    p,
                ) is Some ==> model::ticket_at(before.machines[j], p)->0 < ticket
        }),
{
    let s = model::tick(before, now);
    let i = model::machine_place(s.machines, id);
    assert(model::is_machine(s.machines, id, i));
    let m = s.machines[i];
    assert(after.machines[i].queue(side).drop_last() =~= m.queue(side));
    assert(after.machines =~= s.machines.update(i, after.machines[i]));
}

/// Giving a ticket back undoes taking it: the machine stands as before.
pub proof fn law_leave_undoes_join(m: MachineModel, side: Side, entry: EntryModel, now: u64)
    requires
        model::machine_sound(m),
        forall|k: int|
            0 <= k < m.left_queue.len() ==> (#[trigger] m.left_queue[k]).ticket_id
                < entry.ticket_id,
        forall|k: int|
            0 <= k < m.right_queue.len() ==> (#[trigger] m.right_queue[k]).ticket_id
                < entry.ticket_id,
    ensures
        ({
            let joined = model::join_machine(m, side, entry, now);
            let left = model::leave_machine(joined, side, entry.ticket_id, now);
            &&& model::ticket_side(joined, entry.ticket_id) == Some(side)
            &&& left == m
        }),
{
    let joined = model::join_machine(m, side, entry, now);
    let queue = joined.queue(side);
    let n = m.queue(side).len() as int;
    assert(queue =~= m.queue(side).push(entry));
    assert(model::is_ticket(queue, entry.ticket_id, n));
    let place = model::ticket_place(queue, entry.ticket_id);
    assert(model::is_ticket(queue, entry.ticket_id, place));
    if place < n {
        assert(queue[place] == m.queue(side)[place]);
    } else if n < place {
        assert(false);
    }
    assert(queue.remove(n) =~= m.queue(side));
    let other = joined.queue(model::other_side(side));
    assert(other == m.queue(model::other_side(side)));
    if model::has_ticket(other, entry.ticket_id) {
        let k = model::ticket_place(other, entry.ticket_id);
        assert(model::is_ticket(other, entry.ticket_id, k));
        assert(m.queue(model::other_side(side))[k].ticket_id == entry.ticket_id);
    }
    if m.called is Some {
        let c = m.called->0;
        assert(m.queue(c.side)[0].ticket_id == c.ticket_id);
    }
}

/// The winner of a round stays, the loser's seat is free, and the loser's side
/// calls the one who has waited longest there.
pub proof fn law_winner_stays(m: MachineModel, round: RoundModel, now: u64)
    requires
        m.left_player is Some,
        m.right_player is Some,
    ensures
        ({
            let after = model::end_machine(m, round, now);
            let winner = round.winner_side;
            let loser = model::other_side(winner);
            &&& after.seat(winner) == m.seat(winner)
            &&& after.seat(loser) is None
            &&& after.last_round == Some(round)
            &&& after.left_queue == m.left_queue
            &&& after.right_queue == m.right_queue
            &&& m.queue(loser).len() == 0 ==> after.called is None && after.status
                == crate::arcade::MachineStatus::FreePlay
            &&& m.queue(loser).len() > 0 ==> after.status
                == crate::arcade::MachineStatus::SeatCall && after.called == Some(
                model::call_to(m.queue(loser)[0], loser, now, CLAIM_TIMEOUT_MS),
            )
        }),
{
}

/// Claiming a seat seats the called player, and a machine with both seats taken
/// is in a match.
pub proof fn law_claim_seats(m: MachineModel, now: u64)
    requires
        model::machine_sound(m),
        m.called is Some,
    ensures
        ({
            let after = model::claim_machine(m, now);
            let side = m.called->0.side;
            &&& after.seat(side) is Some
            &&& after.seat(side)->0.player_key == m.called->0.player_key
            &&& after.seat(model::other_side(side)) == m.seat(model::other_side(side))
            &&& after.queue(side) == m.queue(side).remove(0)
            &&& m.seat(model::other_side(side)) is Some ==> after.status
                == crate::arcade::MachineStatus::MatchLive
        }),
{
    lemma_drop_head(m.queue(m.called->0.side), m.called->0.ticket_id);
}

/// A best score never falls, and nobody's score is lost.
pub proof fn law_best_scores_never_fall(
    before: ArcadeModel,
    now: u64,
    id: u32,
    winner: Side,
    left_score: u32,
    right_score: u32,
    after: ArcadeModel,
    answer: Result<DetailModel, ErrorModel>,
    key: ScoreKeyModel,
)
    requires
        model::end_outcome(before, now, id, winner, left_score, right_score, after, answer),
        before.scores.contains_key(key),
    ensures
        after.scores.contains_key(key),
        after.scores[key].score >= before.scores[key].score,
{
}

/// After a round each player's best score of the day is at least the one just
/// reached, at that machine and in the arcade.
pub proof fn law_round_counts(
    before: ArcadeModel,
    now: u64,
    id: u32,
    winner: Side,
    left_score: u32,
    right_score: u32,
    after: ArcadeModel,
    answer: Result<DetailModel, ErrorModel>,
)
    requires
        model::end_outcome(before, now, id, winner, left_score, right_score, after, answer),
        answer is Ok,
    ensures
        ({
            let s = model::tick(before, now);
            let m = s.machines[model::machine_place(s.machines, id)];
            let day = model::day_of(now);
            let left = m.left_player->0.player_key;
            let right = m.right_player->0.player_key;
            &&& after.scores.contains_key((day, Some(id), left))
            &&& after.scores[(day, Some(id), left)].score >= left_score
            &&& after.scores.contains_key((day, None, left))
            &&& after.scores[(day, None, left)].score >= left_score
            &&& after.scores.contains_key((day, Some(id), right))
            &&& after.scores[(day, Some(id), right)].score >= right_score
            &&& after.scores.contains_key((day, None, right))
            &&& after.scores[(day, None, right)].score >= right_score
        }),
{
    let s = model::tick(before, now);
    let i = model::machine_place(s.machines, id);
    assert(model::is_machine(s.machines, id, i));
}

/// Whether keys stand in the order of a ranking.
spec fn in_order(keys: Seq<ScoreKeyModel>, scores: Map<ScoreKeyModel, ScoreModel>) -> bool {
    forall|i: int, j: int|
        0 <= i < j < keys.len() ==> model::ranks_before(
            scores[#[trigger] keys[i]],
            scores[#[trigger] keys[j]],
        )
}

spec fn rows(keys: Seq<ScoreKeyModel>, scores: Map<ScoreKeyModel, ScoreModel>) -> Seq<ScoreModel> {
    Seq::new(keys.len(), |i: int| scores[keys[i]])
}

proof fn lemma_ranks_antisymmetric(a: ScoreModel, b: ScoreModel)
    requires
        a == b || model::ranks_before(a, b),
        a == b || model::ranks_before(b, a),
    ensures
        a == b,
{
    if a != b {
        text::lemma_name_le_antisymmetric(a.player_name, b.player_name);
    }
}

/// Two orders of the same keys give the same rows.
proof fn lemma_same_rows(
    a: Seq<ScoreKeyModel>,
    b: Seq<ScoreKeyModel>,
    scores: Map<ScoreKeyModel, ScoreModel>,
)
    requires
        a.no_duplicates(),
        b.no_duplicates(),
        forall|k: ScoreKeyModel| #[trigger] a.contains(k) <==> b.contains(k),
        in_order(a, scores),
        in_order(b, scores),
    ensures
        rows(a, scores) == rows(b, scores),
    decreases a.len(),
{
    if a.len() == 0 {
        if b.len() > 0 {
            assert(b.contains(b[0]));
            assert(a.contains(b[0]));
        }
        assert(rows(a, scores) =~= rows(b, scores));
    } else {
        assert(a.contains(a[0]));
        let j = choose|j: int| 0 <= j < b.len() && b[j] == a[0];
        assert(b.contains(b[0]));
        assert(a.contains(b[0]));
        let i = choose|i: int| 0 <= i < a.len() && a[i] == b[0];
        lemma_ranks_antisymmetric(scores[a[0]], scores[b[0]]);
        let a2 = a.drop_first();
        let b2 = b.remove(j);
        assert forall|k: ScoreKeyModel| #[trigger] a2.contains(k) <==> b2.contains(k) by {
            if a2.contains(k) {
                let x = choose|x: int| 0 <= x < a2.len() && a2[x] == k;
                assert(a[x + 1] == k);
                assert(a.contains(k));
                let y = choose|y: int| 0 <= y < b.len() && b[y] == k;
                assert(b2[if y < j {
                    y
                } else {
                    y - 1
                }] == k);
            }
            if b2.contains(k) {
                let y = choose|y: int| 0 <= y < b2.len() && b2[y] == k;
                let z = if y < j {
                    y
                } else {
                    y + 1
                };
                assert(b[z] == k);
                assert(b.contains(k));
                assert(a.contains(k));
                let x = choose|x: int| 0 <= x < a.len() && a[x] == k;
                assert(a2[x - 1] == k);
            }
        }
        lemma_same_rows(a2, b2, scores);
        assert forall|t: int| 0 <= t <= j implies scores[#[trigger] b[t]] == scores[b[0]] by {
            lemma_ranks_antisymmetric(scores[b[0]], scores[b[t]]);
        }
        assert forall|t: int| 0 <= t < b.len() implies #[trigger] rows(a, scores)[t] == rows(
            b,
            scores,
        )[t] by {
            if t > 0 {
                assert(rows(a2, scores).len() == rows(b2, scores).len());
                assert(rows(a2, scores)[t - 1] == rows(b2, scores)[t - 1]);
                assert(a2[t - 1] == a[t]);
                if t <= j {
                    assert(b2[t - 1] == b[t - 1]);
                    assert(scores[b[t]] == scores[b[t - 1]]);
                } else {
                    assert(b2[t - 1] == b[t]);
                }
            }
        }
        assert(rows(a2, scores).len() == rows(b2, scores).len());
        assert(rows(a, scores) =~= rows(b, scores));
    }
}

/// The best rows of a board are settled by its scores.
pub proof fn law_one_ranking(
    first: Seq<ScoreModel>,
    second: Seq<ScoreModel>,
    scores: Map<ScoreKeyModel, ScoreModel>,
    day: u64,
    board: Option<u32>,
)
    requires
        model::is_top(first, scores, day, board),
        model::is_top(second, scores, day, board),
    ensures
        first == second,
{
    let a = choose|keys: Seq<ScoreKeyModel>| #[trigger]
        model::is_ranking(keys, scores, day, board) && first == model::first_rows(keys, scores);
    let b = choose|keys: Seq<ScoreKeyModel>| #[trigger]
        model::is_ranking(keys, scores, day, board) && second == model::first_rows(keys, scores);
    lemma_same_rows(a, b, scores);
    assert(rows(a, scores).len() == rows(b, scores).len());
    assert forall|i: int| 0 <= i < first.len() implies first[i] == second[i] by {
        assert(rows(a, scores)[i] == rows(b, scores)[i]);
    }
    assert(first =~= second);
}

/// Whether a row shows its player's best of a day over all machines: it was
/// reached at one of them, and none has a better one.
pub open spec fn is_day_best(
    scores: Map<ScoreKeyModel, ScoreModel>,
    day: u64,
    row: ScoreModel,
) -> bool {
    let key = text::lower(row.player_name);
    &&& exists|id: u32|
        #[trigger] scores.contains_key((day, Some(id), key)) && scores[(
            day,
            Some(id),
            key,
        )].score == row.score
    &&& forall|id: u32| #[trigger]
        scores.contains_key((day, Some(id), key)) ==> scores[(day, Some(id), key)].score
            <= row.score
}

/// What the overview shows of the day's best: at most ten rows, the best first,
/// no player twice, and of each player the best of the day over all machines.
pub proof fn law_overview_shows_the_best(
    before: ArcadeModel,
    now: u64,
    after: ArcadeModel,
    answer: model::OverviewModel,
)
    requires
        model::sound(before),
        model::overview_outcome(before, now, after, answer),
    ensures
        answer.claim_timeout_ms == 20_000,
        answer.no_show_cooldown_ms == 60_000,
        answer.daily_global_top.len() <= 10,
        forall|i: int, j: int|
            0 <= i < j < answer.daily_global_top.len() ==> model::ranks_before(
                #[trigger] answer.daily_global_top[i],
                #[trigger] answer.daily_global_top[j],
            ) && text::lower(answer.daily_global_top[i].player_name) != text::lower(
                answer.daily_global_top[j].player_name,
            ),
        forall|i: int|
            0 <= i < answer.daily_global_top.len() ==> is_day_best(
                after.scores,
                model::day_of(now),
                #[trigger] answer.daily_global_top[i],
            ),
{
    law_tick_keeps_sound(before, now);
    let top = answer.daily_global_top;
    let scores = after.scores;
    let day = model::day_of(now);
    let keys = choose|keys: Seq<ScoreKeyModel>| #[trigger]
        model::is_ranking(keys, scores, day, None) && top == model::first_rows(keys, scores);
    assert forall|i: int| 0 <= i < top.len() implies {
        &&& #[trigger] top[i] == scores[keys[i]]
        &&& keys[i] == (day, None::<u32>, text::lower(top[i].player_name))
        &&& scores.contains_key(keys[i])
    } by {
        assert(keys.contains(keys[i]));
    }
    assert forall|i: int| 0 <= i < top.len() implies is_day_best(
        scores,
        day,
        #[trigger] top[i],
    ) by {
        let key = text::lower(top[i].player_name);
        assert(scores.contains_key((day, None, key)));
        let id = choose|id: u32| #[trigger] model::best_is_at(scores, day, key, id);
        assert(model::best_is_at(scores, day, key, id));
    }
    assert forall|i: int, j: int| 0 <= i < j < top.len() implies model::ranks_before(
        #[trigger] top[i],
        #[trigger] top[j],
    ) && text::lower(top[i].player_name) != text::lower(top[j].player_name) by {
        assert(keys[i] != keys[j]);
    }
}

} // verus!
