//! The rules of the arcade as its visitors see them: what each request does to
//! the seats, queues, calls and scores, and what is shown afterwards.

use vstd::prelude::*;

use crate::arcade;
use crate::arcade::{
    ArcadeError, ArcadeOverview, ArcadeService, JoinResult,
    MachineDetailView, MachineState, MachineStatus, Side,
};
use crate::arcade_laws as laws;
use crate::arcade_model as model;
use crate::arcade_model::{ArcadeModel, EntryModel, MachineModel, ScoreModel};
use crate::text;

verus! {

/// Machines are found by their numbers, which count from one.
proof fn lemma_place(s: ArcadeModel, id: u32)
    requires
        model::sound(s),
    ensures
        model::has_machine(s.machines, id) <==> 1 <= id <= s.machines.len(),
        model::has_machine(s.machines, id) ==> model::machine_place(s.machines, id) == id - 1,
{
    if 1 <= id <= s.machines.len() {
        assert(model::is_machine(s.machines, id, id - 1));
    }
    if model::has_machine(s.machines, id) {
        let i = model::machine_place(s.machines, id);
        assert(model::is_machine(s.machines, id, i));
    }
}

/// Time that passes moves nobody from a seat and leaves names, numbers and the
/// last rounds alone.
proof fn lemma_tick_seats(s: ArcadeModel, now: u64)
    ensures
        model::tick(s, now).machines.len() == s.machines.len(),
        forall|i: int| 0 <= i < s.machines.len() ==> {
            let m = #[trigger] model::tick(s, now).machines[i];
            &&& m.id == s.machines[i].id
            &&& m.name == s.machines[i].name
            &&& m.left_player == s.machines[i].left_player
            &&& m.right_player == s.machines[i].right_player
            &&& m.last_round == s.machines[i].last_round
        },
{
}

/// A round can be ended at a machine exactly where both of its seats are taken.
/// Where there is no such machine, or a seat is free, the answer says so.
pub proof fn law_round_needs_two_players(
    before: ArcadeService,
    now: u64,
    id: u32,
    winner: Side,
    left_score: u32,
    right_score: u32,
    after: ArcadeService,
    shown: Result<MachineDetailView, ArcadeError>,
)
    requires
        before.wf(),
        model::end_outcome(
            before@,
            now,
            id,
            winner,
            left_score,
            right_score,
            after@,
            arcade::detail_answer(shown),
        ),
    ensures
        shown is Ok <==> 1 <= id <= before.inner.machines@.len() && before.inner.machines@[id
            - 1].left_player is Some && before.inner.machines@[id - 1].right_player is Some,
        shown is Err && !(1 <= id <= before.inner.machines@.len()) ==> shown->Err_0 is NotFound,
        shown is Err && 1 <= id <= before.inner.machines@.len() ==> shown->Err_0 is Conflict,
        shown is Err && 1 <= id <= before.inner.machines@.len() && before.inner.machines@[id
            - 1].left_player is None ==> shown->Err_0->Conflict_0@
            == "cannot end round without a left player"@,
        shown is Err && 1 <= id <= before.inner.machines@.len() && before.inner.machines@[id
            - 1].left_player is Some ==> shown->Err_0->Conflict_0@
            == "cannot end round without a right player"@,
        shown is Err ==> after@.scores == before@.scores,
{
    laws::law_tick_keeps_sound(before@, now);
    lemma_place(model::tick(before@, now), id);
    lemma_tick_seats(before@, now);
}

/// When a round has ended, the machine shows it with the names of those who sat
/// on the two seats, each with the score of that seat, and with the winner's
/// side. The name on that side is the one that is still on the seat; the other
/// seat is free.
pub proof fn law_round_is_shown(
    before: ArcadeService,
    now: u64,
    id: u32,
    winner: Side,
    left_score: u32,
    right_score: u32,
    after: ArcadeService,
    shown: Result<MachineDetailView, ArcadeError>,
)
    requires
        before.wf(),
        model::end_outcome(
            before@,
            now,
            id,
            winner,
            left_score,
            right_score,
            after@,
            arcade::detail_answer(shown),
        ),
        before.inner.next_round_id < u64::MAX,
        shown is Ok,
    ensures
        ({
            let m = before.inner.machines@[id - 1];
            let d = shown->Ok_0;
            let r = d.last_round->0;
            &&& 1 <= id <= before.inner.machines@.len()
            &&& d.id == id
            &&& d.last_round is Some
            &&& r.left_player@ == m.left_player->0.player_name@
            &&& r.right_player@ == m.right_player->0.player_name@
            &&& r.left_score == left_score
            &&& r.right_score == right_score
            &&& r.winner_side == winner
            &&& r.ended_unix_ms == now
            &&& r.round_id == before.inner.next_round_id
            &&& after.inner.next_round_id == before.inner.next_round_id + 1
            &&& winner == Side::Left ==> d.left_player is Some && d.left_player->0@
                == r.left_player@ && d.right_player is None
            &&& winner == Side::Right ==> d.right_player is Some && d.right_player->0@
                == r.right_player@ && d.left_player is None
        }),
        ({
            let kept = after.inner.machines@[id - 1].last_round;
            let r = shown->Ok_0.last_round->0;
            &&& after.inner.machines@.len() == before.inner.machines@.len()
            &&& kept is Some
            &&& kept->0.left_player@ == r.left_player@
            &&& kept->0.right_player@ == r.right_player@
            &&& kept->0.winner_side == r.winner_side
            &&& kept->0.left_score == r.left_score
            &&& kept->0.right_score == r.right_score
            &&& kept->0.round_id == r.round_id
            &&& kept->0.ended_unix_ms == r.ended_unix_ms
        }),
{
    laws::law_tick_keeps_sound(before@, now);
    lemma_place(model::tick(before@, now), id);
    lemma_tick_seats(before@, now);
    assert(before@.machines[id - 1] == before.inner.machines@[id - 1]@);
    assert(after@.machines.len() == after.inner.machines@.len());
    assert(after@.machines[id - 1] == after.inner.machines@[id - 1]@);
    assert(arcade::detail_answer(shown)->Ok_0 == shown->Ok_0@);
    assert(shown->Ok_0@.last_round == after@.machines[id - 1].last_round);
}

/// The line of a side of a machine.
pub open spec fn line(m: MachineState, side: Side) -> Seq<EntryModel> {
    Seq::new(
        match side {
            Side::Left => m.left_queue@.len(),
            Side::Right => m.right_queue@.len(),
        },
        |k: int|
            match side {
                Side::Left => m.left_queue@[k]@,
                Side::Right => m.right_queue@[k]@,
            },
    )
}

/// The name and the key of the player on a seat.
pub open spec fn sitting(m: MachineState, side: Side) -> Option<(Seq<char>, Seq<char>)> {
    let seat = match side {
        Side::Left => m.left_player,
        Side::Right => m.right_player,
    };
    if seat is Some {
        Some((seat->0.player_name@, seat->0.player_key@))
    } else {
        None
    }
}

pub open spec fn rival(side: Side) -> Side {
    if side == Side::Left {
        Side::Right
    } else {
        Side::Left
    }
}

/// The time that is `span` after `now`, or the last there is.
pub open spec fn after_span(now: u64, span: int) -> int {
    if now + span <= u64::MAX {
        now + span
    } else {
        u64::MAX as int
    }
}

/// Whether the machine calls the first in the line of `side` to come within
/// twenty seconds of `now`.
pub open spec fn calls_first(m: MachineState, side: Side, now: u64) -> bool {
    &&& line(m, side).len() > 0
    &&& m.called is Some
    &&& m.called->0.side == side
    &&& m.called->0.ticket_id == line(m, side)[0].ticket_id
    &&& m.called->0.player_name@ == line(m, side)[0].player_name
    &&& m.called->0.player_key@ == line(m, side)[0].player_key
    &&& m.called->0.expires_unix_ms == after_span(now, 20_000)
}

/// Whether two machines have the same call out, or none.
pub open spec fn same_call(m: MachineState, n: MachineState) -> bool {
    &&& m.called is Some <==> n.called is Some
    &&& m.called is Some ==> {
        &&& m.called->0.side == n.called->0.side
        &&& m.called->0.ticket_id == n.called->0.ticket_id
        &&& m.called->0.player_name@ == n.called->0.player_name@
        &&& m.called->0.player_key@ == n.called->0.player_key@
        &&& m.called->0.expires_unix_ms == n.called->0.expires_unix_ms
    }
}

/// Whether a machine has a call out whose time has passed.
pub open spec fn overdue(m: MachineState, now: u64) -> bool {
    m.called is Some && m.called->0.expires_unix_ms <= now
}

/// Whether the status of a machine tells whether it calls somebody, has a match
/// on, or is free.
pub open spec fn status_tells(m: MachineState) -> bool {
    m.status == if m.called is Some {
        MachineStatus::SeatCall
    } else if m.left_player is Some && m.right_player is Some {
        MachineStatus::MatchLive
    } else {
        MachineStatus::FreePlay
    }
}

/// Whether the player with this key sits or stands in line at the machine.
pub open spec fn present(m: MachineState, key: Seq<char>) -> bool {
    ||| m.left_player is Some && m.left_player->0.player_key@ == key
    ||| m.right_player is Some && m.right_player->0.player_key@ == key
    ||| exists|k: int| 0 <= k < m.left_queue@.len() && (#[trigger] m.left_queue@[k]).player_key@ == key
    ||| exists|k: int|
        0 <= k < m.right_queue@.len() && (#[trigger] m.right_queue@[k]).player_key@ == key
}

proof fn lemma_machine(s: ArcadeService, i: int)
    requires
        0 <= i < s.inner.machines@.len(),
    ensures
        s@.machines.len() == s.inner.machines@.len(),
        s@.machines[i] == s.inner.machines@[i]@,
        line(s.inner.machines@[i], Side::Left) == s@.machines[i].left_queue,
        line(s.inner.machines@[i], Side::Right) == s@.machines[i].right_queue,
        s.wf() ==> model::machine_sound(s@.machines[i]),
{
    let m = s.inner.machines@[i];
    assert(s@.machines[i] == m@);
    assert(line(m, Side::Left) =~= m@.left_queue);
    assert(line(m, Side::Right) =~= m@.right_queue);
}

/// Where no call is overdue, time alone changes nothing at a machine.
proof fn lemma_tick_nothing(m: MachineModel, now: u64)
    requires
        model::machine_sound(m),
        !model::missed(m, now),
    ensures
        model::tick_machine(m, now) == m,
{
}

/// At all times a machine's status tells what it does; nobody stands in line for
/// a free seat while no call is out; and a call goes to the first in the line of a
/// free seat.
pub proof fn law_machine_at_rest(s: ArcadeService, i: int, side: Side)
    requires
        s.wf(),
        0 <= i < s.inner.machines@.len(),
    ensures
        s.inner.machines@[i].id == i + 1,
        status_tells(s.inner.machines@[i]),
        s.inner.machines@[i].called is None && sitting(s.inner.machines@[i], side) is None
            ==> line(s.inner.machines@[i], side).len() == 0,
        s.inner.machines@[i].called is Some && s.inner.machines@[i].called->0.side == side ==> {
            let m = s.inner.machines@[i];
            &&& sitting(m, side) is None
            &&& line(m, side).len() > 0
            &&& line(m, side)[0].ticket_id == m.called->0.ticket_id
            &&& line(m, side)[0].player_name == m.called->0.player_name@
        },
{
    lemma_machine(s, i);
}

/// A called player who lets the time pass loses the place in line and may not
/// come back for a minute. The next in the same line is called, or else the first
/// in the other line if that seat is free. Without an overdue call, time changes
/// nothing at a machine.
pub proof fn law_time_passes(
    before: ArcadeService,
    now: u64,
    asked: u32,
    after: ArcadeService,
    shown: Result<MachineDetailView, ArcadeError>,
    i: int,
)
    requires
        before.wf(),
        model::machine_outcome(before@, now, asked, after@, arcade::detail_answer(shown)),
        0 <= i < before.inner.machines@.len(),
    ensures
        shown is Ok <==> 1 <= asked <= before.inner.machines@.len(),
        shown is Ok ==> shown->Ok_0.id == asked,
        shown is Err ==> shown->Err_0 is NotFound,
        after.inner.machines@.len() == before.inner.machines@.len(),
        after.inner.next_ticket_id == before.inner.next_ticket_id,
        after@.scores == before@.scores,
        ({
            let m = before.inner.machines@[i];
            let n = after.inner.machines@[i];
            &&& sitting(n, Side::Left) == sitting(m, Side::Left)
            &&& sitting(n, Side::Right) == sitting(m, Side::Right)
            &&& status_tells(n)
            &&& !overdue(m, now) ==> {
                &&& line(n, Side::Left) == line(m, Side::Left)
                &&& line(n, Side::Right) == line(m, Side::Right)
                &&& same_call(m, n)
            }
            &&& overdue(m, now) ==> {
                let side = m.called->0.side;
                let key = m.called->0.player_key@;
                &&& line(n, side) == line(m, side).drop_first()
                &&& line(n, rival(side)) == line(m, rival(side))
                &&& after@.cooldown_until.contains_key(key)
                &&& after@.cooldown_until[key] == after_span(now, 60_000)
                &&& if line(n, side).len() > 0 {
                    calls_first(n, side, now)
                } else if line(n, rival(side)).len() > 0 && sitting(n, rival(side)) is None {
                    calls_first(n, rival(side), now)
                } else {
                    n.called is None
                }
            }
        }),
{
    laws::law_tick_keeps_sound(before@, now);
    let t = model::tick(before@, now);
    lemma_place(t, asked);
    lemma_tick_seats(before@, now);
    lemma_machine(before, i);
    assert(after@.machines.len() == after.inner.machines@.len());
    lemma_machine(after, i);
    let m = before@.machines[i];
    assert(after@.machines[i] == model::tick_machine(m, now));
    if shown is Ok {
        assert(arcade::detail_answer(shown)->Ok_0 == shown->Ok_0@);
    }
    if model::missed(m, now) {
        let side = m.called->0.side;
        laws::lemma_without_head(m.queue(side), m.called->0.ticket_id);
        assert(m.queue(side).remove(0) =~= m.queue(side).drop_first());
        assert(model::no_show(before@.machines, now, m.called->0.player_key));
    } else {
        lemma_tick_nothing(m, now);
    }
}

/// A ticket is given to whoever has a name, asks at a machine that there is, does
/// not have to wait after a missed call and is not in the arcade yet; nobody else
/// gets one.
pub proof fn law_who_gets_a_ticket(
    before: ArcadeService,
    now: u64,
    id: u32,
    raw: Seq<char>,
    side: Side,
    after: ArcadeService,
    answer: Result<JoinResult, ArcadeError>,
)
    requires
        before.wf(),
        forall|i: int|
            0 <= i < before.inner.machines@.len() ==> !overdue(
                #[trigger] before.inner.machines@[i],
                now,
            ),
        model::join_outcome(before@, now, id, raw, side, after@, arcade::join_answer(answer)),
    ensures
        ({
            let name = model::display_name(raw);
            let key = text::lower(name);
            let waits = before@.cooldown_until.contains_key(key) && before@.cooldown_until[key]
                > now;
            let here = exists|i: int|
                0 <= i < before.inner.machines@.len() && present(
                    #[trigger] before.inner.machines@[i],
                    key,
                );
            let known = 1 <= id <= before.inner.machines@.len();
            &&& answer is Ok <==> name.len() > 0 && !waits && !here && known
            &&& name.len() == 0 ==> answer is Err && answer->Err_0 is BadRequest
            &&& name.len() > 0 && (waits || here) ==> answer is Err && answer->Err_0 is Conflict
            &&& name.len() > 0 && !waits && !here && !known ==> answer is Err
                && answer->Err_0 is NotFound
        }),
{
    let t = model::tick(before@, now);
    laws::law_tick_keeps_sound(before@, now);
    lemma_place(t, id);
    let key = text::lower(model::display_name(raw));
    assert(!model::no_show(before@.machines, now, key)) by {
        if model::no_show(before@.machines, now, key) {
            let i = choose|i: int|
                0 <= i < before@.machines.len() && model::missed(
                    #[trigger] before@.machines[i],
                    now,
                ) && before@.machines[i].called->0.player_key == key;
            lemma_machine(before, i);
            assert(overdue(before.inner.machines@[i], now));
        }
    }
    assert forall|i: int| 0 <= i < before@.machines.len() implies {
        &&& #[trigger] t.machines[i] == before@.machines[i]
        &&& present(before.inner.machines@[i], key) == (model::sits_at(before@.machines[i], key)
            || model::waits_at(before@.machines[i], key))
    } by {
        let e = before.inner.machines@[i];
        let m = before@.machines[i];
        lemma_machine(before, i);
        assert(!overdue(e, now));
        lemma_tick_nothing(m, now);
        assert forall|k: int| 0 <= k < m.left_queue.len() implies (
        #[trigger] m.left_queue[k]).player_key == e.left_queue@[k].player_key@ by {
        }
        assert forall|k: int| 0 <= k < m.right_queue.len() implies (
        #[trigger] m.right_queue[k]).player_key == e.right_queue@[k].player_key@ by {
        }
        if present(e, key) && !model::sits_at(m, key) {
            if exists|k: int|
                0 <= k < e.left_queue@.len() && (#[trigger] e.left_queue@[k]).player_key@ == key {
                let k = choose|k: int|
                    0 <= k < e.left_queue@.len() && (#[trigger] e.left_queue@[k]).player_key@
                        == key;
                assert(m.left_queue[k].player_key == key);
            } else {
                let k = choose|k: int|
                    0 <= k < e.right_queue@.len() && (#[trigger] e.right_queue@[k]).player_key@
                        == key;
                assert(m.right_queue[k].player_key == key);
            }
        }
        if model::has_key(m.left_queue, key) {
            let k = choose|k: int|
                0 <= k < m.left_queue.len() && (#[trigger] m.left_queue[k]).player_key == key;
            assert(e.left_queue@[k].player_key@ == key);
        }
        if model::has_key(m.right_queue, key) {
            let k = choose|k: int|
                0 <= k < m.right_queue.len() && (#[trigger] m.right_queue[k]).player_key == key;
            assert(e.right_queue@[k].player_key@ == key);
        }
        if m.called is Some && m.called->0.player_key == key {
            if m.called->0.side == Side::Left {
                assert(m.left_queue[0].player_key == key);
                assert(e.left_queue@[0].player_key@ == key);
            } else {
                assert(m.right_queue[0].player_key == key);
                assert(e.right_queue@[0].player_key@ == key);
            }
        }
    }
    let here = exists|i: int|
        0 <= i < before.inner.machines@.len() && present(
            #[trigger] before.inner.machines@[i],
            key,
        );
    if here {
        let i = choose|i: int|
            0 <= i < before.inner.machines@.len() && present(
                #[trigger] before.inner.machines@[i],
                key,
            );
        assert(t.machines[i] == before@.machines[i]);
        assert(model::sits(t.machines, key) || model::waits(t.machines, key));
    }
    if model::sits(t.machines, key) {
        let i = choose|i: int|
            0 <= i < t.machines.len() && model::sits_at(#[trigger] t.machines[i], key);
        assert(present(before.inner.machines@[i], key));
    }
    if model::waits(t.machines, key) {
        let i = choose|i: int|
            0 <= i < t.machines.len() && model::waits_at(#[trigger] t.machines[i], key);
        assert(present(before.inner.machines@[i], key));
    }
}

/// A new ticket stands last in the line that was asked for, under the name that
/// is shown and the time of the request, and its position counts from one. Nobody
/// else moves. Whoever comes to a free seat while no call is out is called.
pub proof fn law_ticket_is_given(
    before: ArcadeService,
    now: u64,
    id: u32,
    raw: Seq<char>,
    side: Side,
    after: ArcadeService,
    answer: Result<JoinResult, ArcadeError>,
)
    requires
        before.wf(),
        before.inner.next_ticket_id < u64::MAX,
        1 <= id <= before.inner.machines@.len(),
        !overdue(before.inner.machines@[id - 1], now),
        model::join_outcome(before@, now, id, raw, side, after@, arcade::join_answer(answer)),
        answer is Ok,
    ensures
        ({
            let m = before.inner.machines@[id - 1];
            let n = after.inner.machines@[id - 1];
            let ticket = before.inner.next_ticket_id;
            &&& after.inner.machines@.len() == before.inner.machines@.len()
            &&& answer->Ok_0.ticket_id == ticket
            &&& answer->Ok_0.position == line(m, side).len() + 1
            &&& answer->Ok_0.machine.id == id
            &&& after.inner.next_ticket_id == ticket + 1
            &&& line(n, side).len() == line(m, side).len() + 1
            &&& line(n, side).drop_last() == line(m, side)
            &&& line(n, side).last().ticket_id == ticket
            &&& line(n, side).last().player_name == model::display_name(raw)
            &&& line(n, side).last().player_key == text::lower(model::display_name(raw))
            &&& line(n, side).last().joined_unix_ms == now
            &&& line(n, rival(side)) == line(m, rival(side))
            &&& sitting(n, Side::Left) == sitting(m, Side::Left)
            &&& sitting(n, Side::Right) == sitting(m, Side::Right)
            &&& if m.called is None && sitting(m, side) is None {
                calls_first(n, side, now)
            } else {
                same_call(m, n)
            }
            &&& status_tells(n)
        }),
{
    laws::law_tick_keeps_sound(before@, now);
    lemma_place(model::tick(before@, now), id);
    lemma_machine(before, id - 1);
    lemma_tick_nothing(before@.machines[id - 1], now);
    assert(model::tick(before@, now).machines[id - 1] == before@.machines[id - 1]);
    assert(after@.machines.len() == after.inner.machines@.len());
    lemma_machine(after, id - 1);
    assert(arcade::join_answer(answer)->Ok_0 == answer->Ok_0@);
    let n = after.inner.machines@[id - 1];
    assert(line(n, side).drop_last() =~= line(before.inner.machines@[id - 1], side));
}

/// A ticket that stands in line can be given back, at its machine. It alone
/// leaves its line. If it was the one that was called, the next in line is called,
/// or else the first in the other line if that seat is free; any other call stays.
pub proof fn law_ticket_is_given_back(
    before: ArcadeService,
    now: u64,
    id: u32,
    ticket: u64,
    after: ArcadeService,
    shown: Result<MachineDetailView, ArcadeError>,
    side: Side,
    k: int,
)
    requires
        before.wf(),
        1 <= id <= before.inner.machines@.len(),
        !overdue(before.inner.machines@[id - 1], now),
        0 <= k < line(before.inner.machines@[id - 1], side).len(),
        line(before.inner.machines@[id - 1], side)[k].ticket_id == ticket,
        model::leave_outcome(before@, now, id, ticket, after@, arcade::detail_answer(shown)),
    ensures
        shown is Ok,
        ({
            let m = before.inner.machines@[id - 1];
            let n = after.inner.machines@[id - 1];
            &&& after.inner.machines@.len() == before.inner.machines@.len()
            &&& shown->Ok_0.id == id
            &&& line(n, side) == line(m, side).remove(k)
            &&& line(n, rival(side)) == line(m, rival(side))
            &&& sitting(n, Side::Left) == sitting(m, Side::Left)
            &&& sitting(n, Side::Right) == sitting(m, Side::Right)
            &&& if m.called is Some && m.called->0.ticket_id == ticket {
                if line(n, side).len() > 0 {
                    calls_first(n, side, now)
                } else if line(n, rival(side)).len() > 0 && sitting(n, rival(side)) is None {
                    calls_first(n, rival(side), now)
                } else {
                    n.called is None
                }
            } else {
                same_call(m, n)
            }
            &&& status_tells(n)
        }),
{
    laws::law_tick_keeps_sound(before@, now);
    lemma_place(model::tick(before@, now), id);
    lemma_machine(before, id - 1);
    lemma_tick_nothing(before@.machines[id - 1], now);
    assert(model::tick(before@, now).machines[id - 1] == before@.machines[id - 1]);
    assert(after@.machines.len() == after.inner.machines@.len());
    let m = before@.machines[id - 1];
    let p = if side == Side::Left {
        model::Place::LeftLine(k)
    } else {
        model::Place::RightLine(k)
    };
    assert(model::ticket_at(m, p) == Some(ticket));
    assert forall|other: Side, j: int|
        0 <= j < line(before.inner.machines@[id - 1], other).len() && (#[trigger] line(
            before.inner.machines@[id - 1],
            other,
        )[j]).ticket_id == ticket implies other == side && j == k by {
        let q = if other == Side::Left {
            model::Place::LeftLine(j)
        } else {
            model::Place::RightLine(j)
        };
        assert(model::ticket_at(m, q) == Some(ticket));
    }
    let queue = line(before.inner.machines@[id - 1], side);
    assert(model::is_ticket(queue, ticket, k));
    let place = model::ticket_place(queue, ticket);
    assert(model::is_ticket(queue, ticket, place));
    assert(place == k);
    if side == Side::Right && model::has_ticket(m.left_queue, ticket) {
        let j = model::ticket_place(m.left_queue, ticket);
        assert(model::is_ticket(m.left_queue, ticket, j));
        assert(line(before.inner.machines@[id - 1], Side::Left)[j].ticket_id == ticket);
    }
    assert(model::ticket_side(m, ticket) == Some(side));
    if m.called is Some && m.called->0.ticket_id == ticket {
        let c = m.called->0.side;
        assert(line(before.inner.machines@[id - 1], c)[0].ticket_id == ticket);
    }
    lemma_machine(after, id - 1);
    assert(arcade::detail_answer(shown)->Ok_0 == shown->Ok_0@);
}

/// The seat goes to whoever is called and claims it in time, under the name that
/// was called; that ticket leaves its line. Then the first in the other line is
/// called if that seat is free. Any other claim is refused.
pub proof fn law_seat_is_claimed(
    before: ArcadeService,
    now: u64,
    id: u32,
    ticket: u64,
    after: ArcadeService,
    shown: Result<MachineDetailView, ArcadeError>,
)
    requires
        before.wf(),
        1 <= id <= before.inner.machines@.len(),
        !overdue(before.inner.machines@[id - 1], now),
        model::claim_outcome(before@, now, id, ticket, after@, arcade::detail_answer(shown)),
    ensures
        after.inner.machines@.len() == before.inner.machines@.len(),
        ({
            let m = before.inner.machines@[id - 1];
            let n = after.inner.machines@[id - 1];
            let called = m.called->0;
            let side = called.side;
            &&& shown is Ok <==> m.called is Some && called.ticket_id == ticket
            &&& shown is Err ==> if ticket == 0 {
                shown->Err_0 is BadRequest
            } else {
                shown->Err_0 is Conflict
            }
            &&& shown is Ok ==> {
                &&& shown->Ok_0.id == id
                &&& sitting(m, side) is None
                &&& sitting(n, side) == Some((called.player_name@, called.player_key@))
                &&& sitting(n, rival(side)) == sitting(m, rival(side))
                &&& line(n, side) == line(m, side).drop_first()
                &&& line(n, rival(side)) == line(m, rival(side))
                &&& if sitting(m, rival(side)) is None && line(m, rival(side)).len() > 0 {
                    calls_first(n, rival(side), now)
                } else {
                    n.called is None
                }
                &&& status_tells(n)
            }
            &&& shown is Err ==> {
                &&& sitting(n, Side::Left) == sitting(m, Side::Left)
                &&& sitting(n, Side::Right) == sitting(m, Side::Right)
                &&& line(n, Side::Left) == line(m, Side::Left)
                &&& line(n, Side::Right) == line(m, Side::Right)
                &&& same_call(m, n)
            }
        }),
{
    laws::law_tick_keeps_sound(before@, now);
    lemma_place(model::tick(before@, now), id);
    lemma_machine(before, id - 1);
    lemma_tick_nothing(before@.machines[id - 1], now);
    assert(model::tick(before@, now).machines[id - 1] == before@.machines[id - 1]);
    assert(after@.machines.len() == after.inner.machines@.len());
    lemma_machine(after, id - 1);
    let m = before@.machines[id - 1];
    if m.called is Some {
        let p = if m.called->0.side == Side::Left {
            model::Place::LeftLine(0)
        } else {
            model::Place::RightLine(0)
        };
        assert(model::ticket_at(m, p) == Some(m.called->0.ticket_id));
        laws::lemma_drop_head(m.queue(m.called->0.side), m.called->0.ticket_id);
        let queue = m.queue(m.called->0.side);
        assert(queue.remove(0) =~= queue.drop_first());
    }
    if shown is Ok {
        assert(arcade::detail_answer(shown)->Ok_0 == shown->Ok_0@);
    }
}

/// After a round the lines stand as before, and the first in the loser's line is
/// called to the seat that is free.
pub proof fn law_challenger_is_called(
    before: ArcadeService,
    now: u64,
    id: u32,
    winner: Side,
    left_score: u32,
    right_score: u32,
    after: ArcadeService,
    shown: Result<MachineDetailView, ArcadeError>,
)
    requires
        before.wf(),
        1 <= id <= before.inner.machines@.len(),
        model::end_outcome(
            before@,
            now,
            id,
            winner,
            left_score,
            right_score,
            after@,
            arcade::detail_answer(shown),
        ),
        shown is Ok,
    ensures
        after.inner.machines@.len() == before.inner.machines@.len(),
        ({
            let m = before.inner.machines@[id - 1];
            let n = after.inner.machines@[id - 1];
            let loser = rival(winner);
            &&& sitting(n, winner) == sitting(m, winner)
            &&& sitting(n, loser) is None
            &&& line(n, Side::Left) == line(m, Side::Left)
            &&& line(n, Side::Right) == line(m, Side::Right)
            &&& if line(m, loser).len() > 0 {
                calls_first(n, loser, now)
            } else {
                n.called is None
            }
            &&& status_tells(n)
        }),
{
    laws::law_tick_keeps_sound(before@, now);
    lemma_place(model::tick(before@, now), id);
    lemma_machine(before, id - 1);
    let m = before@.machines[id - 1];
    lemma_tick_seats(before@, now);
    assert(m.called is None) by {
        assert(model::call_sound(m));
    }
    lemma_tick_nothing(m, now);
    assert(model::tick(before@, now).machines[id - 1] == m);
    assert(after@.machines.len() == after.inner.machines@.len());
    lemma_machine(after, id - 1);
}

/// Whether two machines are alike but for their status.
pub open spec fn alike(m: MachineState, n: MachineState) -> bool {
    &&& n.id == m.id
    &&& n.name@ == m.name@
    &&& sitting(n, Side::Left) == sitting(m, Side::Left)
    &&& sitting(n, Side::Right) == sitting(m, Side::Right)
    &&& line(n, Side::Left) == line(m, Side::Left)
    &&& line(n, Side::Right) == line(m, Side::Right)
    &&& same_call(m, n)
    &&& same_round(m, n)
}

/// Whether two machines had the same last round, or none.
pub open spec fn same_round(m: MachineState, n: MachineState) -> bool {
    &&& m.last_round is Some <==> n.last_round is Some
    &&& m.last_round is Some ==> {
        &&& m.last_round->0.round_id == n.last_round->0.round_id
        &&& m.last_round->0.left_player@ == n.last_round->0.left_player@
        &&& m.last_round->0.right_player@ == n.last_round->0.right_player@
        &&& m.last_round->0.winner_side == n.last_round->0.winner_side
        &&& m.last_round->0.left_score == n.last_round->0.left_score
        &&& m.last_round->0.right_score == n.last_round->0.right_score
        &&& m.last_round->0.ended_unix_ms == n.last_round->0.ended_unix_ms
    }
}

/// What is done at one machine leaves the others as they are, unless a call is
/// overdue there; and only the end of a round changes the round that a machine
/// shows.
pub proof fn law_machines_stand_apart(
    before: ArcadeService,
    now: u64,
    id: u32,
    raw: Seq<char>,
    side: Side,
    ticket: u64,
    left_score: u32,
    right_score: u32,
    after: ArcadeService,
    joined: Result<JoinResult, ArcadeError>,
    shown: Result<MachineDetailView, ArcadeError>,
    j: int,
)
    requires
        before.wf(),
        0 <= j < before.inner.machines@.len(),
        !overdue(before.inner.machines@[j], now),
        ({
            ||| model::join_outcome(before@, now, id, raw, side, after@, arcade::join_answer(joined))
            ||| model::leave_outcome(before@, now, id, ticket, after@, arcade::detail_answer(shown))
            ||| model::claim_outcome(before@, now, id, ticket, after@, arcade::detail_answer(shown))
            ||| model::end_outcome(
                before@,
                now,
                id,
                side,
                left_score,
                right_score,
                after@,
                arcade::detail_answer(shown),
            )
        }),
    ensures
        after.inner.machines@.len() == before.inner.machines@.len(),
        j != id - 1 ==> alike(before.inner.machines@[j], after.inner.machines@[j]),
        !model::end_outcome(
            before@,
            now,
            id,
            side,
            left_score,
            right_score,
            after@,
            arcade::detail_answer(shown),
        ) ==> same_round(before.inner.machines@[j], after.inner.machines@[j]),
{
    laws::law_tick_keeps_sound(before@, now);
    lemma_place(model::tick(before@, now), id);
    lemma_machine(before, j);
    lemma_tick_nothing(before@.machines[j], now);
    lemma_tick_seats(before@, now);
    assert(model::tick(before@, now).machines[j] == before@.machines[j]);
    assert(after@.machines.len() == after.inner.machines@.len());
    lemma_machine(after, j);
}

/// The better of an earlier best, if there is one, and a score.
pub open spec fn better_of(best: Option<u32>, score: u32) -> u32 {
    if best is Some && best->0 > score {
        best->0
    } else {
        score
    }
}

/// After a round each player's best of the day, at that machine and in the whole
/// arcade, is the better of the best before and the score of the player's seat; it
/// carries the name of the seat unless the one before was better. A day has
/// 86,400,000 ms. No other score changes.
pub proof fn law_scores_of_a_round(
    before: ArcadeService,
    now: u64,
    id: u32,
    winner: Side,
    left_score: u32,
    right_score: u32,
    after: ArcadeService,
    shown: Result<MachineDetailView, ArcadeError>,
    board: Option<u32>,
    side: Side,
)
    requires
        before.wf(),
        model::end_outcome(
            before@,
            now,
            id,
            winner,
            left_score,
            right_score,
            after@,
            arcade::detail_answer(shown),
        ),
        shown is Ok,
        board == Some(id) || board is None,
    ensures
        ({
            let m = before.inner.machines@[id - 1];
            let (name, key) = sitting(m, side)->0;
            let score = if side == Side::Left {
                left_score
            } else {
                right_score
            };
            let at = ((now / 86_400_000) as u64, board, key);
            let best = if before@.scores.contains_key(at) {
                Some(before@.scores[at].score)
            } else {
                None
            };
            &&& sitting(m, side) is Some
            &&& after@.scores.contains_key(at)
            &&& after@.scores[at].score == better_of(best, score)
            &&& best is None || score >= best->0 ==> after@.scores[at].player_name == name
            &&& best is Some && score < best->0 ==> after@.scores[at] == before@.scores[at]
        }),
        forall|k: model::ScoreKeyModel|
            !(k.0 == now / 86_400_000 && (k.1 == Some(id) || k.1 is None) && (k.2
                == before.inner.machines@[id - 1].left_player->0.player_key@ || k.2
                == before.inner.machines@[id - 1].right_player->0.player_key@)) ==> (
            #[trigger] after@.scores.contains_key(k) <==> before@.scores.contains_key(k))
                && after@.scores[k] == before@.scores[k],
{
    laws::law_tick_keeps_sound(before@, now);
    lemma_place(model::tick(before@, now), id);
    lemma_tick_seats(before@, now);
    lemma_machine(before, id - 1);
    let m = before@.machines[id - 1];
    assert(model::tick(before@, now).machines[id - 1].id == id);
    assert(m.left_player->0.player_key != m.right_player->0.player_key) by {
        assert(model::key_at(m, model::Place::LeftSeat) is Some);
        assert(model::key_at(m, model::Place::RightSeat) is Some);
    }
}

/// What is shown of a machine is what is there: its number, name and status, the
/// names on its seats, its lines with their places counted from one, its call with
/// the time that is left, and its last round.
pub proof fn law_machine_is_shown(s: ArcadeService, i: int, now: u64, shown: MachineDetailView)
    requires
        0 <= i < s.inner.machines@.len(),
        model::shows(shown@, s@, i, now),
    ensures
        ({
            let m = s.inner.machines@[i];
            &&& shown.id == m.id
            &&& shown.name@ == m.name@
            &&& shown.status == m.status
            &&& shown.left_player is Some <==> m.left_player is Some
            &&& shown.left_player is Some ==> shown.left_player->0@ == m.left_player->0.player_name@
            &&& shown.right_player is Some <==> m.right_player is Some
            &&& shown.right_player is Some ==> shown.right_player->0@
                == m.right_player->0.player_name@
            &&& shown.left_queue@.len() == m.left_queue@.len()
            &&& forall|k: int|
                0 <= k < m.left_queue@.len() ==> {
                    &&& (#[trigger] shown.left_queue@[k]).ticket_id == m.left_queue@[k].ticket_id
                    &&& shown.left_queue@[k].player_name@ == m.left_queue@[k].player_name@
                    &&& shown.left_queue@[k].joined_unix_ms == m.left_queue@[k].joined_unix_ms
                    &&& shown.left_queue@[k].position == k + 1
                }
            &&& shown.right_queue@.len() == m.right_queue@.len()
            &&& forall|k: int|
                0 <= k < m.right_queue@.len() ==> {
                    &&& (#[trigger] shown.right_queue@[k]).ticket_id == m.right_queue@[k].ticket_id
                    &&& shown.right_queue@[k].player_name@ == m.right_queue@[k].player_name@
                    &&& shown.right_queue@[k].joined_unix_ms == m.right_queue@[k].joined_unix_ms
                    &&& shown.right_queue@[k].position == k + 1
                }
            &&& shown.called is Some <==> m.called is Some
            &&& shown.called is Some ==> {
                &&& shown.called->0.side == m.called->0.side
                &&& shown.called->0.ticket_id == m.called->0.ticket_id
                &&& shown.called->0.player_name@ == m.called->0.player_name@
                &&& shown.called->0.expires_unix_ms == m.called->0.expires_unix_ms
                &&& m.called->0.expires_unix_ms >= now ==> now + shown.called->0.remaining_ms
                    == m.called->0.expires_unix_ms
                &&& m.called->0.expires_unix_ms < now ==> shown.called->0.remaining_ms == 0
            }
            &&& shown.last_round is Some <==> m.last_round is Some
            &&& shown.last_round is Some ==> {
                &&& shown.last_round->0.round_id == m.last_round->0.round_id
                &&& shown.last_round->0.left_player@ == m.last_round->0.left_player@
                &&& shown.last_round->0.right_player@ == m.last_round->0.right_player@
                &&& shown.last_round->0.winner_side == m.last_round->0.winner_side
                &&& shown.last_round->0.left_score == m.last_round->0.left_score
                &&& shown.last_round->0.right_score == m.last_round->0.right_score
                &&& shown.last_round->0.ended_unix_ms == m.last_round->0.ended_unix_ms
            }
        }),
{
    lemma_machine(s, i);
    let m = s.inner.machines@[i];
    let d = shown@;
    assert(d.left_queue.len() == shown.left_queue@.len());
    assert(d.right_queue.len() == shown.right_queue@.len());
    assert forall|k: int| 0 <= k < m.left_queue@.len() implies {
        &&& (#[trigger] shown.left_queue@[k])@ == d.left_queue[k]
        &&& s@.machines[i].left_queue[k] == m.left_queue@[k]@
    } by {
    }
    assert forall|k: int| 0 <= k < m.right_queue@.len() implies {
        &&& (#[trigger] shown.right_queue@[k])@ == d.right_queue[k]
        &&& s@.machines[i].right_queue[k] == m.right_queue@[k]@
    } by {
    }
}

/// Every answer to a request at a machine shows that machine as it then stands.
pub proof fn law_answers_show_the_machine(
    before: ArcadeService,
    now: u64,
    id: u32,
    raw: Seq<char>,
    side: Side,
    ticket: u64,
    left_score: u32,
    right_score: u32,
    after: ArcadeService,
    joined: Result<JoinResult, ArcadeError>,
    shown: Result<MachineDetailView, ArcadeError>,
)
    requires
        before.wf(),
    ensures
        model::join_outcome(before@, now, id, raw, side, after@, arcade::join_answer(joined))
            && joined is Ok ==> 1 <= id <= after.inner.machines@.len() && model::shows(
            joined->Ok_0.machine@,
            after@,
            id - 1,
            now,
        ),
        ({
            ||| model::machine_outcome(before@, now, id, after@, arcade::detail_answer(shown))
            ||| model::leave_outcome(before@, now, id, ticket, after@, arcade::detail_answer(shown))
            ||| model::claim_outcome(before@, now, id, ticket, after@, arcade::detail_answer(shown))
            ||| model::end_outcome(
                before@,
                now,
                id,
                side,
                left_score,
                right_score,
                after@,
                arcade::detail_answer(shown),
            )
        }) && shown is Ok ==> 1 <= id <= after.inner.machines@.len() && model::shows(
            shown->Ok_0@,
            after@,
            id - 1,
            now,
        ),
{
    laws::law_tick_keeps_sound(before@, now);
    lemma_place(model::tick(before@, now), id);
    assert(after@.machines.len() == after.inner.machines@.len());
    if joined is Ok {
        assert(arcade::join_answer(joined)->Ok_0 == joined->Ok_0@);
    }
    if shown is Ok {
        assert(arcade::detail_answer(shown)->Ok_0 == shown->Ok_0@);
    }
}

/// The overview has every machine in turn, with its number, name, status, the
/// names on its seats, the lengths of its lines, its call and its last round.
pub proof fn law_overview_shows_every_machine(
    before: ArcadeService,
    now: u64,
    after: ArcadeService,
    answer: ArcadeOverview,
    i: int,
)
    requires
        model::overview_outcome(before@, now, after@, answer@),
        0 <= i < after.inner.machines@.len(),
    ensures
        answer.now_unix_ms == now,
        answer.claim_timeout_ms == 20_000,
        answer.no_show_cooldown_ms == 60_000,
        answer.machines@.len() == after.inner.machines@.len(),
        after.inner.machines@.len() == before.inner.machines@.len(),
        ({
            let m = after.inner.machines@[i];
            let shown = answer.machines@[i];
            &&& shown.id == m.id
            &&& shown.name@ == m.name@
            &&& shown.status == m.status
            &&& shown.left_player is Some <==> m.left_player is Some
            &&& shown.left_player is Some ==> shown.left_player->0@ == m.left_player->0.player_name@
            &&& shown.right_player is Some <==> m.right_player is Some
            &&& shown.right_player is Some ==> shown.right_player->0@
                == m.right_player->0.player_name@
            &&& shown.left_queue_len == m.left_queue@.len()
            &&& shown.right_queue_len == m.right_queue@.len()
            &&& shown.called is Some <==> m.called is Some
            &&& shown.called is Some ==> {
                &&& shown.called->0.side == m.called->0.side
                &&& shown.called->0.ticket_id == m.called->0.ticket_id
                &&& shown.called->0.player_name@ == m.called->0.player_name@
                &&& shown.called->0.expires_unix_ms == m.called->0.expires_unix_ms
                &&& m.called->0.expires_unix_ms >= now ==> now + shown.called->0.remaining_ms
                    == m.called->0.expires_unix_ms
            }
            &&& shown.last_round is Some <==> m.last_round is Some
            &&& shown.last_round is Some ==> {
                &&& shown.last_round->0.round_id == m.last_round->0.round_id
                &&& shown.last_round->0.left_player@ == m.last_round->0.left_player@
                &&& shown.last_round->0.right_player@ == m.last_round->0.right_player@
                &&& shown.last_round->0.winner_side == m.last_round->0.winner_side
                &&& shown.last_round->0.left_score == m.last_round->0.left_score
                &&& shown.last_round->0.right_score == m.last_round->0.right_score
                &&& shown.last_round->0.ended_unix_ms == m.last_round->0.ended_unix_ms
            }
        }),
{
    lemma_machine(after, i);
    assert(before@.machines.len() == before.inner.machines@.len());
    assert(answer@.machines.len() == answer.machines@.len());
    assert(answer@.machines[i] == answer.machines@[i]@);
    assert(after.inner.machines@[i]@.left_queue.len() == after.inner.machines@[i].left_queue@.len());
    assert(after.inner.machines@[i]@.right_queue.len()
        == after.inner.machines@[i].right_queue@.len());
}

/// Whether a row is a score of a board on a day.
pub open spec fn reached(
    scores: Map<model::ScoreKeyModel, ScoreModel>,
    day: u64,
    board: Option<u32>,
    row: ScoreModel,
) -> bool {
    exists|key: Seq<char>| #[trigger]
        scores.contains_key((day, board, key)) && scores[(day, board, key)] == row
}

/// What a ranking of a day shows: at most ten rows, each a score of that board
/// on that day; a higher score stands before a lower one, and of equal scores the
/// name that comes first; and a score that is not shown is no better than any row,
/// of which there are then ten.
pub proof fn law_ranking_shows_the_best(
    rows: Seq<ScoreModel>,
    scores: Map<model::ScoreKeyModel, ScoreModel>,
    day: u64,
    board: Option<u32>,
    missing: Seq<char>,
)
    requires
        model::is_top(rows, scores, day, board),
    ensures
        rows.len() <= 10,
        forall|i: int|
            0 <= i < rows.len() ==> reached(scores, day, board, #[trigger] rows[i]),
        forall|i: int, j: int|
            0 <= i < j < rows.len() ==> {
                ||| (#[trigger] rows[i]).score > (#[trigger] rows[j]).score
                ||| rows[i].score == rows[j].score && text::name_le(
                    rows[i].player_name,
                    rows[j].player_name,
                )
            },
        scores.contains_key((day, board, missing)) && !rows.contains(scores[(day, board, missing)])
            ==> rows.len() == 10 && forall|i: int|
            0 <= i < 10 ==> (#[trigger] rows[i]).score >= scores[(day, board, missing)].score,
{
    let keys = choose|keys: Seq<model::ScoreKeyModel>| #[trigger]
        model::is_ranking(keys, scores, day, board) && rows == model::first_rows(keys, scores);
    assert forall|i: int| 0 <= i < rows.len() implies reached(
        scores,
        day,
        board,
        #[trigger] rows[i],
    ) by {
        assert(keys.contains(keys[i]));
        let key = keys[i].2;
        assert(keys[i] == (day, board, key));
        assert(scores.contains_key((day, board, key)));
    }
    let k = (day, board, missing);
    if scores.contains_key(k) && !rows.contains(scores[k]) {
        assert(keys.contains(k));
        let place = choose|p: int| 0 <= p < keys.len() && keys[p] == k;
        if place < rows.len() {
            assert(rows[place] == scores[k]);
        }
        assert forall|i: int| 0 <= i < 10 implies (#[trigger] rows[i]).score
            >= scores[k].score by {
            assert(model::ranks_before(scores[keys[i]], scores[keys[place]]));
        }
    }
}

/// The rankings that are shown are those of the day: a machine's of the scores
/// reached there, the overview's of the whole arcade.
pub proof fn law_rankings_are_of_the_day(
    before: ArcadeService,
    s: ArcadeService,
    now: u64,
    i: int,
    shown: MachineDetailView,
    answer: ArcadeOverview,
)
    requires
        0 <= i < s.inner.machines@.len(),
    ensures
        model::shows(shown@, s@, i, now) ==> model::is_top(
            Seq::new(
                shown.daily_top@.len(),
                |k: int|
                    ScoreModel {
                        player_name: shown.daily_top@[k].player_name@,
                        score: shown.daily_top@[k].score,
                    },
            ),
            s@.scores,
            (now / 86_400_000) as u64,
            Some(s.inner.machines@[i].id),
        ),
        model::overview_outcome(before@, now, s@, answer@) ==> model::is_top(
            Seq::new(
                answer.daily_global_top@.len(),
                |k: int|
                    ScoreModel {
                        player_name: answer.daily_global_top@[k].player_name@,
                        score: answer.daily_global_top@[k].score,
                    },
            ),
            s@.scores,
            (now / 86_400_000) as u64,
            None,
        ),
{
    lemma_machine(s, i);
    assert(shown@.daily_top =~= Seq::new(
        shown.daily_top@.len(),
        |k: int|
            ScoreModel {
                player_name: shown.daily_top@[k].player_name@,
                score: shown.daily_top@[k].score,
            },
    ));
    assert(answer@.daily_global_top =~= Seq::new(
        answer.daily_global_top@.len(),
        |k: int|
            ScoreModel {
                player_name: answer.daily_global_top@[k].player_name@,
                score: answer.daily_global_top@[k].score,
            },
    ));
}

/// A new arcade has as many machines as were asked for, at least one, numbered
/// and named from one; all are free, and the first ticket and the first round are
/// number one.
pub proof fn law_new_arcade(count: u32, s: ArcadeService, i: int)
    requires
        s@ == model::fresh_arcade(count),
        0 <= i < s.inner.machines@.len(),
    ensures
        count >= 1 ==> s.inner.machines@.len() == count,
        count == 0 ==> s.inner.machines@.len() == 1,
        s.inner.next_ticket_id == 1,
        s.inner.next_round_id == 1,
        forall|key: Seq<char>| !(#[trigger] s@.cooldown_until.contains_key(key)),
        forall|key: model::ScoreKeyModel| !(#[trigger] s@.scores.contains_key(key)),
        ({
            let m = s.inner.machines@[i];
            &&& m.id == i + 1
            &&& m.name@ == "Machine "@ + text::decimal((i + 1) as nat)
            &&& m.status == MachineStatus::FreePlay
            &&& m.left_player is None
            &&& m.right_player is None
            &&& m.left_queue@.len() == 0
            &&& m.right_queue@.len() == 0
            &&& m.called is None
            &&& m.last_round is None
        }),
{
    assert(s@.machines.len() == s.inner.machines@.len());
    lemma_machine(s, i);
    assert(s.inner.machines@[i]@.left_queue.len() == s.inner.machines@[i].left_queue@.len());
    assert(s.inner.machines@[i]@.right_queue.len() == s.inner.machines@[i].right_queue@.len());
}

/// Whoever has missed a call is refused everywhere for a minute from then on, and
/// for no longer on that account.
pub proof fn law_a_minute_to_wait(
    before: ArcadeService,
    now: u64,
    asked: u32,
    between: ArcadeService,
    shown: Result<MachineDetailView, ArcadeError>,
    i: int,
    later: u64,
    id: u32,
    raw: Seq<char>,
    side: Side,
    after: ArcadeService,
    answer: Result<JoinResult, ArcadeError>,
)
    requires
        before.wf(),
        0 <= i < before.inner.machines@.len(),
        overdue(before.inner.machines@[i], now),
        text::lower(model::display_name(raw)) == before.inner.machines@[i].called->0.player_key@,
        model::machine_outcome(before@, now, asked, between@, arcade::detail_answer(shown)),
        model::join_outcome(between@, later, id, raw, side, after@, arcade::join_answer(answer)),
    ensures
        later < now + 60_000 && later < u64::MAX ==> answer is Err && answer->Err_0 is Conflict,
        later >= now + 60_000 ==> !(between@.cooldown_until[before.inner.machines@[i].called->0.player_key@]
            > later),
{
    lemma_machine(before, i);
    let m = before@.machines[i];
    let key = m.called->0.player_key;
    assert(model::no_show(before@.machines, now, key));
    let u = model::tick(between@, later);
    assert(between@.cooldown_until.contains_key(key));
    if later < now + 60_000 && later < u64::MAX {
        assert(u.cooldown_until.contains_key(key));
        assert(model::player_key(raw) == key);
        assert(model::machine_sound(m));
        assert(key.len() > 0);
    }
}

/// The sides are named left and right, in any case and with white space around.
pub proof fn law_sides_are_named(raw: Seq<char>)
    ensures
        text::folded(raw) == "left"@ <==> model::side_named(raw) == Some(Side::Left),
        text::folded(raw) == "right"@ <==> model::side_named(raw) == Some(Side::Right),
{
    reveal_strlit("left");
    reveal_strlit("right");
    assert("left"@.len() == 4 && "right"@.len() == 5);
}


/// A refusal says why, and is answered with the status for what it is: a bad request,
/// something that is not there, or a conflict.
pub proof fn law_refusals_have_a_status(error: ArcadeError)
    ensures
        error is BadRequest ==> model::error_status(error@) == 400 && model::error_text(error@)
            == error->BadRequest_0@,
        error is NotFound ==> model::error_status(error@) == 404 && model::error_text(error@)
            == error->NotFound_0@,
        error is Conflict ==> model::error_status(error@) == 409 && model::error_text(error@)
            == error->Conflict_0@,
{
}


/// What is wrong with a request is told in these words, and with the status for it.
pub proof fn law_refusals_in_words(id: u32, ticket: u64, m: MachineModel)
    ensures
        model::error_text(model::machine_missing(id)) == "machine "@ + text::decimal(id as nat)
            + " not found"@,
        model::error_status(model::machine_missing(id)) == 404,
        model::error_text(model::ticket_missing(ticket, id)) == "ticket "@ + text::decimal(
            ticket as nat,
        ) + " not found on machine "@ + text::decimal(id as nat),
        model::error_status(model::ticket_missing(ticket, id)) == 404,
        model::error_text(model::ticket_invalid()) == "ticket_id must be a positive integer"@,
        model::error_status(model::ticket_invalid()) == 400,
        m.called is None ==> model::claim_conflict(m, ticket) == Some(
            "no seat is currently being called"@,
        ),
        m.called is Some && m.called->0.ticket_id != ticket ==> model::claim_conflict(m, ticket)
            == Some(
            "ticket "@ + text::decimal(ticket as nat) + " is not currently called (active ticket: "@
                + text::decimal(m.called->0.ticket_id as nat) + ")"@,
        ),
        m.called is Some && m.called->0.ticket_id == ticket ==> (model::claim_conflict(m, ticket)
            is None <==> if m.called->0.side == Side::Left {
            m.left_player is None
        } else {
            m.right_player is None
        }),
        model::claim_conflict(m, ticket) is Some && m.called is Some && m.called->0.ticket_id
            == ticket ==> model::claim_conflict(m, ticket)->0 == "that side is already occupied"@,
{
}

/// Whoever cools down is told for how many seconds more: whole ones, but one at
/// least. After that a seat is what stands in the way, and then a ticket.
pub proof fn law_why_nobody_joins(s: ArcadeModel, now: u64, key: Seq<char>, seconds: int, rest: int)
    requires
        0 <= rest < 1000,
        seconds >= 0,
    ensures
        s.cooldown_until.contains_key(key) && s.cooldown_until[key] > now && s.cooldown_until[key]
            == now + 1000 * seconds + rest ==> model::join_conflict(s, now, key) == Some(
            "player is cooling down after no-show; try again in "@ + text::decimal(
                if seconds < 1 {
                    1nat
                } else {
                    seconds as nat
                },
            ) + "s"@,
        ),
        !(s.cooldown_until.contains_key(key) && s.cooldown_until[key] > now) && model::sits(
            s.machines,
            key,
        ) ==> model::join_conflict(s, now, key) == Some("player is already seated at a machine"@),
        !(s.cooldown_until.contains_key(key) && s.cooldown_until[key] > now) && !model::sits(
            s.machines,
            key,
        ) && model::waits(s.machines, key) ==> model::join_conflict(s, now, key) == Some(
            "player already has an active queue ticket"@,
        ),
{
}

/// An arcade has as many machines as were asked for, but one at least.
pub proof fn law_arcade_has_machines(count: u32, s: ArcadeService)
    requires
        s@ == model::fresh_arcade(count),
    ensures
        count >= 1 ==> s.inner.machines@.len() == count,
        count == 0 ==> s.inner.machines@.len() == 1,
{
    assert(s@.machines.len() == s.inner.machines@.len());
}


} // verus!
