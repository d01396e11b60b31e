//! What the arcade is, as mathematics: machines with two seats and two queues,
//! the call of the next player, cooldowns after a no-show and daily scores.

use vstd::prelude::*;

use crate::arcade::{MachineStatus, Side};
use crate::text;

verus! {

/// How long a called player has to claim the seat.
pub const CLAIM_TIMEOUT_MS: u64 = 20_000;

/// How long a player who did not show up has to wait.
pub const NO_SHOW_COOLDOWN_MS: u64 = 60_000;

pub const DAY_MS: u64 = 86_400_000;

/// The longest name that is shown, in characters.
pub const MAX_PLAYER_NAME_LEN: usize = 24;

/// How many rows a daily ranking shows.
pub const SCORE_LIMIT: usize = 10;

/// A player on a seat.
#[verifier::ext_equal]
pub struct SeatModel {
    pub player_name: Seq<char>,
    pub player_key: Seq<char>,
}

/// A ticket in a queue.
#[verifier::ext_equal]
pub struct EntryModel {
    pub ticket_id: u64,
    pub player_name: Seq<char>,
    pub player_key: Seq<char>,
    pub joined_unix_ms: u64,
}

/// The call of a ticket to a seat.
#[verifier::ext_equal]
pub struct CallModel {
    pub side: Side,
    pub ticket_id: u64,
    pub player_name: Seq<char>,
    pub player_key: Seq<char>,
    pub expires_unix_ms: u64,
}

/// A round that was played.
#[verifier::ext_equal]
pub struct RoundModel {
    pub round_id: u64,
    pub left_player: Seq<char>,
    pub right_player: Seq<char>,
    pub winner_side: Side,
    pub left_score: u32,
    pub right_score: u32,
    pub ended_unix_ms: u64,
}

#[verifier::ext_equal]
pub struct MachineModel {
    pub id: u32,
    pub name: Seq<char>,
    pub status: MachineStatus,
    pub left_player: Option<SeatModel>,
    pub right_player: Option<SeatModel>,
    pub left_queue: Seq<EntryModel>,
    pub right_queue: Seq<EntryModel>,
    pub called: Option<CallModel>,
    pub last_round: Option<RoundModel>,
}

/// A player's best score, under the name that it was reached with.
#[verifier::ext_equal]
pub struct ScoreModel {
    pub player_name: Seq<char>,
    pub score: u32,
}

/// Whose score it is: the day, the machine or (with none) the whole arcade, and
/// the player's key.
pub type ScoreKeyModel = (u64, Option<u32>, Seq<char>);

#[verifier::ext_equal]
pub struct ArcadeModel {
    pub machines: Seq<MachineModel>,
    pub next_ticket_id: u64,
    pub next_round_id: u64,
    pub cooldown_until: Map<Seq<char>, u64>,
    pub scores: Map<ScoreKeyModel, ScoreModel>,
}

/// Why a request was refused.
#[verifier::ext_equal]
pub enum ErrorModel {
    BadRequest(Seq<char>),
    NotFound(Seq<char>),
    Conflict(Seq<char>),
}

/// The HTTP status that a refusal is answered with.
pub open spec fn error_status(error: ErrorModel) -> u16 {
    match error {
        ErrorModel::BadRequest(_) => 400,
        ErrorModel::NotFound(_) => 404,
        ErrorModel::Conflict(_) => 409,
    }
}

/// What a refusal says.
pub open spec fn error_text(error: ErrorModel) -> Seq<char> {
    match error {
        ErrorModel::BadRequest(t) => t,
        ErrorModel::NotFound(t) => t,
        ErrorModel::Conflict(t) => t,
    }
}

/// A row of a queue as it is shown.
#[verifier::ext_equal]
pub struct RowModel {
    pub ticket_id: u64,
    pub player_name: Seq<char>,
    pub joined_unix_ms: u64,
    pub position: nat,
}

/// A call as it is shown.
#[verifier::ext_equal]
pub struct CallViewModel {
    pub side: Side,
    pub ticket_id: u64,
    pub player_name: Seq<char>,
    pub expires_unix_ms: u64,
    pub remaining_ms: u64,
}

/// A machine as it is shown on its own.
#[verifier::ext_equal]
pub struct DetailModel {
    pub id: u32,
    pub name: Seq<char>,
    pub status: MachineStatus,
    pub left_player: Option<Seq<char>>,
    pub right_player: Option<Seq<char>>,
    pub left_queue: Seq<RowModel>,
    pub right_queue: Seq<RowModel>,
    pub called: Option<CallViewModel>,
    pub last_round: Option<RoundModel>,
    pub daily_top: Seq<ScoreModel>,
}

/// A machine as it is shown among the others.
#[verifier::ext_equal]
pub struct SummaryModel {
    pub id: u32,
    pub name: Seq<char>,
    pub status: MachineStatus,
    pub left_player: Option<Seq<char>>,
    pub right_player: Option<Seq<char>>,
    pub left_queue_len: nat,
    pub right_queue_len: nat,
    pub called: Option<CallViewModel>,
    pub last_round: Option<RoundModel>,
}

#[verifier::ext_equal]
pub struct OverviewModel {
    pub now_unix_ms: u64,
    pub claim_timeout_ms: u64,
    pub no_show_cooldown_ms: u64,
    pub machines: Seq<SummaryModel>,
    pub daily_global_top: Seq<ScoreModel>,
}

#[verifier::ext_equal]
pub struct JoinModel {
    pub ticket_id: u64,
    pub position: nat,
    pub machine: DetailModel,
}

/// The side that a text names, in any case and with white space around it.
pub open spec fn side_named(raw: Seq<char>) -> Option<Side> {
    if text::folded(raw) == "left"@ {
        Some(Side::Left)
    } else if text::folded(raw) == "right"@ {
        Some(Side::Right)
    } else {
        None
    }
}

pub open spec fn other_side(side: Side) -> Side {
    match side {
        Side::Left => Side::Right,
        Side::Right => Side::Left,
    }
}

impl MachineModel {
    pub open spec fn seat(self, side: Side) -> Option<SeatModel> {
        match side {
            Side::Left => self.left_player,
            Side::Right => self.right_player,
        }
    }

    pub open spec fn queue(self, side: Side) -> Seq<EntryModel> {
        match side {
            Side::Left => self.left_queue,
            Side::Right => self.right_queue,
        }
    }

    pub open spec fn with_seat(self, side: Side, seat: Option<SeatModel>) -> MachineModel {
        match side {
            Side::Left => MachineModel { left_player: seat, ..self },
            Side::Right => MachineModel { right_player: seat, ..self },
        }
    }

    pub open spec fn with_queue(self, side: Side, queue: Seq<EntryModel>) -> MachineModel {
        match side {
            Side::Left => MachineModel { left_queue: queue, ..self },
            Side::Right => MachineModel { right_queue: queue, ..self },
        }
    }

    pub open spec fn with_status(self) -> MachineModel {
        MachineModel { status: status_of(self), ..self }
    }
}

/// The sum of two times, held at the largest time there is.
pub open spec fn later_by(now: u64, span: u64) -> u64 {
    if now + span > u64::MAX {
        u64::MAX
    } else {
        (now + span) as u64
    }
}

pub open spec fn day_of(now: u64) -> u64 {
    now / DAY_MS
}

/// What a machine is doing, by its seats and its call.
pub open spec fn status_of(m: MachineModel) -> MachineStatus {
    if m.called is Some {
        MachineStatus::SeatCall
    } else if m.left_player is Some && m.right_player is Some {
        MachineStatus::MatchLive
    } else {
        MachineStatus::FreePlay
    }
}

/// The call that goes out to the first ticket of a queue.
pub open spec fn call_to(entry: EntryModel, side: Side, now: u64, timeout: u64) -> CallModel {
    CallModel {
        side,
        ticket_id: entry.ticket_id,
        player_name: entry.player_name,
        player_key: entry.player_key,
        expires_unix_ms: later_by(now, timeout),
    }
}

/// The machine once the next player for `side` has been called, where the seat
/// is free and no call is out.
pub open spec fn call_next(m: MachineModel, side: Side, now: u64, timeout: u64) -> MachineModel {
    if m.called is Some || m.seat(side) is Some || m.queue(side).len() == 0 {
        m.with_status()
    } else {
        MachineModel {
            called: Some(call_to(m.queue(side)[0], side, now, timeout)),
            ..m
        }.with_status()
    }
}

/// The machine once the next player has been called: the first in the queue of
/// `side`, or else of the other side, whose seat is free.
pub open spec fn call_either(m: MachineModel, side: Side, now: u64, timeout: u64) -> MachineModel {
    call_next(call_next(m, side, now, timeout), other_side(side), now, timeout)
}

/// The queue without the tickets numbered `ticket`.
pub open spec fn without_ticket(queue: Seq<EntryModel>, ticket: u64) -> Seq<EntryModel>
    decreases queue.len(),
{
    if queue.len() == 0 {
        queue
    } else {
        let front = without_ticket(queue.drop_last(), ticket);
        if queue.last().ticket_id == ticket {
            front
        } else {
            front.push(queue.last())
        }
    }
}

/// Whether a called player has let the time to claim the seat pass.
pub open spec fn missed(m: MachineModel, now: u64) -> bool {
    m.called is Some && m.called->0.expires_unix_ms <= now
}

/// The machine once a missed call has been taken back and the next player has
/// been called.
pub open spec fn tick_machine(m: MachineModel, now: u64) -> MachineModel {
    if missed(m, now) {
        let called = m.called->0;
        call_either(
            MachineModel {
                called: None,
                ..m.with_queue(called.side, without_ticket(m.queue(called.side), called.ticket_id))
            },
            called.side,
            now,
            CLAIM_TIMEOUT_MS,
        )
    } else {
        m.with_status()
    }
}

/// Whether `key` is the player of a missed call.
pub open spec fn no_show(ms: Seq<MachineModel>, now: u64, key: Seq<char>) -> bool {
    exists|i: int|
        0 <= i < ms.len() && missed(#[trigger] ms[i], now) && ms[i].called->0.player_key == key
}

/// The cooldowns at `now`: those that are still running, and a fresh one for
/// everybody who missed a call.
pub open spec fn cooled(until: Map<Seq<char>, u64>, ms: Seq<MachineModel>, now: u64) -> Map<
    Seq<char>,
    u64,
> {
    Map::new(
        |key: Seq<char>| (until.contains_key(key) && until[key] > now) || no_show(ms, now, key),
        |key: Seq<char>|
            if no_show(ms, now, key) {
                later_by(now, NO_SHOW_COOLDOWN_MS)
            } else {
                until[key]
            },
    )
}

/// The arcade once time has come to `now`.
pub open spec fn tick(s: ArcadeModel, now: u64) -> ArcadeModel {
    ArcadeModel {
        machines: Seq::new(s.machines.len(), |i: int| tick_machine(s.machines[i], now)),
        cooldown_until: cooled(s.cooldown_until, s.machines, now),
        ..s
    }
}

/// The name that is shown for what a player typed: its words with one blank
/// between them, cut to the longest name that is shown.
pub open spec fn display_name(raw: Seq<char>) -> Seq<char> {
    text::clipped(text::spaced(text::words(raw)), MAX_PLAYER_NAME_LEN as nat)
}

/// What tells players apart: the name that is shown, in lower case.
pub open spec fn player_key(raw: Seq<char>) -> Seq<char> {
    text::lower(display_name(raw))
}

/// Whether `i` is the first machine with this id.
pub open spec fn is_machine(ms: Seq<MachineModel>, id: u32, i: int) -> bool {
    &&& 0 <= i < ms.len()
    &&& ms[i].id == id
    &&& forall|j: int| 0 <= j < i ==> (#[trigger] ms[j]).id != id
}

pub open spec fn has_machine(ms: Seq<MachineModel>, id: u32) -> bool {
    exists|i: int| #[trigger] is_machine(ms, id, i)
}

pub open spec fn machine_place(ms: Seq<MachineModel>, id: u32) -> int {
    choose|i: int| #[trigger] is_machine(ms, id, i)
}

pub open spec fn machine_missing(id: u32) -> ErrorModel {
    ErrorModel::NotFound("machine "@ + text::decimal(id as nat) + " not found"@)
}

pub open spec fn has_key(queue: Seq<EntryModel>, key: Seq<char>) -> bool {
    exists|k: int| 0 <= k < queue.len() && (#[trigger] queue[k]).player_key == key
}

/// Whether the player waits at this machine or is being called to it.
pub open spec fn waits_at(m: MachineModel, key: Seq<char>) -> bool {
    ||| has_key(m.left_queue, key)
    ||| has_key(m.right_queue, key)
    ||| (m.called is Some && m.called->0.player_key == key)
}

pub open spec fn sits_at(m: MachineModel, key: Seq<char>) -> bool {
    ||| (m.left_player is Some && m.left_player->0.player_key == key)
    ||| (m.right_player is Some && m.right_player->0.player_key == key)
}

pub open spec fn waits(ms: Seq<MachineModel>, key: Seq<char>) -> bool {
    exists|i: int| 0 <= i < ms.len() && waits_at(#[trigger] ms[i], key)
}

pub open spec fn sits(ms: Seq<MachineModel>, key: Seq<char>) -> bool {
    exists|i: int| 0 <= i < ms.len() && sits_at(#[trigger] ms[i], key)
}

/// The seconds that a cooldown still runs, at least one.
pub open spec fn cooldown_seconds(until: u64, now: u64) -> nat {
    if (until - now) / 1000 < 1 {
        1
    } else {
        ((until - now) / 1000) as nat
    }
}

/// Why a player with this key may not take a ticket, if so.
pub open spec fn join_conflict(s: ArcadeModel, now: u64, key: Seq<char>) -> Option<Seq<char>> {
    if s.cooldown_until.contains_key(key) && s.cooldown_until[key] > now {
        Some(
            "player is cooling down after no-show; try again in "@ + text::decimal(
                cooldown_seconds(s.cooldown_until[key], now),
            ) + "s"@,
        )
    } else if sits(s.machines, key) {
        Some("player is already seated at a machine"@)
    } else if waits(s.machines, key) {
        Some("player already has an active queue ticket"@)
    } else {
        None
    }
}

/// The machine once a new ticket stands at the end of a queue.
pub open spec fn join_machine(m: MachineModel, side: Side, entry: EntryModel, now: u64) -> MachineModel {
    let grown = m.with_queue(side, m.queue(side).push(entry));
    if m.called is None && m.seat(side) is None {
        call_next(grown, side, now, CLAIM_TIMEOUT_MS)
    } else {
        grown.with_status()
    }
}

/// The arcade with one ticket more, on the machine at `i`.
pub open spec fn join_state(s: ArcadeModel, i: int, side: Side, raw: Seq<char>, now: u64) -> ArcadeModel {
    ArcadeModel {
        machines: s.machines.update(
            i,
            join_machine(
                s.machines[i],
                side,
                EntryModel {
                    ticket_id: s.next_ticket_id,
                    player_name: display_name(raw),
                    player_key: player_key(raw),
                    joined_unix_ms: now,
                },
                now,
            ),
        ),
        next_ticket_id: (s.next_ticket_id + 1) as u64,
        ..s
    }
}

/// What taking a ticket does and answers.
pub open spec fn join_outcome(
    before: ArcadeModel,
    now: u64,
    id: u32,
    raw: Seq<char>,
    side: Side,
    after: ArcadeModel,
    answer: Result<JoinModel, ErrorModel>,
) -> bool {
    let s = tick(before, now);
    if display_name(raw).len() == 0 {
        after == before && answer == Err::<JoinModel, ErrorModel>(
            ErrorModel::BadRequest("player_name is required"@),
        )
    } else if join_conflict(s, now, player_key(raw)) is Some {
        after == s && answer == Err::<JoinModel, ErrorModel>(
            ErrorModel::Conflict(join_conflict(s, now, player_key(raw))->0),
        )
    } else if !has_machine(s.machines, id) {
        after == (ArcadeModel { next_ticket_id: (s.next_ticket_id + 1) as u64, ..s }) && answer
            == Err::<JoinModel, ErrorModel>(machine_missing(id))
    } else {
        let i = machine_place(s.machines, id);
        &&& after == join_state(s, i, side, raw, now)
        &&& answer is Ok
        &&& answer->Ok_0.ticket_id == s.next_ticket_id
        &&& answer->Ok_0.position == s.machines[i].queue(side).len() + 1
        &&& shows(answer->Ok_0.machine, after, i, now)
    }
}

/// Whether `k` is the first place of `ticket` in the queue.
pub open spec fn is_ticket(queue: Seq<EntryModel>, ticket: u64, k: int) -> bool {
    &&& 0 <= k < queue.len()
    &&& queue[k].ticket_id == ticket
    &&& forall|j: int| 0 <= j < k ==> (#[trigger] queue[j]).ticket_id != ticket
}

pub open spec fn has_ticket(queue: Seq<EntryModel>, ticket: u64) -> bool {
    exists|k: int| #[trigger] is_ticket(queue, ticket, k)
}

pub open spec fn ticket_place(queue: Seq<EntryModel>, ticket: u64) -> int {
    choose|k: int| #[trigger] is_ticket(queue, ticket, k)
}

/// The queue without the first ticket numbered `ticket`.
pub open spec fn drop_ticket(queue: Seq<EntryModel>, ticket: u64) -> Seq<EntryModel> {
    if has_ticket(queue, ticket) {
        queue.remove(ticket_place(queue, ticket))
    } else {
        queue
    }
}

/// The machine once `ticket` has left the queue of `side`.
pub open spec fn leave_machine(m: MachineModel, side: Side, ticket: u64, now: u64) -> MachineModel {
    let shorter = m.with_queue(side, drop_ticket(m.queue(side), ticket));
    if m.called is Some && m.called->0.ticket_id == ticket {
        call_either(MachineModel { called: None, ..shorter }, side, now, CLAIM_TIMEOUT_MS)
    } else {
        shorter.with_status()
    }
}

/// The side on which a machine has the ticket, the left one first.
pub open spec fn ticket_side(m: MachineModel, ticket: u64) -> Option<Side> {
    if has_ticket(m.left_queue, ticket) {
        Some(Side::Left)
    } else if has_ticket(m.right_queue, ticket) {
        Some(Side::Right)
    } else {
        None
    }
}

pub open spec fn ticket_missing(ticket: u64, id: u32) -> ErrorModel {
    ErrorModel::NotFound(
        "ticket "@ + text::decimal(ticket as nat) + " not found on machine "@ + text::decimal(id as nat),
    )
}

pub open spec fn ticket_invalid() -> ErrorModel {
    ErrorModel::BadRequest("ticket_id must be a positive integer"@)
}

/// The arcade with the machine at `i` replaced.
pub open spec fn with_machine(s: ArcadeModel, i: int, m: MachineModel) -> ArcadeModel {
    ArcadeModel { machines: s.machines.update(i, m), ..s }
}

/// What giving a ticket back does and answers.
pub open spec fn leave_outcome(
    before: ArcadeModel,
    now: u64,
    id: u32,
    ticket: u64,
    after: ArcadeModel,
    answer: Result<DetailModel, ErrorModel>,
) -> bool {
    let s = tick(before, now);
    if ticket == 0 {
        after == before && answer == Err::<DetailModel, ErrorModel>(ticket_invalid())
    } else if !has_machine(s.machines, id) {
        after == s && answer == Err::<DetailModel, ErrorModel>(machine_missing(id))
    } else {
        let i = machine_place(s.machines, id);
        match ticket_side(s.machines[i], ticket) {
            None => after == s && answer == Err::<DetailModel, ErrorModel>(
                ticket_missing(ticket, id),
            ),
            Some(side) => {
                &&& after == with_machine(s, i, leave_machine(s.machines[i], side, ticket, now))
                &&& answer is Ok
                &&& shows(answer->Ok_0, after, i, now)
            },
        }
    }
}

/// The machine once the called player has sat down and the other seat's next
/// player has been called.
pub open spec fn claim_machine(m: MachineModel, now: u64) -> MachineModel {
    let called = m.called->0;
    let seated = MachineModel {
        called: None,
        ..m.with_queue(called.side, drop_ticket(m.queue(called.side), called.ticket_id)).with_seat(
            called.side,
            Some(SeatModel { player_name: called.player_name, player_key: called.player_key }),
        )
    };
    call_next(seated, other_side(called.side), now, CLAIM_TIMEOUT_MS)
}

/// Why the ticket may not claim a seat at this machine, if so.
pub open spec fn claim_conflict(m: MachineModel, ticket: u64) -> Option<Seq<char>> {
    if m.called is None {
        Some("no seat is currently being called"@)
    } else if m.called->0.ticket_id != ticket {
        Some(
            "ticket "@ + text::decimal(ticket as nat) + " is not currently called (active ticket: "@
                + text::decimal(m.called->0.ticket_id as nat) + ")"@,
        )
    } else if m.seat(m.called->0.side) is Some {
        Some("that side is already occupied"@)
    } else {
        None
    }
}

/// What claiming a seat does and answers.
pub open spec fn claim_outcome(
    before: ArcadeModel,
    now: u64,
    id: u32,
    ticket: u64,
    after: ArcadeModel,
    answer: Result<DetailModel, ErrorModel>,
) -> bool {
    let s = tick(before, now);
    if ticket == 0 {
        after == before && answer == Err::<DetailModel, ErrorModel>(ticket_invalid())
    } else if !has_machine(s.machines, id) {
        after == s && answer == Err::<DetailModel, ErrorModel>(machine_missing(id))
    } else {
        let i = machine_place(s.machines, id);
        match claim_conflict(s.machines[i], ticket) {
            Some(why) => after == s && answer == Err::<DetailModel, ErrorModel>(
                ErrorModel::Conflict(why),
            ),
            None => {
                &&& after == with_machine(s, i, claim_machine(s.machines[i], now))
                &&& answer is Ok
                &&& shows(answer->Ok_0, after, i, now)
            },
        }
    }
}

/// The scores once a player has reached `score` on one board: the better score
/// stays, and of two equal ones the newer.
pub open spec fn with_score(
    scores: Map<ScoreKeyModel, ScoreModel>,
    key: ScoreKeyModel,
    name: Seq<char>,
    score: u32,
) -> Map<ScoreKeyModel, ScoreModel> {
    if scores.contains_key(key) && score < scores[key].score {
        scores
    } else {
        scores.insert(key, ScoreModel { player_name: name, score })
    }
}

/// The scores once a player has reached `score` at a machine: on that machine's
/// board and on the arcade's.
pub open spec fn with_result(
    scores: Map<ScoreKeyModel, ScoreModel>,
    day: u64,
    id: u32,
    player: SeatModel,
    score: u32,
) -> Map<ScoreKeyModel, ScoreModel> {
    with_score(
        with_score(scores, (day, Some(id), player.player_key), player.player_name, score),
        (day, None, player.player_key),
        player.player_name,
        score,
    )
}

/// The machine once a round has ended: the loser's seat is free and the next
/// challenger has been called to it.
pub open spec fn end_machine(m: MachineModel, round: RoundModel, now: u64) -> MachineModel {
    let loser = other_side(round.winner_side);
    call_next(
        MachineModel { last_round: Some(round), called: None, ..m.with_seat(loser, None) },
        loser,
        now,
        CLAIM_TIMEOUT_MS,
    )
}

/// The arcade once a round has ended at the machine at `i`.
pub open spec fn end_state(
    s: ArcadeModel,
    i: int,
    winner: Side,
    left_score: u32,
    right_score: u32,
    now: u64,
) -> ArcadeModel {
    let m = s.machines[i];
    let left = m.left_player->0;
    let right = m.right_player->0;
    let round = RoundModel {
        round_id: s.next_round_id,
        left_player: left.player_name,
        right_player: right.player_name,
        winner_side: winner,
        left_score,
        right_score,
        ended_unix_ms: now,
    };
    ArcadeModel {
        machines: s.machines.update(i, end_machine(m, round, now)),
        next_round_id: (s.next_round_id + 1) as u64,
        scores: with_result(
            with_result(s.scores, day_of(now), m.id, left, left_score),
            day_of(now),
            m.id,
            right,
            right_score,
        ),
        ..s
    }
}

/// Why no round can end at this machine, if so.
pub open spec fn end_conflict(m: MachineModel) -> Option<Seq<char>> {
    if m.left_player is None {
        Some("cannot end round without a left player"@)
    } else if m.right_player is None {
        Some("cannot end round without a right player"@)
    } else {
        None
    }
}

/// What ending a round does and answers.
pub open spec fn end_outcome(
    before: ArcadeModel,
    now: u64,
    id: u32,
    winner: Side,
    left_score: u32,
    right_score: u32,
    after: ArcadeModel,
    answer: Result<DetailModel, ErrorModel>,
) -> bool {
    let s = tick(before, now);
    let counted = ArcadeModel { next_round_id: (s.next_round_id + 1) as u64, ..s };
    if !has_machine(s.machines, id) {
        after == counted && answer == Err::<DetailModel, ErrorModel>(machine_missing(id))
    } else {
        let i = machine_place(s.machines, id);
        match end_conflict(s.machines[i]) {
            Some(why) => after == counted && answer == Err::<DetailModel, ErrorModel>(
                ErrorModel::Conflict(why),
            ),
            None => {
                &&& after == end_state(s, i, winner, left_score, right_score, now)
                &&& answer is Ok
                &&& shows(answer->Ok_0, after, i, now)
            },
        }
    }
}

pub open spec fn on_board(key: ScoreKeyModel, day: u64, board: Option<u32>) -> bool {
    key.0 == day && key.1 == board
}

/// Whether `a` may stand before `b` in a ranking: the higher score first, and
/// of equal scores the name that comes first.
pub open spec fn ranks_before(a: ScoreModel, b: ScoreModel) -> bool {
    a.score > b.score || (a.score == b.score && text::name_le(a.player_name, b.player_name))
}

/// Whether `keys` lists the scores of a board, each once, in the order of the
/// ranking.
pub open spec fn is_ranking(
    keys: Seq<ScoreKeyModel>,
    scores: Map<ScoreKeyModel, ScoreModel>,
    day: u64,
    board: Option<u32>,
) -> bool {
    &&& keys.no_duplicates()
    &&& forall|k: ScoreKeyModel|
        #[trigger] keys.contains(k) <==> (scores.contains_key(k) && on_board(k, day, board))
    &&& forall|i: int, j: int|
        0 <= i < j < keys.len() ==> ranks_before(
            scores[#[trigger] keys[i]],
            scores[#[trigger] keys[j]],
        )
}

/// The first rows of a ranking.
pub open spec fn first_rows(
    keys: Seq<ScoreKeyModel>,
    scores: Map<ScoreKeyModel, ScoreModel>,
) -> Seq<ScoreModel> {
    Seq::new(
        if keys.len() <= SCORE_LIMIT {
            keys.len()
        } else {
            SCORE_LIMIT as nat
        },
        |i: int| scores[keys[i]],
    )
}

/// Whether `rows` are the best scores of a board on a day.
pub open spec fn is_top(
    rows: Seq<ScoreModel>,
    scores: Map<ScoreKeyModel, ScoreModel>,
    day: u64,
    board: Option<u32>,
) -> bool {
    exists|keys: Seq<ScoreKeyModel>| #[trigger]
        is_ranking(keys, scores, day, board) && rows == first_rows(keys, scores)
}

pub open spec fn name_on(seat: Option<SeatModel>) -> Option<Seq<char>> {
    match seat {
        Some(player) => Some(player.player_name),
        None => None,
    }
}

pub open spec fn rows_of(queue: Seq<EntryModel>) -> Seq<RowModel> {
    Seq::new(
        queue.len(),
        |i: int|
            RowModel {
                ticket_id: queue[i].ticket_id,
                player_name: queue[i].player_name,
                joined_unix_ms: queue[i].joined_unix_ms,
                position: (i + 1) as nat,
            },
    )
}

/// The time from `now` until `until`, none where that has passed.
pub open spec fn time_left(until: u64, now: u64) -> u64 {
    if until <= now {
        0
    } else {
        (until - now) as u64
    }
}

pub open spec fn call_shown(called: Option<CallModel>, now: u64) -> Option<CallViewModel> {
    match called {
        Some(c) => Some(
            CallViewModel {
                side: c.side,
                ticket_id: c.ticket_id,
                player_name: c.player_name,
                expires_unix_ms: c.expires_unix_ms,
                remaining_ms: time_left(c.expires_unix_ms, now),
            },
        ),
        None => None,
    }
}

pub open spec fn detail_of(m: MachineModel, now: u64, top: Seq<ScoreModel>) -> DetailModel {
    DetailModel {
        id: m.id,
        name: m.name,
        status: m.status,
        left_player: name_on(m.left_player),
        right_player: name_on(m.right_player),
        left_queue: rows_of(m.left_queue),
        right_queue: rows_of(m.right_queue),
        called: call_shown(m.called, now),
        last_round: m.last_round,
        daily_top: top,
    }
}

pub open spec fn summary_of(m: MachineModel, now: u64) -> SummaryModel {
    SummaryModel {
        id: m.id,
        name: m.name,
        status: m.status,
        left_player: name_on(m.left_player),
        right_player: name_on(m.right_player),
        left_queue_len: m.left_queue.len(),
        right_queue_len: m.right_queue.len(),
        called: call_shown(m.called, now),
        last_round: m.last_round,
    }
}

/// Whether `detail` shows the machine at `i` as it stands at `now`, with the
/// best scores of that day.
pub open spec fn shows(detail: DetailModel, s: ArcadeModel, i: int, now: u64) -> bool {
    &&& is_top(detail.daily_top, s.scores, day_of(now), Some(s.machines[i].id))
    &&& detail == detail_of(s.machines[i], now, detail.daily_top)
}

/// What asking for one machine does and answers.
pub open spec fn machine_outcome(
    before: ArcadeModel,
    now: u64,
    id: u32,
    after: ArcadeModel,
    answer: Result<DetailModel, ErrorModel>,
) -> bool {
    &&& after == tick(before, now)
    &&& if has_machine(after.machines, id) {
        answer is Ok && shows(answer->Ok_0, after, machine_place(after.machines, id), now)
    } else {
        answer == Err::<DetailModel, ErrorModel>(machine_missing(id))
    }
}

/// What asking for all machines does and answers.
pub open spec fn overview_outcome(
    before: ArcadeModel,
    now: u64,
    after: ArcadeModel,
    answer: OverviewModel,
) -> bool {
    &&& after == tick(before, now)
    &&& answer.now_unix_ms == now
    &&& answer.claim_timeout_ms == CLAIM_TIMEOUT_MS
    &&& answer.no_show_cooldown_ms == NO_SHOW_COOLDOWN_MS
    &&& answer.machines == Seq::new(
        after.machines.len(),
        |i: int| summary_of(after.machines[i], now),
    )
    &&& is_top(answer.daily_global_top, after.scores, day_of(now), None)
}

/// A new arcade: `count` machines, at least one, numbered from one, all idle.
pub open spec fn fresh_machine(id: u32) -> MachineModel {
    MachineModel {
        id,
        name: "Machine "@ + text::decimal(id as nat),
        status: MachineStatus::FreePlay,
        left_player: None,
        right_player: None,
        left_queue: Seq::empty(),
        right_queue: Seq::empty(),
        called: None,
        last_round: None,
    }
}

pub open spec fn fresh_arcade(count: u32) -> ArcadeModel {
    ArcadeModel {
        machines: Seq::new(
            if count == 0 {
                1
            } else {
                count as nat
            },
            |i: int| fresh_machine((i + 1) as u32),
        ),
        next_ticket_id: 1,
        next_round_id: 1,
        cooldown_until: Map::empty(),
        scores: Map::empty(),
    }
}

// What every operation keeps.

/// A place of a machine that a player can have.
pub enum Place {
    LeftSeat,
    RightSeat,
    LeftLine(int),
    RightLine(int),
}

/// The player at a place.
pub open spec fn key_at(m: MachineModel, p: Place) -> Option<Seq<char>> {
    match p {
        Place::LeftSeat => match m.left_player {
            Some(player) => Some(player.player_key),
            None => None,
        },
        Place::RightSeat => match m.right_player {
            Some(player) => Some(player.player_key),
            None => None,
        },
        Place::LeftLine(k) => if 0 <= k < m.left_queue.len() {
            Some(m.left_queue[k].player_key)
        } else {
            None
        },
        Place::RightLine(k) => if 0 <= k < m.right_queue.len() {
            Some(m.right_queue[k].player_key)
        } else {
            None
        },
    }
}

/// The ticket at a place.
pub open spec fn ticket_at(m: MachineModel, p: Place) -> Option<u64> {
    match p {
        Place::LeftLine(k) => if 0 <= k < m.left_queue.len() {
            Some(m.left_queue[k].ticket_id)
        } else {
            None
        },
        Place::RightLine(k) => if 0 <= k < m.right_queue.len() {
            Some(m.right_queue[k].ticket_id)
        } else {
            None
        },
        _ => None,
    }
}

/// No player has two places in the arcade.
pub open spec fn one_place_each(ms: Seq<MachineModel>) -> bool {
    forall|i: int, p: Place, j: int, q: Place|
        0 <= i < ms.len() && 0 <= j < ms.len() && #[trigger] key_at(ms[i], p) is Some && key_at(
            ms[i],
            p,
        ) == #[trigger] key_at(ms[j], q) ==> i == j && p == q
}

/// No ticket was given out twice.
pub open spec fn one_ticket_each(ms: Seq<MachineModel>) -> bool {
    forall|i: int, p: Place, j: int, q: Place|
        0 <= i < ms.len() && 0 <= j < ms.len() && #[trigger] ticket_at(ms[i], p) is Some
            && ticket_at(ms[i], p) == #[trigger] ticket_at(ms[j], q) ==> i == j && p == q
}

/// Every ticket that is out was given out: it is at least one and below the
/// next one.
pub open spec fn tickets_known(ms: Seq<MachineModel>, next: u64) -> bool {
    forall|i: int, p: Place|
        0 <= i < ms.len() && #[trigger] ticket_at(ms[i], p) is Some ==> 1 <= ticket_at(ms[i], p)->0
            < next
}

/// Tickets stand in the order in which they were given out.
pub open spec fn in_order(queue: Seq<EntryModel>) -> bool {
    forall|a: int, b: int|
        0 <= a < b < queue.len() ==> (#[trigger] queue[a]).ticket_id < (
        #[trigger] queue[b]).ticket_id
}

/// A call goes to the first in the queue of a free seat.
pub open spec fn call_sound(m: MachineModel) -> bool {
    m.called is Some ==> {
        let c = m.called->0;
        &&& m.seat(c.side) is None
        &&& m.queue(c.side).len() > 0
        &&& m.queue(c.side)[0].ticket_id == c.ticket_id
        &&& m.queue(c.side)[0].player_name == c.player_name
        &&& m.queue(c.side)[0].player_key == c.player_key
    }
}

/// A player's key is the name that is shown, in lower case, and nobody is without
/// a name.
pub open spec fn named(player_name: Seq<char>, player_key: Seq<char>) -> bool {
    player_name.len() > 0 && player_key == text::lower(player_name)
}

/// Everybody in the queue has a name and the key of that name.
pub open spec fn all_named(queue: Seq<EntryModel>) -> bool {
    forall|k: int|
        0 <= k < queue.len() ==> named(
            (#[trigger] queue[k]).player_name,
            queue[k].player_key,
        )
}

/// Nobody waits for a free seat while no call is out.
pub open spec fn none_overlooked(m: MachineModel) -> bool {
    m.called is None ==> {
        &&& m.left_player is Some || m.left_queue.len() == 0
        &&& m.right_player is Some || m.right_queue.len() == 0
    }
}

/// A machine shows what it is doing, its queues are in order, its call goes to
/// whom it should, and everybody has a name.
pub open spec fn machine_sound(m: MachineModel) -> bool {
    &&& m.status == status_of(m)
    &&& in_order(m.left_queue)
    &&& in_order(m.right_queue)
    &&& call_sound(m)
    &&& none_overlooked(m)
    &&& players_named(m)
}

/// Everybody at the machine has a name and the key of that name.
pub open spec fn players_named(m: MachineModel) -> bool {
    &&& all_named(m.left_queue)
    &&& all_named(m.right_queue)
    &&& m.left_player is Some ==> named(m.left_player->0.player_name, m.left_player->0.player_key)
    &&& m.right_player is Some ==> named(
        m.right_player->0.player_name,
        m.right_player->0.player_key,
    )
}

/// Whether a player's best of a day in the whole arcade is the one at machine
/// `id`.
pub open spec fn best_is_at(
    scores: Map<ScoreKeyModel, ScoreModel>,
    day: u64,
    key: Seq<char>,
    id: u32,
) -> bool {
    &&& scores.contains_key((day, Some(id), key))
    &&& scores[(day, Some(id), key)].score == scores[(day, None, key)].score
}

/// A score is under the key of its name, and a player's best of a day in the
/// whole arcade is the best of those at the machines.
pub open spec fn scores_sound(scores: Map<ScoreKeyModel, ScoreModel>) -> bool {
    &&& forall|k: ScoreKeyModel| #[trigger]
        scores.contains_key(k) ==> named(scores[k].player_name, k.2)
    &&& forall|day: u64, id: u32, key: Seq<char>| #[trigger]
        scores.contains_key((day, Some(id), key)) ==> scores.contains_key((day, None, key))
            && scores[(day, Some(id), key)].score <= scores[(day, None, key)].score
    &&& forall|day: u64, key: Seq<char>| #[trigger]
        scores.contains_key((day, None, key)) ==> exists|id: u32| #[trigger]
            best_is_at(scores, day, key, id)
}

/// What holds of the arcade at all times.
pub open spec fn sound(s: ArcadeModel) -> bool {
    &&& s.machines.len() >= 1
    &&& forall|i: int| 0 <= i < s.machines.len() ==> (#[trigger] s.machines[i]).id == i + 1
    &&& forall|i: int| 0 <= i < s.machines.len() ==> machine_sound(#[trigger] s.machines[i])
    &&& one_place_each(s.machines)
    &&& one_ticket_each(s.machines)
    &&& tickets_known(s.machines, s.next_ticket_id)
    &&& s.next_ticket_id >= 1
    &&& s.next_round_id >= 1
    &&& scores_sound(s.scores)
}

} // verus!
