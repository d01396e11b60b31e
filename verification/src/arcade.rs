//! The arcade: who plays at which machine, who waits, and who is called next.

use vstd::prelude::*;

use crate::arcade_laws as laws;
use crate::arcade_model as model;
use crate::arcade_model::{
    ArcadeModel, CallModel, CallViewModel, DetailModel, EntryModel, ErrorModel, JoinModel,
    MachineModel, OverviewModel, RoundModel, RowModel, ScoreModel, SeatModel, SummaryModel,
    CLAIM_TIMEOUT_MS, DAY_MS, MAX_PLAYER_NAME_LEN, NO_SHOW_COOLDOWN_MS, SCORE_LIMIT,
};
use crate::clock::now_unix_ms;
use crate::table::{Table, TableKey};
use crate::text;

verus! {

/// One of a machine's two seats.
#[derive(Debug, Clone, Copy, PartialEq, Eq, Structural)]
pub enum Side {
    Left,
    Right,
}

impl Side {
    /// The side that `raw` names, in any case and with white space around it.
    pub fn parse(raw: &str) -> (side: Option<Self>)
        ensures
            side == model::side_named(raw@),
    {
        let folded = text::fold(raw);
        if text::same_text(folded.as_str(), "left") {
            Some(Side::Left)
        } else if text::same_text(folded.as_str(), "right") {
            Some(Side::Right)
        } else {
            None
        }
    }

    pub fn opposite(self) -> (side: Self)
        ensures
            side == model::other_side(self),
    {
        match self {
            Side::Left => Side::Right,
            Side::Right => Side::Left,
        }
    }
}

/// What a machine is doing.
#[derive(Debug, Clone, Copy, PartialEq, Eq, Structural)]
pub enum MachineStatus {
    FreePlay,
    SeatCall,
    MatchLive,
    PostRound,
}

/// Why a request was refused.
#[derive(Debug)]
pub enum ArcadeError {
    BadRequest(String),
    NotFound(String),
    Conflict(String),
}

impl View for ArcadeError {
    type V = ErrorModel;

    open spec fn view(&self) -> ErrorModel {
        match self {
            ArcadeError::BadRequest(why) => ErrorModel::BadRequest(why@),
            ArcadeError::NotFound(why) => ErrorModel::NotFound(why@),
            ArcadeError::Conflict(why) => ErrorModel::Conflict(why@),
        }
    }
}

impl ArcadeError {
    /// The HTTP status that the refusal is answered with.
    pub fn status_code(&self) -> (code: u16)
        ensures
            code == model::error_status(self@),
    {
        match self {
            ArcadeError::BadRequest(_) => 400,
            ArcadeError::NotFound(_) => 404,
            ArcadeError::Conflict(_) => 409,
        }
    }

    pub fn message(&self) -> (why: &str)
        ensures
            why@ == model::error_text(self@),
    {
        match self {
            ArcadeError::BadRequest(why) => why.as_str(),
            ArcadeError::NotFound(why) => why.as_str(),
            ArcadeError::Conflict(why) => why.as_str(),
        }
    }
}

pub open spec fn text_view(text: Option<String>) -> Option<Seq<char>> {
    match text {
        Some(t) => Some(t@),
        None => None,
    }
}

#[derive(Debug, Clone)]
pub struct QueueEntryView {
    pub ticket_id: u64,
    pub player_name: String,
    pub joined_unix_ms: u64,
    pub position: usize,
}

impl View for QueueEntryView {
    type V = RowModel;

    open spec fn view(&self) -> RowModel {
        RowModel {
            ticket_id: self.ticket_id,
            player_name: self.player_name@,
            joined_unix_ms: self.joined_unix_ms,
            position: self.position as nat,
        }
    }
}

pub open spec fn rows_view(rows: Seq<QueueEntryView>) -> Seq<RowModel> {
    Seq::new(rows.len(), |i: int| rows[i]@)
}

#[derive(Debug, Clone)]
pub struct SeatCallView {
    pub side: Side,
    pub ticket_id: u64,
    pub player_name: String,
    pub expires_unix_ms: u64,
    pub remaining_ms: u64,
}

impl View for SeatCallView {
    type V = CallViewModel;

    open spec fn view(&self) -> CallViewModel {
        CallViewModel {
            side: self.side,
            ticket_id: self.ticket_id,
            player_name: self.player_name@,
            expires_unix_ms: self.expires_unix_ms,
            remaining_ms: self.remaining_ms,
        }
    }
}

pub open spec fn call_view(call: Option<SeatCallView>) -> Option<CallViewModel> {
    match call {
        Some(c) => Some(c@),
        None => None,
    }
}

#[derive(Debug, Clone)]
pub struct RoundResultView {
    pub round_id: u64,
    pub left_player: String,
    pub right_player: String,
    pub winner_side: Side,
    pub left_score: u32,
    pub right_score: u32,
    pub ended_unix_ms: u64,
}

impl View for RoundResultView {
    type V = RoundModel;

    open spec fn view(&self) -> RoundModel {
        RoundModel {
            round_id: self.round_id,
            left_player: self.left_player@,
            right_player: self.right_player@,
            winner_side: self.winner_side,
            left_score: self.left_score,
            right_score: self.right_score,
            ended_unix_ms: self.ended_unix_ms,
        }
    }
}

pub open spec fn round_shown(round: Option<RoundResultView>) -> Option<RoundModel> {
    match round {
        Some(r) => Some(r@),
        None => None,
    }
}

#[derive(Debug, Clone)]
pub struct DailyScoreView {
    pub player_name: String,
    pub score: u32,
}

impl View for DailyScoreView {
    type V = ScoreModel;

    open spec fn view(&self) -> ScoreModel {
        ScoreModel { player_name: self.player_name@, score: self.score }
    }
}

pub open spec fn top_view(rows: Seq<DailyScoreView>) -> Seq<ScoreModel> {
    Seq::new(rows.len(), |i: int| rows[i]@)
}

#[derive(Debug, Clone)]
pub struct MachineSummaryView {
    pub id: u32,
    pub name: String,
    pub status: MachineStatus,
    pub left_player: Option<String>,
    pub right_player: Option<String>,
    pub left_queue_len: usize,
    pub right_queue_len: usize,
    pub called: Option<SeatCallView>,
    pub last_round: Option<RoundResultView>,
}

impl View for MachineSummaryView {
    type V = SummaryModel;

    open spec fn view(&self) -> SummaryModel {
        SummaryModel {
            id: self.id,
            name: self.name@,
            status: self.status,
            left_player: text_view(self.left_player),
            right_player: text_view(self.right_player),
            left_queue_len: self.left_queue_len as nat,
            right_queue_len: self.right_queue_len as nat,
            called: call_view(self.called),
            last_round: round_shown(self.last_round),
        }
    }
}

#[derive(Debug, Clone)]
pub struct MachineDetailView {
    pub id: u32,
    pub name: String,
    pub status: MachineStatus,
    pub left_player: Option<String>,
    pub right_player: Option<String>,
    pub left_queue: Vec<QueueEntryView>,
    pub right_queue: Vec<QueueEntryView>,
    pub called: Option<SeatCallView>,
    pub last_round: Option<RoundResultView>,
    pub daily_top: Vec<DailyScoreView>,
}

impl View for MachineDetailView {
    type V = DetailModel;

    open spec fn view(&self) -> DetailModel {
        DetailModel {
            id: self.id,
            name: self.name@,
            status: self.status,
            left_player: text_view(self.left_player),
            right_player: text_view(self.right_player),
            left_queue: rows_view(self.left_queue@),
            right_queue: rows_view(self.right_queue@),
            called: call_view(self.called),
            last_round: round_shown(self.last_round),
            daily_top: top_view(self.daily_top@),
        }
    }
}

#[derive(Debug, Clone)]
pub struct ArcadeOverview {
    pub now_unix_ms: u64,
    pub claim_timeout_ms: u64,
    pub no_show_cooldown_ms: u64,
    pub machines: Vec<MachineSummaryView>,
    pub daily_global_top: Vec<DailyScoreView>,
}

pub open spec fn summaries_view(rows: Seq<MachineSummaryView>) -> Seq<SummaryModel> {
    Seq::new(rows.len(), |i: int| rows[i]@)
}

impl View for ArcadeOverview {
    type V = OverviewModel;

    open spec fn view(&self) -> OverviewModel {
        OverviewModel {
            now_unix_ms: self.now_unix_ms,
            claim_timeout_ms: self.claim_timeout_ms,
            no_show_cooldown_ms: self.no_show_cooldown_ms,
            machines: summaries_view(self.machines@),
            daily_global_top: top_view(self.daily_global_top@),
        }
    }
}

#[derive(Debug, Clone)]
pub struct JoinResult {
    pub ticket_id: u64,
    pub position: usize,
    pub machine: MachineDetailView,
}

impl View for JoinResult {
    type V = JoinModel;

    open spec fn view(&self) -> JoinModel {
        JoinModel {
            ticket_id: self.ticket_id,
            position: self.position as nat,
            machine: self.machine@,
        }
    }
}

pub open spec fn detail_answer(answer: Result<MachineDetailView, ArcadeError>) -> Result<
    DetailModel,
    ErrorModel,
> {
    match answer {
        Ok(detail) => Ok(detail@),
        Err(error) => Err(error@),
    }
}

pub open spec fn join_answer(answer: Result<JoinResult, ArcadeError>) -> Result<
    JoinModel,
    ErrorModel,
> {
    match answer {
        Ok(joined) => Ok(joined@),
        Err(error) => Err(error@),
    }
}

/// A player on a seat.
#[derive(Debug, Clone)]
pub struct SeatPlayer {
    pub player_name: String,
    pub player_key: String,
}

impl View for SeatPlayer {
    type V = SeatModel;

    open spec fn view(&self) -> SeatModel {
        SeatModel { player_name: self.player_name@, player_key: self.player_key@ }
    }
}

pub open spec fn seat_view(seat: Option<SeatPlayer>) -> Option<SeatModel> {
    match seat {
        Some(player) => Some(player@),
        None => None,
    }
}

/// A ticket in a queue.
#[derive(Debug, Clone)]
pub struct QueueEntry {
    pub ticket_id: u64,
    pub player_name: String,
    pub player_key: String,
    pub joined_unix_ms: u64,
}

impl View for QueueEntry {
    type V = EntryModel;

    open spec fn view(&self) -> EntryModel {
        EntryModel {
            ticket_id: self.ticket_id,
            player_name: self.player_name@,
            player_key: self.player_key@,
            joined_unix_ms: self.joined_unix_ms,
        }
    }
}

pub open spec fn line_view(queue: Seq<QueueEntry>) -> Seq<EntryModel> {
    Seq::new(queue.len(), |i: int| queue[i]@)
}

/// The call of a ticket to a seat.
#[derive(Debug, Clone)]
pub struct SeatCall {
    pub side: Side,
    pub ticket_id: u64,
    pub player_name: String,
    pub player_key: String,
    pub expires_unix_ms: u64,
}

impl View for SeatCall {
    type V = CallModel;

    open spec fn view(&self) -> CallModel {
        CallModel {
            side: self.side,
            ticket_id: self.ticket_id,
            player_name: self.player_name@,
            player_key: self.player_key@,
            expires_unix_ms: self.expires_unix_ms,
        }
    }
}

pub open spec fn called_view(call: Option<SeatCall>) -> Option<CallModel> {
    match call {
        Some(c) => Some(c@),
        None => None,
    }
}

/// A round that was played.
#[derive(Debug, Clone)]
pub struct RoundResult {
    pub round_id: u64,
    pub left_player: String,
    pub right_player: String,
    pub winner_side: Side,
    pub left_score: u32,
    pub right_score: u32,
    pub ended_unix_ms: u64,
}

impl View for RoundResult {
    type V = RoundModel;

    open spec fn view(&self) -> RoundModel {
        RoundModel {
            round_id: self.round_id,
            left_player: self.left_player@,
            right_player: self.right_player@,
            winner_side: self.winner_side,
            left_score: self.left_score,
            right_score: self.right_score,
            ended_unix_ms: self.ended_unix_ms,
        }
    }
}

pub open spec fn round_view(round: Option<RoundResult>) -> Option<RoundModel> {
    match round {
        Some(r) => Some(r@),
        None => None,
    }
}

#[derive(Debug, Clone)]
pub struct MachineState {
    pub id: u32,
    pub name: String,
    pub status: MachineStatus,
    pub left_player: Option<SeatPlayer>,
    pub right_player: Option<SeatPlayer>,
    pub left_queue: Vec<QueueEntry>,
    pub right_queue: Vec<QueueEntry>,
    pub called: Option<SeatCall>,
    pub last_round: Option<RoundResult>,
}

impl View for MachineState {
    type V = MachineModel;

    open spec fn view(&self) -> MachineModel {
        MachineModel {
            id: self.id,
            name: self.name@,
            status: self.status,
            left_player: seat_view(self.left_player),
            right_player: seat_view(self.right_player),
            left_queue: line_view(self.left_queue@),
            right_queue: line_view(self.right_queue@),
            called: called_view(self.called),
            last_round: round_view(self.last_round),
        }
    }
}

pub open spec fn machines_view(ms: Seq<MachineState>) -> Seq<MachineModel> {
    Seq::new(ms.len(), |i: int| ms[i]@)
}

impl MachineState {
    fn side_queue(&self, side: Side) -> (queue: &Vec<QueueEntry>)
        ensures
            line_view(queue@) == self@.queue(side),
    {
        match side {
            Side::Left => &self.left_queue,
            Side::Right => &self.right_queue,
        }
    }

    fn side_queue_mut(&mut self, side: Side) -> (queue: &mut Vec<QueueEntry>)
        ensures
            line_view(queue@) == old(self)@.queue(side),
            final(self)@ == old(self)@.with_queue(side, line_view(final(queue)@)),
    {
        match side {
            Side::Left => &mut self.left_queue,
            Side::Right => &mut self.right_queue,
        }
    }

    fn seat_taken(&self, side: Side) -> (taken: bool)
        ensures
            taken == (self@.seat(side) is Some),
    {
        match side {
            Side::Left => self.left_player.is_some(),
            Side::Right => self.right_player.is_some(),
        }
    }

    fn seat_mut(&mut self, side: Side) -> (seat: &mut Option<SeatPlayer>)
        ensures
            seat_view(*seat) == old(self)@.seat(side),
            final(self)@ == old(self)@.with_seat(side, seat_view(*final(seat))),
    {
        match side {
            Side::Left => &mut self.left_player,
            Side::Right => &mut self.right_player,
        }
    }
}

/// What a machine is doing, by its seats and its call.
pub fn derive_status(machine: &MachineState) -> (status: MachineStatus)
    ensures
        status == model::status_of(machine@),
{
    if machine.called.is_some() {
        MachineStatus::SeatCall
    } else if machine.left_player.is_some() && machine.right_player.is_some() {
        MachineStatus::MatchLive
    } else {
        MachineStatus::FreePlay
    }
}

/// Calls the next player for a side, where the seat is free and no call is out.
pub fn call_next_for_side(machine: &mut MachineState, side: Side, now: u64, claim_timeout_ms: u64)
    ensures
        final(machine)@ == model::call_next(old(machine)@, side, now, claim_timeout_ms),
{
    if machine.called.is_none() && !machine.seat_taken(side) && machine.side_queue(side).len() > 0 {
        let queue = machine.side_queue(side);
        let call = SeatCall {
            side,
            ticket_id: queue[0].ticket_id,
            player_name: queue[0].player_name.clone(),
            player_key: queue[0].player_key.clone(),
            expires_unix_ms: now.saturating_add(claim_timeout_ms),
        };
        assert(call@ == model::call_to(machine@.queue(side)[0], side, now, claim_timeout_ms));
        machine.called = Some(call);
    }
    machine.status = derive_status(machine);
}

/// Calls the next player: for a side, or else for the other one.
fn call_next_for_either(machine: &mut MachineState, side: Side, now: u64, claim_timeout_ms: u64)
    ensures
        final(machine)@ == model::call_either(old(machine)@, side, now, claim_timeout_ms),
{
    call_next_for_side(machine, side, now, claim_timeout_ms);
    call_next_for_side(machine, side.opposite(), now, claim_timeout_ms);
}

/// The day that a time falls on, counted from the epoch.
pub fn day_key(now_unix_ms: u64) -> (day: u64)
    ensures
        day == model::day_of(now_unix_ms),
{
    now_unix_ms / DAY_MS
}

/// The name that is shown for what a player typed, and the key that tells
/// players apart.
pub fn normalize_player_name(raw: &str) -> (names: Result<(String, String), ArcadeError>)
    ensures
        match names {
            Ok((shown, key)) => model::display_name(raw@).len() > 0 && shown@
                == model::display_name(raw@) && key@ == model::player_key(raw@),
            Err(error) => model::display_name(raw@).len() == 0 && error@ == ErrorModel::BadRequest(
                "player_name is required"@,
            ),
        },
{
    let condensed = text::condense(raw);
    let display_name = text::clip(condensed.as_str(), MAX_PLAYER_NAME_LEN);
    let chars = text::chars_of(display_name.as_str());
    if chars.len() == 0 {
        return Err(ArcadeError::BadRequest("player_name is required".to_owned()));
    }
    let player_key = text::to_lower(display_name.as_str());
    Ok((display_name, player_key))
}

/// Whose score it is: the day, the machine or (with none) the whole arcade, and
/// the player's key.
#[derive(Debug, Clone)]
pub struct ScoreKey {
    pub day: u64,
    pub machine_id: Option<u32>,
    pub player_key: String,
}

impl View for ScoreKey {
    type V = (u64, Option<u32>, Seq<char>);

    open spec fn view(&self) -> (u64, Option<u32>, Seq<char>) {
        (self.day, self.machine_id, self.player_key@)
    }
}

impl TableKey for ScoreKey {
    fn same_key(&self, other: &Self) -> (same: bool) {
        let same_board: bool = match (self.machine_id, other.machine_id) {
            (Some(a), Some(b)) => a == b,
            (None, None) => true,
            _ => false,
        };
        self.day == other.day && same_board && self.player_key == other.player_key
    }
}

/// A player's best score, under the name that it was reached with.
#[derive(Debug, Clone)]
pub struct ScoreState {
    pub player_name: String,
    pub score: u32,
}

impl View for ScoreState {
    type V = ScoreModel;

    open spec fn view(&self) -> ScoreModel {
        ScoreModel { player_name: self.player_name@, score: self.score }
    }
}

/// What a table of scores stands for.
pub open spec fn scores_view(table: Map<(u64, Option<u32>, Seq<char>), ScoreState>) -> Map<
    (u64, Option<u32>, Seq<char>),
    ScoreModel,
> {
    table.map_values(|s: ScoreState| s@)
}

#[derive(Debug)]
pub struct ArcadeState {
    pub machines: Vec<MachineState>,
    pub next_ticket_id: u64,
    pub next_round_id: u64,
    pub cooldown_until: Table<String, u64>,
    pub scores: Table<ScoreKey, ScoreState>,
}

impl View for ArcadeState {
    type V = ArcadeModel;

    open spec fn view(&self) -> ArcadeModel {
        ArcadeModel {
            machines: machines_view(self.machines@),
            next_ticket_id: self.next_ticket_id,
            next_round_id: self.next_round_id,
            cooldown_until: self.cooldown_until@,
            scores: scores_view(self.scores@),
        }
    }
}

/// Takes the tickets numbered `ticket` out of a queue.
fn retain_others(queue: &mut Vec<QueueEntry>, ticket: u64)
    ensures
        line_view(final(queue)@) == model::without_ticket(line_view(old(queue)@), ticket),
{
    let ghost all = line_view(queue@);
    let ghost mut done: int = 0;
    let mut i: usize = 0;
    assert(model::without_ticket(all.take(0), ticket) =~= Seq::<EntryModel>::empty());
    assert(line_view(queue@) =~= model::without_ticket(all.take(0), ticket) + all.skip(0));
    while i < queue.len()
        invariant
            0 <= done <= all.len(),
            i == model::without_ticket(all.take(done), ticket).len(),
            line_view(queue@) == model::without_ticket(all.take(done), ticket) + all.skip(done),
        decreases all.len() - done,
    {
        let ghost before = line_view(queue@);
        proof {
            assert(queue@.len() == before.len());
            assert(done < all.len());
            assert(before[i as int] == all.skip(done)[0]);
            assert(before[i as int] == queue@[i as int]@);
            assert(all.take(done + 1).drop_last() =~= all.take(done));
            assert(all.take(done + 1).last() == all[done]);
        }
        if queue[i].ticket_id == ticket {
            let _ = queue.remove(i);
            proof {
                assert(line_view(queue@) =~= before.remove(i as int));
                assert(line_view(queue@) =~= model::without_ticket(all.take(done + 1), ticket)
                    + all.skip(done + 1));
            }
        } else {
            i += 1;
            proof {
                assert(line_view(queue@) =~= model::without_ticket(all.take(done + 1), ticket)
                    + all.skip(done + 1));
            }
        }
        proof {
            done = done + 1;
        }
    }
    proof {
        assert(all.skip(done).len() == 0);
        assert(all.take(done) =~= all);
        assert(line_view(queue@) =~= model::without_ticket(all, ticket));
    }
}

/// Lets time come to `now` at one machine, and says who missed a call.
fn tick_one(machine: &mut MachineState, now: u64) -> (no_show: Option<String>)
    ensures
        final(machine)@ == model::tick_machine(old(machine)@, now),
        no_show is Some <==> model::missed(old(machine)@, now),
        no_show is Some ==> no_show->0@ == old(machine)@.called->0.player_key,
{
    let (side, ticket, player_key) = match &machine.called {
        Some(called) if called.expires_unix_ms <= now => (
            called.side,
            called.ticket_id,
            called.player_key.clone(),
        ),
        _ => {
            machine.status = derive_status(machine);
            return None;
        },
    };
    retain_others(machine.side_queue_mut(side), ticket);
    machine.called = None;
    call_next_for_either(machine, side, now, CLAIM_TIMEOUT_MS);
    Some(player_key)
}

/// Takes out the cooldowns that have run out.
fn drop_expired(cooldown_until: &mut Table<String, u64>, now: u64)
    requires
        old(cooldown_until).wf(),
    ensures
        final(cooldown_until).wf(),
        final(cooldown_until)@ == model::cooled(old(cooldown_until)@, Seq::empty(), now),
{
    let ghost before = cooldown_until@;
    let mut i: usize = 0;
    while i < cooldown_until.entries.len()
        invariant
            i <= cooldown_until.entries@.len(),
            cooldown_until.wf(),
            forall|j: int| 0 <= j < i ==> (#[trigger] cooldown_until.entries@[j]).1 > now,
            forall|k: Seq<char>| #[trigger]
                cooldown_until@.contains_key(k) ==> before.contains_key(k) && before[k]
                    == cooldown_until@[k],
            forall|k: Seq<char>|
                before.contains_key(k) && before[k] > now ==> #[trigger]
                cooldown_until@.contains_key(k),
        decreases cooldown_until.entries@.len() - i,
    {
        proof {
            cooldown_until.lemma_entry(i as int);
        }
        if cooldown_until.entries[i].1 > now {
            i += 1;
        } else {
            cooldown_until.remove_at(i);
        }
    }
    proof {
        let after = cooldown_until@;
        let want = model::cooled(before, Seq::empty(), now);
        assert forall|k: Seq<char>| after.contains_key(k) implies after[k] > now by {
            let place = cooldown_until.place(k);
            cooldown_until.lemma_entry(place);
        }
        assert(after =~= want);
    }
}

proof fn lemma_cooled_step(
    until: Map<Seq<char>, u64>,
    ms: Seq<MachineModel>,
    i: int,
    now: u64,
)
    requires
        0 <= i < ms.len(),
    ensures
        model::cooled(until, ms.take(i + 1), now) == (if model::missed(ms[i], now) {
            model::cooled(until, ms.take(i), now).insert(
                ms[i].called->0.player_key,
                model::later_by(now, NO_SHOW_COOLDOWN_MS),
            )
        } else {
            model::cooled(until, ms.take(i), now)
        }),
{
    let a = ms.take(i);
    let b = ms.take(i + 1);
    assert forall|key: Seq<char>| #[trigger]
        model::no_show(b, now, key) == (model::no_show(a, now, key) || (model::missed(ms[i], now)
            && ms[i].called->0.player_key == key)) by {
        if model::no_show(b, now, key) {
            let j = choose|j: int|
                0 <= j < b.len() && model::missed(#[trigger] b[j], now)
                    && b[j].called->0.player_key == key;
            if j < i {
                assert(a[j] == b[j]);
            } else {
                assert(b[j] == ms[i]);
            }
        }
        if model::no_show(a, now, key) {
            let j = choose|j: int|
                0 <= j < a.len() && model::missed(#[trigger] a[j], now)
                    && a[j].called->0.player_key == key;
            assert(b[j] == a[j]);
        }
        if model::missed(ms[i], now) && ms[i].called->0.player_key == key {
            assert(b[i] == ms[i]);
        }
    }
    let left = model::cooled(until, b, now);
    let right = if model::missed(ms[i], now) {
        model::cooled(until, a, now).insert(
            ms[i].called->0.player_key,
            model::later_by(now, NO_SHOW_COOLDOWN_MS),
        )
    } else {
        model::cooled(until, a, now)
    };
    assert forall|key: Seq<char>| left.contains_key(key) == right.contains_key(key) by {
        assert(model::no_show(b, now, key) == (model::no_show(a, now, key) || (model::missed(
            ms[i],
            now,
        ) && ms[i].called->0.player_key == key)));
    }
    assert forall|key: Seq<char>| left.contains_key(key) implies left[key] == right[key] by {
        assert(model::no_show(b, now, key) == (model::no_show(a, now, key) || (model::missed(
            ms[i],
            now,
        ) && ms[i].called->0.player_key == key)));
    }
    assert(left =~= right);
}

impl ArcadeState {
    /// Each table holds a key at most once, and what the arcade keeps at all
    /// times holds.
    pub open spec fn wf(self) -> bool {
        &&& self.cooldown_until.wf()
        &&& self.scores.wf()
        &&& model::sound(self@)
    }

    /// Lets time come to `now`: missed calls are taken back, their players have
    /// to wait, and the next ones are called.
    pub fn housekeeping(&mut self, now: u64)
        requires
            old(self).wf(),
        ensures
            final(self).wf(),
            final(self)@ == model::tick(old(self)@, now),
    {
        let ghost before = self@;
        let ghost ms = before.machines;
        drop_expired(&mut self.cooldown_until, now);
        let mut i: usize = 0;
        assert(ms.take(0) =~= Seq::empty());
        while i < self.machines.len()
            invariant
                i <= self.machines@.len() == ms.len(),
                before == old(self)@,
                ms == before.machines,
                forall|j: int|
                    0 <= j < i ==> (#[trigger] self.machines@[j])@ == model::tick_machine(
                        ms[j],
                        now,
                    ),
                forall|j: int| i <= j < ms.len() ==> (#[trigger] self.machines@[j])@ == ms[j],
                self.cooldown_until.wf(),
                self.scores.wf(),
                self.cooldown_until@ == model::cooled(
                    before.cooldown_until,
                    ms.take(i as int),
                    now,
                ),
                self.scores == old(self).scores,
                self.next_ticket_id == before.next_ticket_id,
                self.next_round_id == before.next_round_id,
            decreases ms.len() - i,
        {
            proof {
                lemma_cooled_step(before.cooldown_until, ms, i as int, now);
            }
            let no_show = tick_one(&mut self.machines[i], now);
            if let Some(player_key) = no_show {
                self.cooldown_until.insert(player_key, now.saturating_add(NO_SHOW_COOLDOWN_MS));
            }
            i += 1;
        }
        proof {
            assert(ms.take(i as int) =~= ms);
            assert(self@.machines =~= model::tick(before, now).machines);
            assert(self@ =~= model::tick(before, now));
            laws::law_tick_keeps_sound(before, now);
        }
    }

    /// Where the machine with this id stands.
    fn find_machine_index(&self, machine_id: u32) -> (at: Result<usize, ArcadeError>)
        ensures
            match at {
                Ok(i) => i < self.machines@.len() && model::has_machine(
                    self@.machines,
                    machine_id,
                ) && i == model::machine_place(self@.machines, machine_id) && self.machines@[i as int].id == machine_id,
                Err(error) => !model::has_machine(self@.machines, machine_id) && error@
                    == model::machine_missing(machine_id),
            },
    {
        let ghost ms = self@.machines;
        let mut i: usize = 0;
        while i < self.machines.len()
            invariant
                i <= self.machines@.len(),
                ms == self@.machines,
                forall|j: int| 0 <= j < i ==> (#[trigger] ms[j]).id != machine_id,
            decreases self.machines@.len() - i,
        {
            if self.machines[i].id == machine_id {
                proof {
                    assert(ms[i as int].id == machine_id);
                    assert(model::is_machine(ms, machine_id, i as int));
                    let place = model::machine_place(ms, machine_id);
                    assert(model::is_machine(ms, machine_id, place));
                    if place < i {
                        assert(ms[place].id != machine_id);
                    } else if i < place {
                        assert(ms[i as int].id != machine_id);
                    }
                }
                return Ok(i);
            }
            assert(ms[i as int].id == self.machines@[i as int].id);
            i += 1;
        }
        let mut why = "machine ".to_owned();
        text::push_decimal(&mut why, machine_id as u64);
        why.append(" not found");
        assert(!model::has_machine(ms, machine_id)) by {
            if model::has_machine(ms, machine_id) {
                let place = model::machine_place(ms, machine_id);
                assert(model::is_machine(ms, machine_id, place));
            }
        }
        Err(ArcadeError::NotFound(why))
    }

    fn player_has_active_ticket(&self, player_key: &String) -> (active: bool)
        ensures
            active == model::waits(self@.machines, player_key@),
    {
        let ghost ms = self@.machines;
        let mut i: usize = 0;
        while i < self.machines.len()
            invariant
                i <= self.machines@.len(),
                ms == self@.machines,
                forall|j: int| 0 <= j < i ==> !model::waits_at(#[trigger] ms[j], player_key@),
            decreases self.machines@.len() - i,
        {
            let machine = &self.machines[i];
            let called: bool = match &machine.called {
                Some(call) => call.player_key == *player_key,
                None => false,
            };
            assert(ms[i as int] == machine@);
            if called || queue_has_key(&machine.left_queue, player_key) || queue_has_key(
                &machine.right_queue,
                player_key,
            ) {
                return true;
            }
            i += 1;
        }
        false
    }

    fn player_is_seated(&self, player_key: &String) -> (seated: bool)
        ensures
            seated == model::sits(self@.machines, player_key@),
    {
        let ghost ms = self@.machines;
        let mut i: usize = 0;
        while i < self.machines.len()
            invariant
                i <= self.machines@.len(),
                ms == self@.machines,
                forall|j: int| 0 <= j < i ==> !model::sits_at(#[trigger] ms[j], player_key@),
            decreases self.machines@.len() - i,
        {
            let machine = &self.machines[i];
            let left: bool = match &machine.left_player {
                Some(player) => player.player_key == *player_key,
                None => false,
            };
            let right: bool = match &machine.right_player {
                Some(player) => player.player_key == *player_key,
                None => false,
            };
            assert(ms[i as int] == machine@);
            if left || right {
                return true;
            }
            i += 1;
        }
        false
    }
}

fn queue_has_key(queue: &Vec<QueueEntry>, player_key: &String) -> (has: bool)
    ensures
        has == model::has_key(line_view(queue@), player_key@),
{
    let ghost line = line_view(queue@);
    let mut i: usize = 0;
    while i < queue.len()
        invariant
            i <= queue@.len(),
            line == line_view(queue@),
            forall|j: int| 0 <= j < i ==> (#[trigger] line[j]).player_key != player_key@,
        decreases queue@.len() - i,
    {
        assert(line[i as int] == queue@[i as int]@);
        if queue[i].player_key == *player_key {
            return true;
        }
        i += 1;
    }
    false
}

fn copy_name(seat: &Option<SeatPlayer>) -> (name: Option<String>)
    ensures
        text_view(name) == model::name_on(seat_view(*seat)),
{
    match seat {
        Some(player) => Some(player.player_name.clone()),
        None => None,
    }
}

fn queue_view(queue: &Vec<QueueEntry>) -> (rows: Vec<QueueEntryView>)
    ensures
        rows_view(rows@) == model::rows_of(line_view(queue@)),
{
    let mut rows: Vec<QueueEntryView> = Vec::new();
    let mut i: usize = 0;
    while i < queue.len()
        invariant
            i <= queue@.len(),
            rows@.len() == i,
            forall|j: int|
                0 <= j < i ==> (#[trigger] rows@[j])@ == model::rows_of(line_view(queue@))[j],
        decreases queue@.len() - i,
    {
        rows.push(
            QueueEntryView {
                ticket_id: queue[i].ticket_id,
                player_name: queue[i].player_name.clone(),
                joined_unix_ms: queue[i].joined_unix_ms,
                position: i + 1,
            },
        );
        i += 1;
    }
    assert(rows_view(rows@) =~= model::rows_of(line_view(queue@)));
    rows
}

fn seat_call_view(called: &Option<SeatCall>, now: u64) -> (shown: Option<SeatCallView>)
    ensures
        call_view(shown) == model::call_shown(called_view(*called), now),
{
    match called {
        Some(call) => Some(
            SeatCallView {
                side: call.side,
                ticket_id: call.ticket_id,
                player_name: call.player_name.clone(),
                expires_unix_ms: call.expires_unix_ms,
                remaining_ms: call.expires_unix_ms.saturating_sub(now),
            },
        ),
        None => None,
    }
}

fn round_result_view(round: &Option<RoundResult>) -> (shown: Option<RoundResultView>)
    ensures
        round_shown(shown) == round_view(*round),
{
    match round {
        Some(r) => Some(
            RoundResultView {
                round_id: r.round_id,
                left_player: r.left_player.clone(),
                right_player: r.right_player.clone(),
                winner_side: r.winner_side,
                left_score: r.left_score,
                right_score: r.right_score,
                ended_unix_ms: r.ended_unix_ms,
            },
        ),
        None => None,
    }
}

fn machine_summary_view(machine: &MachineState, now: u64) -> (shown: MachineSummaryView)
    ensures
        shown@ == model::summary_of(machine@, now),
{
    MachineSummaryView {
        id: machine.id,
        name: machine.name.clone(),
        status: machine.status,
        left_player: copy_name(&machine.left_player),
        right_player: copy_name(&machine.right_player),
        left_queue_len: machine.left_queue.len(),
        right_queue_len: machine.right_queue.len(),
        called: seat_call_view(&machine.called, now),
        last_round: round_result_view(&machine.last_round),
    }
}

fn machine_detail_view(
    machine: &MachineState,
    now: u64,
    daily_top: Vec<DailyScoreView>,
) -> (shown: MachineDetailView)
    ensures
        shown@ == model::detail_of(machine@, now, top_view(daily_top@)),
{
    MachineDetailView {
        id: machine.id,
        name: machine.name.clone(),
        status: machine.status,
        left_player: copy_name(&machine.left_player),
        right_player: copy_name(&machine.right_player),
        left_queue: queue_view(&machine.left_queue),
        right_queue: queue_view(&machine.right_queue),
        called: seat_call_view(&machine.called, now),
        last_round: round_result_view(&machine.last_round),
        daily_top,
    }
}

proof fn lemma_ranks_total(a: ScoreModel, b: ScoreModel)
    ensures
        model::ranks_before(a, b) || model::ranks_before(b, a),
{
    text::lemma_name_le_total(a.player_name, b.player_name);
}

proof fn lemma_ranks_transitive(a: ScoreModel, b: ScoreModel, c: ScoreModel)
    requires
        model::ranks_before(a, b),
        model::ranks_before(b, c),
    ensures
        model::ranks_before(a, c),
{
    if a.score == b.score && b.score == c.score {
        text::lemma_name_le_transitive(a.player_name, b.player_name, c.player_name);
    }
}

/// Whether row `a` may stand before row `b` in a ranking.
fn row_before(a: &DailyScoreView, b: &DailyScoreView) -> (before: bool)
    ensures
        before == model::ranks_before(a@, b@),
{
    a.score > b.score || (a.score == b.score && text::name_at_or_before(
        a.player_name.as_str(),
        b.player_name.as_str(),
    ))
}

fn same_board(a: Option<u32>, b: Option<u32>) -> (same: bool)
    ensures
        same == (a == b),
{
    match (a, b) {
        (Some(x), Some(y)) => x == y,
        (None, None) => true,
        _ => false,
    }
}

/// Puts a row into a ranking, behind every row that may stand before it.
fn insert_row(
    rows: &mut Vec<DailyScoreView>,
    row: DailyScoreView,
    Ghost(keys): Ghost<Seq<(u64, Option<u32>, Seq<char>)>>,
    Ghost(key): Ghost<(u64, Option<u32>, Seq<char>)>,
    Ghost(scores): Ghost<Map<(u64, Option<u32>, Seq<char>), ScoreModel>>,
) -> (out: Ghost<Seq<(u64, Option<u32>, Seq<char>)>>)
    requires
        top_view(old(rows)@) == Seq::new(keys.len(), |j: int| scores[keys[j]]),
        scores[key] == row@,
        keys.no_duplicates(),
        !keys.contains(key),
        forall|i: int, j: int|
            0 <= i < j < keys.len() ==> model::ranks_before(
                scores[#[trigger] keys[i]],
                scores[#[trigger] keys[j]],
            ),
    ensures
        top_view(final(rows)@) == Seq::new(out@.len(), |j: int| scores[out@[j]]),
        out@.no_duplicates(),
        forall|k: (u64, Option<u32>, Seq<char>)| #[trigger]
            out@.contains(k) <==> keys.contains(k) || k == key,
        forall|i: int, j: int|
            0 <= i < j < out@.len() ==> model::ranks_before(
                scores[#[trigger] out@[i]],
                scores[#[trigger] out@[j]],
            ),
{
    let ghost shown = Seq::new(keys.len(), |j: int| scores[keys[j]]);
    let ghost r = row@;
    assert(rows@.len() == top_view(rows@).len());
    let mut at: usize = 0;
    while at < rows.len() && row_before(&rows[at], &row)
        invariant
            at <= rows@.len() == keys.len(),
            top_view(rows@) == shown,
            shown == Seq::new(keys.len(), |j: int| scores[keys[j]]),
            r == row@,
            forall|j: int|
                0 <= j < at ==> model::ranks_before(scores[#[trigger] keys[j]], r),
        decreases rows@.len() - at,
    {
        assert(top_view(rows@)[at as int] == scores[keys[at as int]]);
        at += 1;
    }
    let ghost out = keys.insert(at as int, key);
    proof {
        if at < keys.len() {
            assert(top_view(rows@)[at as int] == scores[keys[at as int]]);
            lemma_ranks_total(r, scores[keys[at as int]]);
            assert forall|j: int| at <= j < keys.len() implies model::ranks_before(
                r,
                scores[#[trigger] keys[j]],
            ) by {
                if j > at {
                    lemma_ranks_transitive(r, scores[keys[at as int]], scores[keys[j]]);
                }
            }
        }
        assert forall|k: (u64, Option<u32>, Seq<char>)| #[trigger]
            out.contains(k) <==> keys.contains(k) || k == key by {
            if out.contains(k) {
                let i = choose|i: int| 0 <= i < out.len() && out[i] == k;
                if i < at {
                    assert(keys[i] == k);
                } else if i > at {
                    assert(keys[i - 1] == k);
                }
            }
            if keys.contains(k) {
                let i = choose|i: int| 0 <= i < keys.len() && keys[i] == k;
                if i < at {
                    assert(out[i] == k);
                } else {
                    assert(out[i + 1] == k);
                }
            }
            if k == key {
                assert(out[at as int] == k);
            }
        }
        assert forall|i: int, j: int| 0 <= i < j < out.len() implies out[i] != out[j] by {
            let i0 = if i < at { i } else { i - 1 };
            let j0 = if j < at { j } else { j - 1 };
            if i == at {
                assert(keys.contains(keys[j0]));
            } else if j == at {
                assert(keys.contains(keys[i0]));
            } else {
                assert(keys[i0] != keys[j0]);
            }
        }
        assert forall|i: int, j: int| 0 <= i < j < out.len() implies model::ranks_before(
            scores[#[trigger] out[i]],
            scores[#[trigger] out[j]],
        ) by {
            let i0 = if i < at { i } else { i - 1 };
            let j0 = if j < at { j } else { j - 1 };
            if i != at {
                assert(out[i] == keys[i0]);
            }
            if j != at {
                assert(out[j] == keys[j0]);
            }
        }
    }
    let ghost before = rows@;
    rows.insert(at, row);
    proof {
        assert forall|j: int| 0 <= j < out.len() implies #[trigger] top_view(rows@)[j]
            == scores[out[j]] by {
            if j < at {
                assert(top_view(before)[j] == shown[j]);
            } else if j > at {
                assert(rows@[j] == before[j - 1]);
                assert(top_view(before)[j - 1] == shown[j - 1]);
                assert(out[j] == keys[j - 1]);
            }
        }
        assert(top_view(rows@) =~= Seq::new(out.len(), |j: int| scores[out[j]]));
    }
    Ghost(out)
}

impl ArcadeState {
    /// The best scores of a board on a day.
    fn collect_top(&self, day: u64, board: Option<u32>) -> (rows: Vec<DailyScoreView>)
        requires
            self.scores.wf(),
        ensures
            model::is_top(top_view(rows@), self@.scores, day, board),
    {
        let ghost scores = self@.scores;
        let ghost mut keys: Seq<(u64, Option<u32>, Seq<char>)> = Seq::empty();
        let mut rows: Vec<DailyScoreView> = Vec::new();
        let mut i: usize = 0;
        assert(top_view(rows@) =~= Seq::new(keys.len(), |j: int| scores[keys[j]]));
        while i < self.scores.entries.len()
            invariant
                i <= self.scores.entries@.len(),
                self.scores.wf(),
                scores == self@.scores,
                top_view(rows@) == Seq::new(keys.len(), |j: int| scores[keys[j]]),
                keys.no_duplicates(),
                forall|k: (u64, Option<u32>, Seq<char>)| #[trigger]
                    keys.contains(k) <==> (model::on_board(k, day, board) && exists|e: int|
                        0 <= e < i && (#[trigger] self.scores.entries@[e]).0@ == k),
                forall|a: int, b: int|
                    0 <= a < b < keys.len() ==> model::ranks_before(
                        scores[#[trigger] keys[a]],
                        scores[#[trigger] keys[b]],
                    ),
            decreases self.scores.entries@.len() - i,
        {
            let entry = &self.scores.entries[i];
            proof {
                self.scores.lemma_entry(i as int);
            }
            let ghost key = entry.0@;
            let ghost seen = keys;
            if entry.0.day == day && same_board(entry.0.machine_id, board) {
                let row = DailyScoreView {
                    player_name: entry.1.player_name.clone(),
                    score: entry.1.score,
                };
                let out = insert_row(&mut rows, row, Ghost(keys), Ghost(key), Ghost(scores));
                proof {
                    keys = out@;
                }
            }
            proof {
                assert forall|k: (u64, Option<u32>, Seq<char>)| #[trigger]
                    keys.contains(k) <==> (model::on_board(k, day, board) && exists|e: int|
                        0 <= e < i + 1 && (#[trigger] self.scores.entries@[e]).0@ == k) by {
                    if keys.contains(k) {
                        if k == key {
                            assert(self.scores.entries@[i as int].0@ == k);
                        } else {
                            assert(seen.contains(k));
                        }
                    }
                    if model::on_board(k, day, board) && exists|e: int|
                        0 <= e < i + 1 && (#[trigger] self.scores.entries@[e]).0@ == k {
                        let e = choose|e: int|
                            0 <= e < i + 1 && (#[trigger] self.scores.entries@[e]).0@ == k;
                        if e < i {
                            assert(seen.contains(k));
                        }
                    }
                }
            }
            i += 1;
        }
        let ghost all = rows@;
        rows.truncate(SCORE_LIMIT);
        proof {
            assert forall|k: (u64, Option<u32>, Seq<char>)| #[trigger]
                keys.contains(k) <==> (scores.contains_key(k) && model::on_board(
                    k,
                    day,
                    board,
                )) by {
                assert(scores.contains_key(k) == self.scores.has(k));
            }
            assert(model::is_ranking(keys, scores, day, board));
            assert(all.len() == top_view(all).len());
            assert forall|j: int| 0 <= j < rows@.len() implies #[trigger] top_view(rows@)[j]
                == model::first_rows(keys, scores)[j] by {
                assert(top_view(all)[j] == scores[keys[j]]);
            }
            assert(top_view(rows@) =~= model::first_rows(keys, scores));
        }
        rows
    }

    /// The best scores at one machine on a day.
    pub fn collect_machine_top(&self, day: u64, machine_id: u32) -> (rows: Vec<DailyScoreView>)
        requires
            self.scores.wf(),
        ensures
            model::is_top(top_view(rows@), self@.scores, day, Some(machine_id)),
    {
        self.collect_top(day, Some(machine_id))
    }

    /// The best scores in the whole arcade on a day.
    pub fn collect_global_top(&self, day: u64) -> (rows: Vec<DailyScoreView>)
        requires
            self.scores.wf(),
        ensures
            model::is_top(top_view(rows@), self@.scores, day, None),
    {
        self.collect_top(day, None)
    }

    /// Notes a score on one board, where it is at least as good as the one there.
    fn record_score(&mut self, key: ScoreKey, player_name: &String, score: u32)
        requires
            old(self).scores.wf(),
        ensures
            final(self).scores.wf(),
            final(self)@ == (ArcadeModel {
                scores: model::with_score(old(self)@.scores, key@, player_name@, score),
                ..old(self)@
            }),
            final(self).cooldown_until == old(self).cooldown_until,
            final(self).machines == old(self).machines,
            final(self).next_ticket_id == old(self).next_ticket_id,
            final(self).next_round_id == old(self).next_round_id,
    {
        let better: bool = match self.scores.get(&key) {
            Some(best) => score >= best.score,
            None => true,
        };
        if better {
            let entry = ScoreState { player_name: player_name.clone(), score };
            let ghost table = self.scores@;
            self.scores.insert(key, entry);
            assert(scores_view(self.scores@) =~= scores_view(table).insert(key@, entry@));
        }
    }

    /// Notes what a player has reached at a machine.
    fn update_scores(
        &mut self,
        day: u64,
        machine_id: u32,
        player_name: &String,
        player_key: &String,
        score: u32,
    )
        requires
            old(self).scores.wf(),
        ensures
            final(self).scores.wf(),
            final(self)@ == (ArcadeModel {
                scores: model::with_result(
                    old(self)@.scores,
                    day,
                    machine_id,
                    SeatModel { player_name: player_name@, player_key: player_key@ },
                    score,
                ),
                ..old(self)@
            }),
            final(self).cooldown_until == old(self).cooldown_until,
            final(self).machines == old(self).machines,
            final(self).next_ticket_id == old(self).next_ticket_id,
            final(self).next_round_id == old(self).next_round_id,
    {
        self.record_score(
            ScoreKey { day, machine_id: Some(machine_id), player_key: player_key.clone() },
            player_name,
            score,
        );
        self.record_score(
            ScoreKey { day, machine_id: None, player_key: player_key.clone() },
            player_name,
            score,
        );
    }

    /// The machine at `at` as it stands at `now`.
    fn detail(&self, at: usize, now: u64) -> (shown: MachineDetailView)
        requires
            self.scores.wf(),
            at < self.machines@.len(),
        ensures
            model::shows(shown@, self@, at as int, now),
    {
        let top = self.collect_machine_top(day_key(now), self.machines[at].id);
        machine_detail_view(&self.machines[at], now, top)
    }
}

fn ticket_position(queue: &Vec<QueueEntry>, ticket: u64) -> (at: Option<usize>)
    ensures
        match at {
            Some(k) => k < queue@.len() && model::has_ticket(line_view(queue@), ticket) && k
                == model::ticket_place(line_view(queue@), ticket),
            None => !model::has_ticket(line_view(queue@), ticket),
        },
{
    let ghost line = line_view(queue@);
    let mut k: usize = 0;
    while k < queue.len()
        invariant
            k <= queue@.len(),
            line == line_view(queue@),
            forall|j: int| 0 <= j < k ==> (#[trigger] line[j]).ticket_id != ticket,
        decreases queue@.len() - k,
    {
        assert(line[k as int] == queue@[k as int]@);
        if queue[k].ticket_id == ticket {
            proof {
                assert(model::is_ticket(line, ticket, k as int));
                let place = model::ticket_place(line, ticket);
                assert(model::is_ticket(line, ticket, place));
                if place < k {
                    assert(line[place].ticket_id != ticket);
                } else if k < place {
                    assert(line[k as int].ticket_id != ticket);
                }
            }
            return Some(k);
        }
        k += 1;
    }
    assert(!model::has_ticket(line, ticket)) by {
        if model::has_ticket(line, ticket) {
            let place = model::ticket_place(line, ticket);
            assert(model::is_ticket(line, ticket, place));
        }
    }
    None
}

/// Takes the first ticket numbered `ticket` out of the queue of `side`, and says
/// whether there was one.
fn take_ticket(machine: &mut MachineState, side: Side, ticket: u64) -> (taken: bool)
    ensures
        taken == model::has_ticket(old(machine)@.queue(side), ticket),
        final(machine)@ == old(machine)@.with_queue(
            side,
            model::drop_ticket(old(machine)@.queue(side), ticket),
        ),
{
    match ticket_position(machine.side_queue(side), ticket) {
        Some(k) => {
            let ghost line = machine@.queue(side);
            let queue = machine.side_queue_mut(side);
            let ghost entries = queue@;
            let _ = queue.remove(k);
            assert(line_view(queue@) =~= line_view(entries).remove(k as int));
            true
        },
        None => {
            assert(machine@ =~= machine@.with_queue(side, machine@.queue(side)));
            false
        },
    }
}

/// The machines of one place, their players and their scores.
#[derive(Debug)]
pub struct ArcadeService {
    pub inner: ArcadeState,
}

impl View for ArcadeService {
    type V = ArcadeModel;

    open spec fn view(&self) -> ArcadeModel {
        self.inner@
    }
}

impl ArcadeService {
    pub open spec fn wf(self) -> bool {
        self.inner.wf()
    }

    /// An arcade of `machine_count` idle machines, at least one.
    pub fn new(machine_count: u32) -> (service: Self)
        ensures
            service.wf(),
            service@ == model::fresh_arcade(machine_count),
    {
        let safe_count: u32 = if machine_count == 0 {
            1
        } else {
            machine_count
        };
        let mut machines: Vec<MachineState> = Vec::new();
        let mut made: u32 = 0;
        while made < safe_count
            invariant
                made <= safe_count,
                machines@.len() == made,
                forall|i: int|
                    0 <= i < made ==> (#[trigger] machines@[i])@ == model::fresh_machine(
                        (i + 1) as u32,
                    ),
            decreases safe_count - made,
        {
            made += 1;
            let mut name = "Machine ".to_owned();
            text::push_decimal(&mut name, made as u64);
            let machine = MachineState {
                id: made,
                name,
                status: MachineStatus::FreePlay,
                left_player: None,
                right_player: None,
                left_queue: Vec::new(),
                right_queue: Vec::new(),
                called: None,
                last_round: None,
            };
            assert(machine@ =~= model::fresh_machine(made));
            machines.push(machine);
        }
        let inner = ArcadeState {
            machines,
            next_ticket_id: 1,
            next_round_id: 1,
            cooldown_until: Table::new(),
            scores: Table::new(),
        };
        proof {
            assert(inner@.machines =~= model::fresh_arcade(machine_count).machines);
            assert(inner@.scores =~= model::fresh_arcade(machine_count).scores);
            assert(inner@ =~= model::fresh_arcade(machine_count));
            laws::law_fresh_sound(machine_count);
        }
        ArcadeService { inner }
    }

    /// All machines as they stand at `now`, and the best scores of the day.
    pub fn overview_at(&mut self, now: u64) -> (shown: ArcadeOverview)
        requires
            old(self).wf(),
        ensures
            final(self).wf(),
            model::overview_outcome(old(self)@, now, final(self)@, shown@),
    {
        self.inner.housekeeping(now);
        let mut machines: Vec<MachineSummaryView> = Vec::new();
        let mut i: usize = 0;
        while i < self.inner.machines.len()
            invariant
                i <= self.inner.machines@.len(),
                machines@.len() == i,
                forall|j: int|
                    0 <= j < i ==> (#[trigger] machines@[j])@ == model::summary_of(
                        self.inner.machines@[j]@,
                        now,
                    ),
            decreases self.inner.machines@.len() - i,
        {
            machines.push(machine_summary_view(&self.inner.machines[i], now));
            i += 1;
        }
        let daily_global_top = self.inner.collect_global_top(day_key(now));
        assert(summaries_view(machines@) =~= Seq::new(
            self@.machines.len(),
            |j: int| model::summary_of(self@.machines[j], now),
        ));
        ArcadeOverview {
            now_unix_ms: now,
            claim_timeout_ms: CLAIM_TIMEOUT_MS,
            no_show_cooldown_ms: NO_SHOW_COOLDOWN_MS,
            machines,
            daily_global_top,
        }
    }

    /// All machines as they stand now, and the best scores of the day.
    pub fn overview(&mut self) -> (shown: ArcadeOverview)
        requires
            old(self).wf(),
        ensures
            final(self).wf(),
            exists|now: u64| #[trigger]
                model::overview_outcome(old(self)@, now, final(self)@, shown@),
    {
        let now: u64 = now_unix_ms();
        self.overview_at(now)
    }

    /// One machine as it stands at `now`.
    pub fn machine_at(&mut self, now: u64, machine_id: u32) -> (shown: Result<
        MachineDetailView,
        ArcadeError,
    >)
        requires
            old(self).wf(),
        ensures
            final(self).wf(),
            model::machine_outcome(old(self)@, now, machine_id, final(self)@, detail_answer(shown)),
    {
        self.inner.housekeeping(now);
        match self.inner.find_machine_index(machine_id) {
            Ok(at) => Ok(self.inner.detail(at, now)),
            Err(error) => Err(error),
        }
    }

    /// One machine as it stands now.
    pub fn machine(&mut self, machine_id: u32) -> (shown: Result<MachineDetailView, ArcadeError>)
        requires
            old(self).wf(),
        ensures
            final(self).wf(),
            exists|now: u64| #[trigger]
                model::machine_outcome(
                    old(self)@,
                    now,
                    machine_id,
                    final(self)@,
                    detail_answer(shown),
                ),
    {
        let now: u64 = now_unix_ms();
        self.machine_at(now, machine_id)
    }

    /// Gives a player a ticket in the queue of a side, at `now`.
    pub fn join_queue_at(
        &mut self,
        now: u64,
        machine_id: u32,
        player_name: String,
        side: Side,
    ) -> (joined: Result<JoinResult, ArcadeError>)
        requires
            old(self).wf(),
            old(self)@.next_ticket_id < u64::MAX,
        ensures
            final(self).wf(),
            model::join_outcome(
                old(self)@,
                now,
                machine_id,
                player_name@,
                side,
                final(self)@,
                join_answer(joined),
            ),
    {
        let ghost before = self@;
        let (display_name, player_key) = match normalize_player_name(player_name.as_str()) {
            Ok(names) => names,
            Err(error) => return Err(error),
        };
        self.inner.housekeeping(now);
        let ghost s = self@;

        if let Some(until) = self.inner.cooldown_until.get(&player_key) {
            if *until > now {
                let whole: u64 = (*until - now) / 1_000;
                let seconds: u64 = if whole < 1 {
                    1
                } else {
                    whole
                };
                let mut why = "player is cooling down after no-show; try again in ".to_owned();
                text::push_decimal(&mut why, seconds);
                why.append("s");
                return Err(ArcadeError::Conflict(why));
            }
        }
        if self.inner.player_is_seated(&player_key) {
            return Err(ArcadeError::Conflict("player is already seated at a machine".to_owned()));
        }
        if self.inner.player_has_active_ticket(&player_key) {
            return Err(
                ArcadeError::Conflict("player already has an active queue ticket".to_owned()),
            );
        }
        let ticket_id: u64 = self.inner.next_ticket_id;
        self.inner.next_ticket_id = ticket_id + 1;
        let at = match self.inner.find_machine_index(machine_id) {
            Ok(at) => at,
            Err(error) => {
                proof {
                    laws::law_join_keeps_sound(
                        before,
                        now,
                        machine_id,
                        player_name@,
                        side,
                        self@,
                        Err(error@),
                    );
                }
                return Err(error);
            },
        };
        let entry = QueueEntry { ticket_id, player_name: display_name, player_key, joined_unix_ms: now };
        let ghost e = entry@;
        let position: usize;
        {
            let machine = &mut self.inner.machines[at];
            let ghost m0 = machine@;
            let queue = machine.side_queue_mut(side);
            let ghost line = queue@;
            queue.push(entry);
            assert(line_view(queue@) =~= line_view(line).push(e));
            position = queue.len();
            if machine.called.is_none() && !machine.seat_taken(side) {
                call_next_for_side(machine, side, now, CLAIM_TIMEOUT_MS);
            } else {
                machine.status = derive_status(machine);
            }
            assert(machine@ =~= model::join_machine(m0, side, e, now));
        }
        proof {
            assert(self@.machines =~= model::join_state(
                s,
                at as int,
                side,
                player_name@,
                now,
            ).machines);
            assert(self@ =~= model::join_state(s, at as int, side, player_name@, now));
        }
        let machine = self.inner.detail(at, now);
        let joined = JoinResult { ticket_id, position, machine };
        proof {
            laws::law_join_keeps_sound(
                before,
                now,
                machine_id,
                player_name@,
                side,
                self@,
                Ok(joined@),
            );
        }
        Ok(joined)
    }

    /// Gives a player a ticket in the queue of a side.
    pub fn join_queue(&mut self, machine_id: u32, player_name: String, side: Side) -> (joined:
        Result<JoinResult, ArcadeError>)
        requires
            old(self).wf(),
            old(self)@.next_ticket_id < u64::MAX,
        ensures
            final(self).wf(),
            exists|now: u64| #[trigger]
                model::join_outcome(
                    old(self)@,
                    now,
                    machine_id,
                    player_name@,
                    side,
                    final(self)@,
                    join_answer(joined),
                ),
    {
        let now: u64 = now_unix_ms();
        self.join_queue_at(now, machine_id, player_name, side)
    }

    /// Takes a ticket back, at `now`.
    pub fn leave_queue_at(&mut self, now: u64, machine_id: u32, ticket_id: u64) -> (shown: Result<
        MachineDetailView,
        ArcadeError,
    >)
        requires
            old(self).wf(),
        ensures
            final(self).wf(),
            model::leave_outcome(
                old(self)@,
                now,
                machine_id,
                ticket_id,
                final(self)@,
                detail_answer(shown),
            ),
    {
        if ticket_id == 0 {
            return Err(
                ArcadeError::BadRequest("ticket_id must be a positive integer".to_owned()),
            );
        }
        let ghost before = self@;
        self.inner.housekeeping(now);
        let ghost s = self@;
        let at = match self.inner.find_machine_index(machine_id) {
            Ok(at) => at,
            Err(error) => return Err(error),
        };
        let found: bool;
        {
            let machine = &mut self.inner.machines[at];
            let ghost m0 = machine@;
            let mut side = Side::Left;
            let on_left: bool = take_ticket(machine, Side::Left, ticket_id);
            assert(!on_left ==> machine@ =~= m0);
            let mut removed: bool = on_left;
            if !on_left {
                side = Side::Right;
                removed = take_ticket(machine, Side::Right, ticket_id);
                assert(!removed ==> machine@ =~= m0);
            }
            if removed {
                let was_called: bool = match &machine.called {
                    Some(called) => called.ticket_id == ticket_id,
                    None => false,
                };
                if was_called {
                    machine.called = None;
                    call_next_for_either(machine, side, now, CLAIM_TIMEOUT_MS);
                } else {
                    machine.status = derive_status(machine);
                }
                assert(machine@ =~= model::leave_machine(m0, side, ticket_id, now));
            }
            found = removed;
        }
        if !found {
            assert(self@.machines =~= s.machines);
            assert(self@ =~= s);
            let mut why = "ticket ".to_owned();
            text::push_decimal(&mut why, ticket_id);
            why.append(" not found on machine ");
            text::push_decimal(&mut why, machine_id as u64);
            return Err(ArcadeError::NotFound(why));
        }
        proof {
            let side = model::ticket_side(s.machines[at as int], ticket_id)->0;
            let m2 = model::leave_machine(s.machines[at as int], side, ticket_id, now);
            assert(self@.machines =~= model::with_machine(s, at as int, m2).machines);
            assert(self@ =~= model::with_machine(s, at as int, m2));
        }
        let shown = self.inner.detail(at, now);
        proof {
            laws::law_leave_keeps_sound(before, now, machine_id, ticket_id, self@, Ok(shown@));
        }
        Ok(shown)
    }

    /// Takes a ticket back.
    pub fn leave_queue(&mut self, machine_id: u32, ticket_id: u64) -> (shown: Result<
        MachineDetailView,
        ArcadeError,
    >)
        requires
            old(self).wf(),
        ensures
            final(self).wf(),
            exists|now: u64| #[trigger]
                model::leave_outcome(
                    old(self)@,
                    now,
                    machine_id,
                    ticket_id,
                    final(self)@,
                    detail_answer(shown),
                ),
    {
        let now: u64 = now_unix_ms();
        self.leave_queue_at(now, machine_id, ticket_id)
    }

    /// Seats the player of the ticket that is being called, at `now`.
    pub fn claim_seat_at(&mut self, now: u64, machine_id: u32, ticket_id: u64) -> (shown: Result<
        MachineDetailView,
        ArcadeError,
    >)
        requires
            old(self).wf(),
        ensures
            final(self).wf(),
            model::claim_outcome(
                old(self)@,
                now,
                machine_id,
                ticket_id,
                final(self)@,
                detail_answer(shown),
            ),
    {
        if ticket_id == 0 {
            return Err(
                ArcadeError::BadRequest("ticket_id must be a positive integer".to_owned()),
            );
        }
        let ghost before = self@;
        self.inner.housekeeping(now);
        let ghost s = self@;
        let at = match self.inner.find_machine_index(machine_id) {
            Ok(at) => at,
            Err(error) => return Err(error),
        };
        let (side, player_name, player_key) = match &self.inner.machines[at].called {
            None => {
                return Err(
                    ArcadeError::Conflict("no seat is currently being called".to_owned()),
                );
            },
            Some(called) => {
                if called.ticket_id != ticket_id {
                    let mut why = "ticket ".to_owned();
                    text::push_decimal(&mut why, ticket_id);
                    why.append(" is not currently called (active ticket: ");
                    text::push_decimal(&mut why, called.ticket_id);
                    why.append(")");
                    return Err(ArcadeError::Conflict(why));
                }
                (called.side, called.player_name.clone(), called.player_key.clone())
            },
        };
        if self.inner.machines[at].seat_taken(side) {
            return Err(ArcadeError::Conflict("that side is already occupied".to_owned()));
        }
        {
            let machine = &mut self.inner.machines[at];
            let ghost m0 = machine@;
            let _ = take_ticket(machine, side, ticket_id);
            *machine.seat_mut(side) = Some(SeatPlayer { player_name, player_key });
            machine.called = None;
            call_next_for_side(machine, side.opposite(), now, CLAIM_TIMEOUT_MS);
            assert(machine@ =~= model::claim_machine(m0, now));
        }
        proof {
            let m2 = model::claim_machine(s.machines[at as int], now);
            assert(self@.machines =~= model::with_machine(s, at as int, m2).machines);
            assert(self@ =~= model::with_machine(s, at as int, m2));
        }
        let shown = self.inner.detail(at, now);
        proof {
            laws::law_claim_keeps_sound(before, now, machine_id, ticket_id, self@, Ok(shown@));
        }
        Ok(shown)
    }

    /// Seats the player of the ticket that is being called.
    pub fn claim_seat(&mut self, machine_id: u32, ticket_id: u64) -> (shown: Result<
        MachineDetailView,
        ArcadeError,
    >)
        requires
            old(self).wf(),
        ensures
            final(self).wf(),
            exists|now: u64| #[trigger]
                model::claim_outcome(
                    old(self)@,
                    now,
                    machine_id,
                    ticket_id,
                    final(self)@,
                    detail_answer(shown),
                ),
    {
        let now: u64 = now_unix_ms();
        self.claim_seat_at(now, machine_id, ticket_id)
    }

    /// Ends the round at a machine, at `now`: the winner stays, the loser's seat
    /// goes to the next challenger.
    pub fn end_round_at(
        &mut self,
        now: u64,
        machine_id: u32,
        winner_side: Side,
        left_score: u32,
        right_score: u32,
    ) -> (shown: Result<MachineDetailView, ArcadeError>)
        requires
            old(self).wf(),
            old(self)@.next_round_id < u64::MAX,
        ensures
            final(self).wf(),
            model::end_outcome(
                old(self)@,
                now,
                machine_id,
                winner_side,
                left_score,
                right_score,
                final(self)@,
                detail_answer(shown),
            ),
    {
        let ghost before = self@;
        self.inner.housekeeping(now);
        let ghost s = self@;
        let round_id: u64 = self.inner.next_round_id;
        self.inner.next_round_id = round_id + 1;
        let day: u64 = day_key(now);
        let at = match self.inner.find_machine_index(machine_id) {
            Ok(at) => at,
            Err(error) => return Err(error),
        };
        let (left_name, left_key) = match &self.inner.machines[at].left_player {
            Some(player) => (player.player_name.clone(), player.player_key.clone()),
            None => {
                return Err(
                    ArcadeError::Conflict("cannot end round without a left player".to_owned()),
                );
            },
        };
        let (right_name, right_key) = match &self.inner.machines[at].right_player {
            Some(player) => (player.player_name.clone(), player.player_key.clone()),
            None => {
                return Err(
                    ArcadeError::Conflict("cannot end round without a right player".to_owned()),
                );
            },
        };
        self.inner.update_scores(day, machine_id, &left_name, &left_key, left_score);
        self.inner.update_scores(day, machine_id, &right_name, &right_key, right_score);
        let round = RoundResult {
            round_id,
            left_player: left_name,
            right_player: right_name,
            winner_side,
            left_score,
            right_score,
            ended_unix_ms: now,
        };
        let ghost r = round@;
        {
            let machine = &mut self.inner.machines[at];
            let ghost m0 = machine@;
            machine.last_round = Some(round);
            machine.called = None;
            let loser = winner_side.opposite();
            *machine.seat_mut(loser) = None;
            call_next_for_side(machine, loser, now, CLAIM_TIMEOUT_MS);
            assert(machine@ =~= model::end_machine(m0, r, now));
        }
        proof {
            let want = model::end_state(s, at as int, winner_side, left_score, right_score, now);
            assert(self@.machines =~= want.machines);
            assert(self@ =~= want);
        }
        let shown = self.inner.detail(at, now);
        proof {
            laws::law_end_keeps_sound(
                before,
                now,
                machine_id,
                winner_side,
                left_score,
                right_score,
                self@,
                Ok(shown@),
            );
        }
        Ok(shown)
    }

    /// Ends the round at a machine: the winner stays, the loser's seat goes to
    /// the next challenger.
    pub fn end_round(
        &mut self,
        machine_id: u32,
        winner_side: Side,
        left_score: u32,
        right_score: u32,
    ) -> (shown: Result<MachineDetailView, ArcadeError>)
        requires
            old(self).wf(),
            old(self)@.next_round_id < u64::MAX,
        ensures
            final(self).wf(),
            exists|now: u64| #[trigger]
                model::end_outcome(
                    old(self)@,
                    now,
                    machine_id,
                    winner_side,
                    left_score,
                    right_score,
                    final(self)@,
                    detail_answer(shown),
                ),
    {
        let now: u64 = now_unix_ms();
        self.end_round_at(now, machine_id, winner_side, left_score, right_score)
    }
}

} // verus!
