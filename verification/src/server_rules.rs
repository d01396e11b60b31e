//! What clients may rely on: what a message does, who is let in, and what a
//! request to start a session comes to.

use vstd::prelude::*;

use crate::arcade::Side;
use crate::auth;
use crate::auth::{MatchClaims, MatchRole};
use crate::input;
use crate::input::{Button, HubModel, PadModel};
use crate::input_rules;
use crate::libretro::RuntimeCommand;
use crate::protocol::{ClientCommand, ClientMessage, ServerMessage};
use crate::registry::PortsModel;
use crate::server;
use crate::server::{AuthConfig, Refusal};
use crate::session;
use crate::session::{
    LaunchConfig, ManagerState, RuntimeExit, StartRequest, Status, WorkspacePlan,
};
use crate::text;

verus! {

/// Whether a client that has been assigned ports, or none, may use this one.
pub open spec fn among(owned_ports: Seq<u32>, port: u32) -> bool {
    owned_ports.len() == 0 || exists|i: int|
        0 <= i < owned_ports.len() && #[trigger] owned_ports[i] == port
}

/// A command for the runtime is acknowledged exactly where a player sends it for
/// a port of the player's, something is running, and a state has a slot from 1 to
/// 255. Then the runtime has one command more to take up, last of all: the one
/// that was sent, with the slot that was sent. The acknowledgement has the
/// message's number and the server's time.
pub proof fn law_command_reaches_the_runtime(
    hub: HubModel,
    ports: PortsModel,
    runtime: ManagerState,
    now_ns: u128,
    now_ms: u64,
    source_id: Seq<char>,
    owned_ports: Seq<u32>,
    allow_input: bool,
    command: ClientCommand,
    port: u32,
    slot: Option<u8>,
    sequence: Option<u64>,
    hub_after: HubModel,
    runtime_after: ManagerState,
    reply: ServerMessage,
)
    requires
        command != ClientCommand::InsertCoin,
        server::message_outcome(
            hub,
            ports,
            runtime,
            now_ns,
            now_ms,
            source_id,
            owned_ports,
            allow_input,
            Ok(ClientMessage::Command { command, port, slot, sequence }),
            hub_after,
            runtime_after,
            reply,
        ),
    ensures
        reply is Ack || reply is Error,
        reply is Ack <==> allow_input && among(owned_ports, port) && runtime.active is Some && (
        command == ClientCommand::Reset || (slot is Some && slot->0 >= 1)),
        hub_after == hub,
        reply is Error ==> runtime_after == runtime,
        reply is Ack ==> {
            let before = runtime.active->0;
            let after = runtime_after.active->0;
            let asked = after.control.commands@;
            &&& reply->sequence == sequence
            &&& reply->server_time_ms == now_ms
            &&& runtime_after.active is Some
            &&& asked.len() == before.control.commands@.len() + 1
            &&& forall|i: int|
                0 <= i < before.control.commands@.len() ==> #[trigger] asked[i]
                    == before.control.commands@[i]
            &&& command == ClientCommand::Reset ==> asked.last() == RuntimeCommand::Reset
            &&& command == ClientCommand::SaveState ==> asked.last() is SaveState
                && asked.last()->SaveState_slot == slot->0
            &&& command == ClientCommand::LoadState ==> asked.last() is LoadState
                && asked.last()->LoadState_slot == slot->0
            &&& after.launch == before.launch
            &&& after.session_dir == before.session_dir
            &&& after.started_at_unix_ms == before.started_at_unix_ms
            &&& runtime_after.last_exit == runtime.last_exit
        },
{
    if owned_ports.contains(port) {
        let i = choose|i: int| 0 <= i < owned_ports.len() && owned_ports[i] == port;
        assert(owned_ports[i] == port);
    }
}

/// A coin that a player throws in at one of the player's ports is acknowledged and
/// reads there as the select button, number 2, for a tenth of a second; at no
/// other port does anything show. The runtime is not asked for anything.
pub proof fn law_coin_is_thrown_in(
    hub: HubModel,
    ports: PortsModel,
    runtime: ManagerState,
    now_ns: u128,
    now_ms: u64,
    source_id: Seq<char>,
    owned_ports: Seq<u32>,
    allow_input: bool,
    port: u32,
    slot: Option<u8>,
    sequence: Option<u64>,
    hub_after: HubModel,
    runtime_after: ManagerState,
    reply: ServerMessage,
    later: u128,
    pad: PadModel,
    id: u32,
    other: u32,
    other_pad: PadModel,
)
    requires
        now_ns <= crate::clock::MAX_DURATION_NS,
        server::message_outcome(
            hub,
            ports,
            runtime,
            now_ns,
            now_ms,
            source_id,
            owned_ports,
            allow_input,
            Ok(ClientMessage::Command { command: ClientCommand::InsertCoin, port, slot, sequence }),
            hub_after,
            runtime_after,
            reply,
        ),
        port < 8,
        input_rules::unused(hub, port),
        input::merged(hub_after, later, port, pad),
        other != port,
    ensures
        runtime_after == runtime,
        reply is Ack <==> allow_input && among(owned_ports, port),
        reply is Ack ==> reply->sequence == sequence && reply->server_time_ms == now_ms,
        reply !is Ack ==> reply is Error && hub_after == hub,
        reply is Ack ==> input::button_reading(pad, id) == if id == 2 && later < now_ns
            + 100_000_000 {
            1i16
        } else {
            0
        },
        reply is Ack ==> (input::merged(hub_after, later, other, other_pad) <==> input::merged(
            hub,
            later,
            other,
            other_pad,
        )),
{
    if owned_ports.contains(port) {
        let i = choose|i: int| 0 <= i < owned_ports.len() && owned_ports[i] == port;
        assert(owned_ports[i] == port);
    }
    if reply is Ack {
        input_rules::law_pulse_is_read(
            hub,
            now_ns,
            port,
            source_id,
            Button::Select,
            later,
            pad,
            id,
            input::button_reading(pad, id),
        );
        input_rules::law_ports_are_apart(
            hub,
            now_ns,
            port,
            source_id,
            crate::input::InputUpdate {
                buttons: arbitrary(),
                axes: arbitrary(),
            },
            Button::Select,
            other,
            later,
            other_pad,
        );
    }
}

/// What a player sends for a port is taken, and acknowledged with its number,
/// exactly where the port is one of the player's and the source still has it; or,
/// where no ports are assigned, always. It is then what the port knows of that
/// source. The runtime is not asked for anything.
pub proof fn law_input_is_taken(
    hub: HubModel,
    ports: PortsModel,
    runtime: ManagerState,
    now_ns: u128,
    now_ms: u64,
    source_id: Seq<char>,
    owned_ports: Seq<u32>,
    allow_input: bool,
    port: u32,
    sequence: Option<u64>,
    update: crate::input::InputUpdate,
    hub_after: HubModel,
    runtime_after: ManagerState,
    reply: ServerMessage,
    axis: int,
    button: int,
)
    requires
        server::message_outcome(
            hub,
            ports,
            runtime,
            now_ns,
            now_ms,
            source_id,
            owned_ports,
            allow_input,
            Ok(ClientMessage::Input { port, sequence, update }),
            hub_after,
            runtime_after,
            reply,
        ),
        0 <= axis < 6,
        0 <= button < 16,
    ensures
        runtime_after == runtime,
        reply is Ack <==> allow_input && among(owned_ports, port) && (owned_ports.len() == 0 || (
        ports.contains_key(port) && ports[port].source_id == source_id
            && ports[port].reconnect_until is None)),
        reply !is Ack ==> reply is Error && hub_after == hub,
        reply is Ack ==> reply->sequence == sequence && reply->server_time_ms == now_ms,
        reply is Ack && port < 8 ==> {
            let known = hub_after.sources[(port, source_id)];
            &&& hub_after.sources.contains_key((port, source_id))
            &&& known.updated_at == now_ns
            &&& update.axes.at(axis) is Some ==> known.axes[axis] == update.axes.at(axis)->0
            &&& update.buttons.at(button) is Some ==> known.buttons[button] == update.buttons.at(
                button,
            )->0
        },
{
    if owned_ports.contains(port) {
        let i = choose|i: int| 0 <= i < owned_ports.len() && owned_ports[i] == port;
        assert(owned_ports[i] == port);
    }
}

/// A ping is acknowledged with the server's time and no number, whoever sends it,
/// and changes nothing.
pub proof fn law_ping_is_answered(
    hub: HubModel,
    ports: PortsModel,
    runtime: ManagerState,
    now_ns: u128,
    now_ms: u64,
    source_id: Seq<char>,
    owned_ports: Seq<u32>,
    allow_input: bool,
    client_time_ms: Option<u64>,
    hub_after: HubModel,
    runtime_after: ManagerState,
    reply: ServerMessage,
)
    requires
        server::message_outcome(
            hub,
            ports,
            runtime,
            now_ns,
            now_ms,
            source_id,
            owned_ports,
            allow_input,
            Ok(ClientMessage::Ping { client_time_ms }),
            hub_after,
            runtime_after,
            reply,
        ),
    ensures
        reply == (ServerMessage::Ack { sequence: None, server_time_ms: now_ms }),
        hub_after == hub,
        runtime_after == runtime,
{
}

/// What a client is told that may not send what it sent: which of its rights is
/// missing, and which port it is about.
pub proof fn law_refusals_say_why(
    hub: HubModel,
    ports: PortsModel,
    runtime: ManagerState,
    now_ns: u128,
    now_ms: u64,
    source_id: Seq<char>,
    owned_ports: Seq<u32>,
    allow_input: bool,
    parsed: Result<ClientMessage, String>,
    hub_after: HubModel,
    runtime_after: ManagerState,
    reply: ServerMessage,
)
    requires
        server::message_outcome(
            hub,
            ports,
            runtime,
            now_ns,
            now_ms,
            source_id,
            owned_ports,
            allow_input,
            parsed,
            hub_after,
            runtime_after,
            reply,
        ),
    ensures
        parsed is Err ==> reply is Error && reply->message@ == "invalid message: "@
            + parsed->Err_0@,
        parsed is Ok && parsed->Ok_0 is Input && !allow_input ==> reply is Error && reply->message@
            == "input requires player role"@,
        parsed is Ok && parsed->Ok_0 is Command && !allow_input ==> reply is Error
            && reply->message@ == "commands require player role"@,
        parsed is Ok && parsed->Ok_0 is Input && allow_input && !among(
            owned_ports,
            parsed->Ok_0->Input_port,
        ) ==> reply is Error && reply->message@ == "port "@ + text::decimal(
            parsed->Ok_0->Input_port as nat,
        ) + " not assigned to this player"@,
        parsed is Ok && parsed->Ok_0 is Command && allow_input && !among(
            owned_ports,
            parsed->Ok_0->Command_port,
        ) ==> reply is Error && reply->message@ == "port "@ + text::decimal(
            parsed->Ok_0->Command_port as nat,
        ) + " not assigned to this player"@,
{
    if parsed is Ok {
        let port = match parsed->Ok_0 {
            ClientMessage::Input { port, sequence, update } => port,
            ClientMessage::Command { command, port, slot, sequence } => port,
            ClientMessage::Ping { client_time_ms } => 0,
        };
        if owned_ports.contains(port) {
            let i = choose|i: int| 0 <= i < owned_ports.len() && owned_ports[i] == port;
            assert(owned_ports[i] == port);
        }
    }
}

/// Without a token anybody may watch where none is asked for, and nobody where one
/// is; nobody is let in by a token that nothing can be checked with; and whoever is
/// let in by a token has one that was found good.
pub proof fn law_who_may_watch<F: Fn(&Vec<u8>) -> Result<MatchClaims, String>>(
    auth: AuthConfig,
    token: Option<&str>,
    ports_needed: bool,
    now_ms: u64,
    parse: F,
    answer: Result<Option<MatchClaims>, Refusal>,
)
    requires
        server::access_outcome(auth, token, ports_needed, now_ms, parse, answer),
    ensures
        token is None && !auth.require_auth ==> answer is Ok && answer->Ok_0 is None,
        token is None && auth.require_auth ==> answer is Err && answer->Err_0.status == 401
            && answer->Err_0.message@ == "missing token"@,
        token is Some && auth.secret is None ==> answer is Err && answer->Err_0.status == 500
            && answer->Err_0.message@ == "auth secret not configured"@,
        token is Some && answer is Ok ==> {
            let claims = answer->Ok_0->0;
            &&& answer->Ok_0 is Some
            &&& auth.secret is Some
            &&& auth::token_outcome(token->0@, auth.secret->0@, now_ms, parse, Ok(claims))
            &&& ports_needed ==> claims.allowed_ports@.len() > 0
        },
        token is Some && auth.secret is Some && answer is Err ==> answer->Err_0.status == 401
            || answer->Err_0.status == 403,
        answer is Err && answer->Err_0.status == 403 ==> ports_needed && answer->Err_0.message@
            == "player token has no assigned ports"@,
{
}

/// To play takes a player's token with ports where a token is brought or asked
/// for; a token that only lets watch is turned down.
pub proof fn law_who_may_play<F: Fn(&Vec<u8>) -> Result<MatchClaims, String>>(
    auth: AuthConfig,
    token: Option<&str>,
    now_ms: u64,
    parse: F,
    answer: Result<Option<MatchClaims>, Refusal>,
)
    requires
        server::input_access_outcome(auth, token, now_ms, parse, answer),
    ensures
        token is None && !auth.require_auth ==> answer is Ok && answer->Ok_0 is None,
        token is None && auth.require_auth ==> answer is Err && answer->Err_0.status == 401,
        answer is Ok && answer->Ok_0 is Some ==> {
            let claims = answer->Ok_0->0;
            &&& token is Some
            &&& claims.role == MatchRole::Player
            &&& claims.allowed_ports@.len() > 0
            &&& auth.secret is Some
            &&& auth::token_outcome(token->0@, auth.secret->0@, now_ms, parse, Ok(claims))
        },
        answer is Ok && answer->Ok_0 is None ==> token is None && !auth.require_auth,
{
}

/// A source is named after its player, or after the kind of its connection, and
/// after its client; two clients have two names.
pub proof fn law_sources_have_names(
    claims: Option<MatchClaims>,
    kind: Seq<char>,
    one: u64,
    two: u64,
)
    ensures
        claims is Some ==> claims->0.player_id@.is_prefix_of(server::source_name(claims, kind, one)),
        claims is None ==> kind.is_prefix_of(server::source_name(claims, kind, one)),
        server::source_name(claims, kind, one) == server::source_name(claims, kind, two) ==> one
            == two,
{
    let head = match claims {
        Some(c) => c.player_id@ + "-"@,
        None => kind + "-"@,
    };
    let a = server::source_name(claims, kind, one);
    let b = server::source_name(claims, kind, two);
    let who = match claims {
        Some(c) => c.player_id@,
        None => kind,
    };
    assert(a.take(who.len() as int) =~= who);
    assert(a.skip(head.len() as int) =~= text::decimal(one as nat));
    assert(b.skip(head.len() as int) =~= text::decimal(two as nat));
    if a == b {
        text::law_decimal_round_trip(one as nat);
        text::law_decimal_round_trip(two as nat);
    }
}

/// What is launched: of everything that a request names, what it names, and of
/// the rest what is configured; but a picture is at least one pixel wide and high,
/// and at least one is shown in a second (a single's one is 0x3f80_0000).
pub proof fn law_request_goes_first(
    launch: LaunchConfig,
    request: StartRequest,
    defaults: LaunchConfig,
)
    requires
        session::launches(launch, request, defaults),
    ensures
        request.core is Some ==> launch.core is Some && launch.core->0@ == request.core->0@,
        request.core is None ==> (launch.core is Some <==> defaults.core is Some),
        request.core is None && defaults.core is Some ==> launch.core->0@ == defaults.core->0@,
        request.content is Some ==> launch.content is Some && launch.content->0@
            == request.content->0@,
        request.content is None ==> (launch.content is Some <==> defaults.content is Some),
        request.content is None && defaults.content is Some ==> launch.content->0@
            == defaults.content->0@,
        request.width is Some && request.width->0 > 0 ==> launch.width == request.width->0,
        request.width is None && defaults.width > 0 ==> launch.width == defaults.width,
        request.height is Some && request.height->0 > 0 ==> launch.height == request.height->0,
        request.height is None && defaults.height > 0 ==> launch.height == defaults.height,
        request.width == Some(0u32) ==> launch.width == 1,
        request.height == Some(0u32) ==> launch.height == 1,
        request.fps_bits is Some && 0x3f80_0000 <= request.fps_bits->0 <= 0x7f80_0000
            ==> launch.fps_bits == request.fps_bits->0,
        request.fps_bits is None && 0x3f80_0000 <= defaults.fps_bits <= 0x7f80_0000
            ==> launch.fps_bits == defaults.fps_bits,
        request.fps_bits is Some && !(0x3f80_0000 <= request.fps_bits->0 <= 0x7f80_0000)
            ==> launch.fps_bits == 0x3f80_0000,
        request.workspace is Some ==> launch.workspace == request.workspace->0,
        request.workspace is None ==> launch.workspace == defaults.workspace,
{
}

/// A status tells what runs, and that nothing does where nothing does.
pub proof fn law_status_tells(status: Status, state: ManagerState)
    requires
        session::tells(status, state),
    ensures
        status.running <==> state.active is Some,
        status.mode@ == (if state.active is None {
            "stopped"@
        } else if state.active->0.launch.core is None {
            "mock"@
        } else {
            "libretro"@
        }),
        status.last_exit is Some <==> state.last_exit is Some,
        status.last_exit is Some ==> status.last_exit->0@ == state.last_exit->0@,
        state.active is Some ==> {
            let active = state.active->0;
            &&& status.core is Some <==> active.launch.core is Some
            &&& status.core is Some ==> status.core->0@ == active.launch.core->0@
            &&& status.content is Some <==> active.launch.content is Some
            &&& status.content is Some ==> status.content->0@ == active.launch.content->0@
            &&& status.fps_bits == active.launch.fps_bits
            &&& status.width == active.launch.width
            &&& status.height == active.launch.height
            &&& status.started_at_unix_ms == Some(active.started_at_unix_ms)
            &&& status.session_dir is Some <==> active.session_dir is Some
            &&& status.session_dir is Some ==> status.session_dir->0@ == active.session_dir->0@
        },
        state.active is None ==> {
            &&& status.core is None
            &&& status.content is None
            &&& status.fps_bits == 0
            &&& status.width == 0
            &&& status.height == 0
            &&& status.started_at_unix_ms is None
            &&& status.session_dir is None
        },
{
}

/// How the end of a runtime is told.
pub proof fn law_exits_are_told(exit: RuntimeExit)
    ensures
        exit is Stopped ==> session::exit_view(exit) == "stopped"@,
        exit is Panicked ==> session::exit_view(exit) == "runtime thread panicked"@,
        exit is Failed ==> session::exit_view(exit) == "runtime exited with error: "@
            + exit->why@,
        session::exit_view(exit) == "stopped"@ <==> exit is Stopped,
{
    reveal_strlit("stopped");
    reveal_strlit("runtime thread panicked");
    reveal_strlit("runtime exited with error: ");
    if exit is Failed {
        assert(session::exit_view(exit).len() >= 27);
    }
    if exit is Panicked {
        assert(session::exit_view(exit).len() == 23);
    }
}

/// A session gets a directory exactly where there is a root for it. Its name is
/// the id, with an underscore for every character that is no letter, digit, dash
/// or underscore, and then a dash and the time. The core and the content are
/// copied where that is asked for.
pub proof fn law_workspace_is_planned(plan: Option<WorkspacePlan>, launch: LaunchConfig, stamp: u64)
    requires
        session::plans(plan, launch, stamp),
    ensures
        plan is Some <==> launch.workspace.root_dir is Some,
        plan is Some ==> {
            let root = launch.workspace.root_dir->0@;
            let id = if launch.workspace.id is Some {
                launch.workspace.id->0@
            } else {
                "session"@
            };
            let base = if id.len() == 0 {
                "session"@
            } else {
                Seq::new(
                    id.len(),
                    |i: int|
                        if ('a' <= id[i] <= 'z') || ('A' <= id[i] <= 'Z') || ('0' <= id[i] <= '9')
                            || id[i] == '-' || id[i] == '_' {
                            id[i]
                        } else {
                            '_'
                        },
                )
            };
            let name = base + seq!['-'] + text::decimal(stamp as nat);
            plan->0.session_dir@ == if root.len() == 0 || root.last() == '/' {
                root + name
            } else {
                root + seq!['/'] + name
            }
        },
        plan is Some ==> (plan->0.copy_core is Some <==> launch.workspace.copy_core
            && launch.core is Some),
        plan is Some && plan->0.copy_core is Some ==> plan->0.copy_core->0@ == launch.core->0@,
        plan is Some ==> (plan->0.copy_content is Some <==> launch.workspace.copy_content
            && launch.content is Some),
        plan is Some && plan->0.copy_content is Some ==> plan->0.copy_content->0@
            == launch.content->0@,
{
    if plan is Some {
        let root = launch.workspace.root_dir->0@;
        let id = if launch.workspace.id is Some {
            launch.workspace.id->0@
        } else {
            "session"@
        };
        let base = if id.len() == 0 {
            "session"@
        } else {
            Seq::new(
                id.len(),
                |i: int|
                    if ('a' <= id[i] <= 'z') || ('A' <= id[i] <= 'Z') || ('0' <= id[i] <= '9')
                        || id[i] == '-' || id[i] == '_' {
                        id[i]
                    } else {
                        '_'
                    },
            )
        };
        assert(base =~= session::clean_id(id));
        let name = base + seq!['-'] + text::decimal(stamp as nat);
        assert(name =~= session::session_name(launch.workspace.id, stamp));
        session::law_workspace_in_root(root, launch.workspace.id, stamp);
        assert(root + seq!['/'] + name =~= root.push('/') + name);
    }
}

/// One session at a time: what runs keeps running unless a restart is forced, and
/// then it is given up; and nothing else changes.
pub proof fn law_one_session_at_a_time(
    before: ManagerState,
    force_restart: bool,
    after: ManagerState,
    answer: Result<bool, String>,
)
    requires
        session::room_made(before, force_restart, after, answer),
    ensures
        before.active is None ==> answer == Ok::<bool, String>(false) && after.active is None,
        before.active is Some && force_restart ==> answer == Ok::<bool, String>(true)
            && after.active is None,
        before.active is Some && !force_restart ==> answer is Err && after == before
            && answer->Err_0@ == "session already running; set force_restart=true"@,
        after.last_exit == before.last_exit,
{
}

/// A session that was started is the one whose status is told, with nothing asked of
/// it yet; one that is stopped runs no more, and what was stopped is told.
pub proof fn law_started_and_stopped(
    launch: LaunchConfig,
    session_dir: Option<String>,
    started_at: u64,
    running: ManagerState,
    status: Status,
    after: ManagerState,
    given_up: bool,
    told: Status,
)
    requires
        session::runs(running, launch, session_dir, started_at),
        session::tells(status, running),
        session::gives_up(running, after, given_up),
        session::tells(told, after),
    ensures
        status.running,
        status.width == launch.width,
        status.height == launch.height,
        status.fps_bits == launch.fps_bits,
        status.started_at_unix_ms == Some(started_at),
        launch.core is Some ==> status.core is Some && status.core->0@ == launch.core->0@,
        status.mode@ == (if launch.core is Some {
            "libretro"@
        } else {
            "mock"@
        }),
        status.last_exit is None,
        running.active->0.control.commands@.len() == 0,
        running.active->0.session_dir == session_dir,
        running.active->0.launch == launch,
        given_up,
        !told.running,
        told.mode@ == "stopped"@,
{
}

/// A session that could not be started is in conflict where the message says that one
/// is already running, and else the request was bad.
pub proof fn law_start_that_failed(front: Seq<char>, back: Seq<char>, other: Seq<char>)
    ensures
        crate::streaming::start_status(front + "already running"@ + back) == 409,
        other.len() < 15 ==> crate::streaming::start_status(other) == 400,
{
    let part = "already running"@;
    let whole = front + part + back;
    reveal_strlit("already running");
    assert(part.len() == 15);
    assert(whole.subrange(front.len() as int, (front.len() + part.len()) as int) =~= part);
    let at = front.len() as int;
    assert(0 <= at <= whole.len() - part.len() && whole.subrange(at, at + part.len()) == part);
}


/// What has stopped in order was shut down well, and so was nothing at all; of any
/// other end it is told how it was.
pub proof fn law_shut_down(exit: Option<RuntimeExit>, verdict: Result<(), String>)
    requires
        session::shut_down(exit, verdict),
    ensures
        verdict is Ok <==> exit is None || session::exit_view(exit->0) == "stopped"@,
        verdict is Err ==> verdict->Err_0@ == session::exit_view(exit->0),
{
}

/// A request names a side by left or right; anything else is a bad request, and told
/// what would be none.
pub proof fn law_side_of_a_request(
    raw: Seq<char>,
    complaint: Seq<char>,
    side: Result<Side, Refusal>,
)
    requires
        crate::streaming::side_answered(raw, complaint, side),
    ensures
        side is Ok <==> text::folded(raw) == "left"@ || text::folded(raw) == "right"@,
        text::folded(raw) == "left"@ ==> side->Ok_0 == Side::Left,
        text::folded(raw) == "right"@ ==> side->Ok_0 == Side::Right,
        side is Err ==> side->Err_0.status == 400 && side->Err_0.message@ == complaint,
{
    reveal_strlit("left");
    reveal_strlit("right");
    assert("left"@.len() == 4 && "right"@.len() == 5);
}


/// The id of a session is made fit for a directory's name: as long as it was, with
/// letters, digits, dashes and underscores kept and anything else an underscore. One
/// that is empty is called session.
pub proof fn law_ids_are_tidied(raw: Seq<char>, i: int)
    requires
        0 <= i < raw.len(),
    ensures
        session::clean_id(Seq::<char>::empty()) == "session"@,
        session::clean_id(raw).len() == raw.len(),
        ({
            let c = raw[i];
            let kept = ('a' <= c <= 'z') || ('A' <= c <= 'Z') || ('0' <= c <= '9') || c == '-' || c
                == '_';
            &&& kept ==> session::clean_id(raw)[i] == c
            &&& !kept ==> session::clean_id(raw)[i] == '_'
        }),
{
}


/// The directory of a session is named by its id, or session where it has none, and by
/// when it was set up.
pub proof fn law_session_directories(root: Seq<char>, id: Option<String>, stamp: u64)
    ensures
        id is None ==> session::session_name(id, stamp) == "session"@ + "-"@ + text::decimal(
            stamp as nat,
        ),
        id is Some ==> session::session_name(id, stamp) == session::clean_id(id->0@) + "-"@
            + text::decimal(stamp as nat),
        session::session_path(root, id, stamp) == crate::paths::joined(
            root,
            session::session_name(id, stamp),
        ),
{
    reveal_strlit("session");
    reveal_strlit("-");
    let s = "session"@;
    assert(session::clean_id(s) =~= s);
    assert(s.push('-') + text::decimal(stamp as nat) =~= s + "-"@ + text::decimal(stamp as nat));
    if id is Some {
        let c = session::clean_id(id->0@);
        assert(c.push('-') + text::decimal(stamp as nat) =~= c + "-"@ + text::decimal(
            stamp as nat,
        ));
    }
}


} // verus!
