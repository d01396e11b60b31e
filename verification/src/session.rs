//! Sessions: what is to be launched, what is running, and how it ended.

use vstd::prelude::*;

use crate::clock::now_unix_ms;
use crate::libretro::{RuntimeCommand, RuntimeControl};
use crate::paths;
use crate::text;

verus! {

/// Where a session keeps its files, and what is copied there.
#[derive(Debug, Clone)]
pub struct WorkspaceConfig {
    pub root_dir: Option<String>,
    pub id: Option<String>,
    pub copy_core: bool,
    pub copy_content: bool,
}

impl Default for WorkspaceConfig {
    fn default() -> (config: Self)
        ensures
            config.root_dir is None,
            config.id is None,
            !config.copy_core,
            !config.copy_content,
    {
        WorkspaceConfig { root_dir: None, id: None, copy_core: false, copy_content: false }
    }
}

pub open spec fn text_view(t: Option<String>) -> Option<Seq<char>> {
    match t {
        Some(s) => Some(s@),
        None => None,
    }
}

fn copy_text(t: &Option<String>) -> (out: Option<String>)
    ensures
        text_view(out) == text_view(*t),
        out == *t,
{
    match t {
        Some(s) => Some(s.clone()),
        None => None,
    }
}

impl WorkspaceConfig {
    fn duplicate(&self) -> (out: Self)
        ensures
            out == *self,
    {
        WorkspaceConfig {
            root_dir: copy_text(&self.root_dir),
            id: copy_text(&self.id),
            copy_core: self.copy_core,
            copy_content: self.copy_content,
        }
    }
}

/// What is launched. Without a core the built-in picture source runs. The frame
/// rate is held as the bits of its IEEE 754 single.
#[derive(Debug, Clone)]
pub struct LaunchConfig {
    pub core: Option<String>,
    pub content: Option<String>,
    pub fps_bits: u32,
    pub width: u32,
    pub height: u32,
    pub workspace: WorkspaceConfig,
}

/// What a client asks to be launched; what is missing is as configured.
#[derive(Debug, Clone)]
pub struct StartRequest {
    pub core: Option<String>,
    pub content: Option<String>,
    pub fps_bits: Option<u32>,
    pub width: Option<u32>,
    pub height: Option<u32>,
    pub force_restart: bool,
    pub workspace: Option<WorkspaceConfig>,
}

/// How a session is doing.
#[derive(Debug, Clone)]
pub struct Status {
    pub running: bool,
    pub mode: String,
    pub core: Option<String>,
    pub content: Option<String>,
    pub fps_bits: u32,
    pub width: u32,
    pub height: u32,
    pub started_at_unix_ms: Option<u64>,
    pub session_dir: Option<String>,
    pub last_exit: Option<String>,
}

/// The bits of one, as an IEEE 754 single.
pub const ONE_BITS: u32 = 0x3f80_0000;

/// The bits of infinity, as an IEEE 754 single.
pub const INFINITY_BITS: u32 = 0x7f80_0000;

/// The larger of a single and one, by their bits: positive singles are ordered
/// as their bits are, and what is no number counts for nothing.
pub open spec fn at_least_one_fps(bits: u32) -> u32 {
    if ONE_BITS < bits <= INFINITY_BITS {
        bits
    } else {
        ONE_BITS
    }
}

pub fn clamp_fps_bits(bits: u32) -> (out: u32)
    ensures
        out == at_least_one_fps(bits),
{
    if ONE_BITS < bits && bits <= INFINITY_BITS {
        bits
    } else {
        ONE_BITS
    }
}

pub open spec fn at_least_one(n: u32) -> u32 {
    if n == 0 {
        1
    } else {
        n
    }
}

/// A runtime that has been started.
#[derive(Debug)]
pub struct ActiveRuntime {
    pub launch: LaunchConfig,
    pub session_dir: Option<String>,
    pub started_at_unix_ms: u64,
    pub control: RuntimeControl,
}

/// What is running, and how the last runtime ended.
#[derive(Debug)]
pub struct ManagerState {
    pub active: Option<ActiveRuntime>,
    pub last_exit: Option<String>,
}

impl Default for ManagerState {
    fn default() -> (state: Self)
        ensures
            state.active is None,
            state.last_exit is None,
    {
        ManagerState { active: None, last_exit: None }
    }
}

/// Whether a status tells of a state: the launch that runs, or that nothing
/// does.
pub open spec fn tells(status: Status, state: ManagerState) -> bool {
    &&& text_view(status.last_exit) == text_view(state.last_exit)
    &&& match state.active {
        Some(active) => {
            &&& status.running
            &&& status.mode@ == (if active.launch.core is Some {
                "libretro"@
            } else {
                "mock"@
            })
            &&& text_view(status.core) == text_view(active.launch.core)
            &&& text_view(status.content) == text_view(active.launch.content)
            &&& status.fps_bits == active.launch.fps_bits
            &&& status.width == active.launch.width
            &&& status.height == active.launch.height
            &&& status.started_at_unix_ms == Some(active.started_at_unix_ms)
            &&& text_view(status.session_dir) == text_view(active.session_dir)
        },
        None => {
            &&& !status.running
            &&& status.mode@ == "stopped"@
            &&& status.core is None
            &&& status.content is None
            &&& status.fps_bits == 0
            &&& status.width == 0
            &&& status.height == 0
            &&& status.started_at_unix_ms is None
            &&& status.session_dir is None
        },
    }
}

/// The status that tells of a state.
pub fn snapshot_locked(state: &ManagerState) -> (status: Status)
    ensures
        tells(status, *state),
{
    match &state.active {
        Some(active) => Status {
            running: true,
            mode: if active.launch.core.is_some() {
                "libretro".to_owned()
            } else {
                "mock".to_owned()
            },
            core: copy_text(&active.launch.core),
            content: copy_text(&active.launch.content),
            fps_bits: active.launch.fps_bits,
            width: active.launch.width,
            height: active.launch.height,
            started_at_unix_ms: Some(active.started_at_unix_ms),
            session_dir: copy_text(&active.session_dir),
            last_exit: copy_text(&state.last_exit),
        },
        None => Status {
            running: false,
            mode: "stopped".to_owned(),
            core: None,
            content: None,
            fps_bits: 0,
            width: 0,
            height: 0,
            started_at_unix_ms: None,
            session_dir: None,
            last_exit: copy_text(&state.last_exit),
        },
    }
}

/// How a runtime ended.
#[derive(Debug, Clone)]
pub enum RuntimeExit {
    Stopped,
    Failed { why: String },
    Panicked,
}

pub open spec fn exit_view(exit: RuntimeExit) -> Seq<char> {
    match exit {
        RuntimeExit::Stopped => "stopped"@,
        RuntimeExit::Failed { why } => "runtime exited with error: "@ + why@,
        RuntimeExit::Panicked => "runtime thread panicked"@,
    }
}

/// How the end of a runtime is told.
pub fn exit_text(exit: &RuntimeExit) -> (out: String)
    ensures
        out@ == exit_view(*exit),
{
    match exit {
        RuntimeExit::Stopped => "stopped".to_owned(),
        RuntimeExit::Failed { why } => {
            let mut out = "runtime exited with error: ".to_owned();
            out.append(why.as_str());
            out
        },
        RuntimeExit::Panicked => "runtime thread panicked".to_owned(),
    }
}

/// One session at a time: its defaults, and what is running.
#[derive(Debug)]
pub struct SessionManager {
    pub defaults: LaunchConfig,
    pub state: ManagerState,
}

/// The first of two texts that is there.
pub open spec fn first_text(a: Option<String>, b: Option<String>) -> Option<Seq<char>> {
    match a {
        Some(s) => Some(s@),
        None => text_view(b),
    }
}

/// What a request comes to over the defaults.
pub open spec fn launches(launch: LaunchConfig, request: StartRequest, defaults: LaunchConfig) -> bool {
    &&& text_view(launch.core) == first_text(request.core, defaults.core)
    &&& text_view(launch.content) == first_text(request.content, defaults.content)
    &&& launch.fps_bits == at_least_one_fps(
        match request.fps_bits {
            Some(bits) => bits,
            None => defaults.fps_bits,
        },
    )
    &&& launch.width == at_least_one(
        match request.width {
            Some(n) => n,
            None => defaults.width,
        },
    )
    &&& launch.height == at_least_one(
        match request.height {
            Some(n) => n,
            None => defaults.height,
        },
    )
    &&& launch.workspace == (match request.workspace {
        Some(w) => w,
        None => defaults.workspace,
    })
}

/// The state with a command more for what is running.
pub open spec fn asked(
    before: ManagerState,
    command: RuntimeCommand,
    refusal: Seq<char>,
    after: ManagerState,
    answer: Result<(), String>,
) -> bool {
    match before.active {
        Some(runtime) => {
            &&& answer is Ok
            &&& after.last_exit == before.last_exit
            &&& after.active is Some
            &&& after.active->0.control.commands@ == runtime.control.commands@.push(command)
            &&& after.active->0.launch == runtime.launch
            &&& after.active->0.session_dir == runtime.session_dir
            &&& after.active->0.started_at_unix_ms == runtime.started_at_unix_ms
        },
        None => after == before && answer is Err && answer->Err_0@ == refusal,
    }
}

/// What making room for a session does and answers: whether something was given
/// up, or that something runs.
pub open spec fn room_made(
    before: ManagerState,
    force_restart: bool,
    after: ManagerState,
    answer: Result<bool, String>,
) -> bool {
    &&& after.last_exit == before.last_exit
    &&& match answer {
        Ok(given_up) => {
            &&& before.active is Some ==> force_restart
            &&& given_up == (before.active is Some)
            &&& after.active is None
        },
        Err(why) => {
            &&& before.active is Some
            &&& !force_restart
            &&& after.active == before.active
            &&& why@ == "session already running; set force_restart=true"@
        },
    }
}

/// Whether a launch runs and nothing has been asked of it yet.
pub open spec fn runs(
    state: ManagerState,
    launch: LaunchConfig,
    session_dir: Option<String>,
    started_at_unix_ms: u64,
) -> bool {
    &&& state.last_exit is None
    &&& state.active is Some
    &&& state.active->0.launch == launch
    &&& state.active->0.session_dir == session_dir
    &&& state.active->0.started_at_unix_ms == started_at_unix_ms
    &&& state.active->0.control.commands@ == Seq::<RuntimeCommand>::empty()
}

/// What giving up what runs does and answers: whether anything did.
pub open spec fn gives_up(before: ManagerState, after: ManagerState, given_up: bool) -> bool {
    &&& given_up == (before.active is Some)
    &&& after.active is None
    &&& after.last_exit == before.last_exit
}

/// What shutting down comes to, by how what was running ended.
pub open spec fn shut_down(exit: Option<RuntimeExit>, verdict: Result<(), String>) -> bool {
    match exit {
        Some(e) => if exit_view(e) == "stopped"@ {
            verdict is Ok
        } else {
            verdict is Err && verdict->Err_0@ == exit_view(e)
        },
        None => verdict is Ok,
    }
}

impl SessionManager {
    pub fn new(defaults: LaunchConfig) -> (manager: Self)
        ensures
            manager.defaults == defaults,
            manager.state.active is None,
            manager.state.last_exit is None,
    {
        SessionManager { defaults, state: ManagerState { active: None, last_exit: None } }
    }

    /// Makes room for a new session: what is running is given up where a restart
    /// is forced, and keeps running otherwise. Says whether something was given
    /// up, which then has to be ended.
    pub fn start(&mut self, force_restart: bool) -> (answer: Result<bool, String>)
        ensures
            final(self).defaults == old(self).defaults,
            room_made(old(self).state, force_restart, final(self).state, answer),
    {
        if self.state.active.is_some() && !force_restart {
            return Err("session already running; set force_restart=true".to_owned());
        }
        let given_up: bool = self.state.active.is_some();
        self.state.active = None;
        Ok(given_up)
    }

    /// Notes how a runtime that was given up has ended.
    pub fn note_exit(&mut self, exit: &RuntimeExit)
        ensures
            final(self).defaults == old(self).defaults,
            final(self).state.active == old(self).state.active,
            text_view(final(self).state.last_exit) == Some(exit_view(*exit)),
    {
        self.state.last_exit = Some(exit_text(exit));
    }

    /// Notes that a session was launched, and tells its status. How the one
    /// before it ended is forgotten.
    pub fn started(
        &mut self,
        launch: LaunchConfig,
        session_dir: Option<String>,
        started_at_unix_ms: u64,
    ) -> (status: Status)
        ensures
            final(self).defaults == old(self).defaults,
            runs(final(self).state, launch, session_dir, started_at_unix_ms),
            tells(status, final(self).state),
    {
        self.state.active = Some(
            ActiveRuntime {
                launch,
                session_dir,
                started_at_unix_ms,
                control: RuntimeControl { commands: Vec::new() },
            },
        );
        self.state.last_exit = None;
        snapshot_locked(&self.state)
    }

    /// What a request asks to be launched, over the defaults.
    pub fn start_from_request(&self, request: StartRequest) -> (launch: LaunchConfig)
        ensures
            launches(launch, request, self.defaults),
    {
        let core = match request.core {
            Some(path) => Some(path),
            None => copy_text(&self.defaults.core),
        };
        let content = match request.content {
            Some(path) => Some(path),
            None => copy_text(&self.defaults.content),
        };
        let fps_bits: u32 = match request.fps_bits {
            Some(bits) => bits,
            None => self.defaults.fps_bits,
        };
        let width: u32 = match request.width {
            Some(n) => n,
            None => self.defaults.width,
        };
        let height: u32 = match request.height {
            Some(n) => n,
            None => self.defaults.height,
        };
        let workspace = match request.workspace {
            Some(w) => w,
            None => self.defaults.workspace.duplicate(),
        };
        LaunchConfig {
            core,
            content,
            fps_bits: clamp_fps_bits(fps_bits),
            width: if width == 0 {
                1
            } else {
                width
            },
            height: if height == 0 {
                1
            } else {
                height
            },
            workspace,
        }
    }

    /// Gives up what is running, and says whether anything was; it then has to be
    /// ended.
    pub fn stop(&mut self) -> (given_up: bool)
        ensures
            gives_up(old(self).state, final(self).state, given_up),
            final(self).defaults == old(self).defaults,
    {
        let given_up: bool = self.state.active.is_some();
        self.state.active = None;
        given_up
    }

    pub fn status(&self) -> (status: Status)
        ensures
            tells(status, self.state),
    {
        snapshot_locked(&self.state)
    }

    fn ask(&mut self, command: RuntimeCommand) -> (taken: bool)
        ensures
            taken == (old(self).state.active is Some),
            final(self).defaults == old(self).defaults,
            taken ==> asked(
                old(self).state,
                command,
                ""@,
                final(self).state,
                Ok(()),
            ),
            !taken ==> final(self).state == old(self).state,
    {
        match self.state.active.take() {
            Some(runtime) => {
                let mut runtime = runtime;
                runtime.control.commands.push(command);
                self.state.active = Some(runtime);
                true
            },
            None => false,
        }
    }

    pub fn request_reset(&mut self) -> (answer: Result<(), String>)
        ensures
            final(self).defaults == old(self).defaults,
            asked(
                old(self).state,
                RuntimeCommand::Reset,
                "no active runtime to reset"@,
                final(self).state,
                answer,
            ),
    {
        if self.ask(RuntimeCommand::Reset) {
            Ok(())
        } else {
            Err("no active runtime to reset".to_owned())
        }
    }

    pub fn request_save_state(&mut self, slot: u8) -> (answer: Result<(), String>)
        ensures
            final(self).defaults == old(self).defaults,
            asked(
                old(self).state,
                RuntimeCommand::SaveState { slot },
                "no active runtime to save a state from"@,
                final(self).state,
                answer,
            ),
    {
        if self.ask(RuntimeCommand::SaveState { slot }) {
            Ok(())
        } else {
            Err("no active runtime to save a state from".to_owned())
        }
    }

    pub fn request_load_state(&mut self, slot: u8) -> (answer: Result<(), String>)
        ensures
            final(self).defaults == old(self).defaults,
            asked(
                old(self).state,
                RuntimeCommand::LoadState { slot },
                "no active runtime to load a state into"@,
                final(self).state,
                answer,
            ),
    {
        if self.ask(RuntimeCommand::LoadState { slot }) {
            Ok(())
        } else {
            Err("no active runtime to load a state into".to_owned())
        }
    }

    /// What shutting down comes to, by how what was running ended: anything but
    /// an orderly stop is told.
    pub fn shutdown_and_join(exit: Option<&RuntimeExit>) -> (verdict: Result<(), String>)
        ensures
            shut_down(
                match exit {
                    Some(e) => Some(*e),
                    None => None,
                },
                verdict,
            ),
    {
        match exit {
            Some(e) => {
                let told = exit_text(e);
                if text::same_text(told.as_str(), "stopped") {
                    Ok(())
                } else {
                    Err(told)
                }
            },
            None => Ok(()),
        }
    }
}

pub open spec fn kept_in_id(c: char) -> bool {
    ('a' <= c <= 'z') || ('A' <= c <= 'Z') || ('0' <= c <= '9') || c == '-' || c == '_'
}

/// A session's id fit for a directory's name: any character but letters, digits,
/// dashes and underscores is made an underscore, and an empty id has a name.
pub open spec fn clean_id(raw: Seq<char>) -> Seq<char> {
    if raw.len() == 0 {
        "session"@
    } else {
        Seq::new(
            raw.len(),
            |i: int|
                if kept_in_id(raw[i]) {
                    raw[i]
                } else {
                    '_'
                },
        )
    }
}

pub fn sanitize_session_id(raw: &str) -> (out: String)
    ensures
        out@ == clean_id(raw@),
{
    let chars = text::chars_of(raw);
    if chars.len() == 0 {
        return "session".to_owned();
    }
    let mut out = String::new();
    let mut i: usize = 0;
    while i < chars.len()
        invariant
            i <= chars@.len(),
            chars@ == raw@,
            raw@.len() > 0,
            out@ == clean_id(raw@).take(i as int),
        decreases chars@.len() - i,
    {
        let c = chars[i];
        if ('a' <= c && c <= 'z') || ('A' <= c && c <= 'Z') || ('0' <= c && c <= '9') || c == '-'
            || c == '_' {
            out.push(c);
        } else {
            out.push('_');
        }
        i += 1;
        assert(out@ =~= clean_id(raw@).take(i as int));
    }
    assert(out@ =~= clean_id(raw@));
    out
}

/// A clean id stays as it is, is never empty, and is made of letters, digits,
/// dashes and underscores alone.
pub proof fn law_clean_ids(raw: Seq<char>)
    ensures
        clean_id(clean_id(raw)) == clean_id(raw),
        clean_id(raw).len() > 0,
        forall|i: int| 0 <= i < clean_id(raw).len() ==> kept_in_id(#[trigger] clean_id(raw)[i]),
{
    reveal_strlit("session");
    assert(clean_id(clean_id(raw)) =~= clean_id(raw));
}

/// The name of the directory of a session that is set up at `stamp`.
pub open spec fn session_name(id: Option<String>, stamp: u64) -> Seq<char> {
    let raw = match id {
        Some(given) => given@,
        None => "session"@,
    };
    clean_id(raw).push('-') + text::decimal(stamp as nat)
}

/// The directory of a session that is set up at `stamp`.
pub open spec fn session_path(root_dir: Seq<char>, id: Option<String>, stamp: u64) -> Seq<char> {
    paths::joined(root_dir, session_name(id, stamp))
}

proof fn lemma_decimal_kept(n: nat)
    ensures
        forall|i: int|
            0 <= i < text::decimal(n).len() ==> kept_in_id(#[trigger] text::decimal(n)[i]),
    decreases n,
{
    let last = text::digit_char(n % 10);
    assert(kept_in_id(last));
    if n >= 10 {
        lemma_decimal_kept(n / 10);
        assert(text::decimal(n) == text::decimal(n / 10).push(last));
    } else {
        assert(text::decimal(n) == seq![last]);
    }
}

/// Whatever id is asked for, a session's directory lies directly in the root
/// directory: its path is that of the root and a name without slashes.
pub proof fn law_workspace_in_root(root_dir: Seq<char>, id: Option<String>, stamp: u64)
    ensures
        root_dir.is_prefix_of(session_path(root_dir, id, stamp)),
        session_name(id, stamp).len() > 0,
        !session_name(id, stamp).contains('/'),
        session_path(root_dir, id, stamp) == (if root_dir.len() == 0 || root_dir.last() == '/' {
            root_dir + session_name(id, stamp)
        } else {
            root_dir.push('/') + session_name(id, stamp)
        }),
{
    let raw = match id {
        Some(given) => given@,
        None => "session"@,
    };
    let name = session_name(id, stamp);
    law_clean_ids(raw);
    lemma_decimal_kept(stamp as nat);
    assert forall|i: int| 0 <= i < name.len() implies name[i] != '/' by {
        if i < clean_id(raw).len() {
            assert(name[i] == clean_id(raw)[i]);
        } else if i > clean_id(raw).len() {
            assert(name[i] == text::decimal(stamp as nat)[i - clean_id(raw).len() - 1]);
        }
    }
    assert(root_dir =~= session_path(root_dir, id, stamp).take(root_dir.len() as int));
}

/// What has to be done to set up a session: which directory to make, and which
/// files to copy into it.
#[derive(Debug, Clone)]
pub struct WorkspacePlan {
    pub session_dir: String,
    pub copy_core: Option<String>,
    pub copy_content: Option<String>,
}

/// Whether `plan` sets up the workspace of a launch at `stamp`.
pub open spec fn plans(plan: Option<WorkspacePlan>, launch: LaunchConfig, stamp: u64) -> bool {
    match launch.workspace.root_dir {
        Some(root) => {
            &&& plan is Some
            &&& plan->0.session_dir@ == session_path(root@, launch.workspace.id, stamp)
            &&& text_view(plan->0.copy_core) == (if launch.workspace.copy_core {
                text_view(launch.core)
            } else {
                None
            })
            &&& text_view(plan->0.copy_content) == (if launch.workspace.copy_content {
                text_view(launch.content)
            } else {
                None
            })
        },
        None => plan is None,
    }
}

/// What has to be done to set up the workspace of a launch at `stamp`; nothing
/// without a root directory.
pub fn prepare_session_workspace_at(launch: &LaunchConfig, stamp: u64) -> (plan: Option<
    WorkspacePlan,
>)
    ensures
        plans(plan, *launch, stamp),
{
    match &launch.workspace.root_dir {
        Some(root) => {
            let base = match &launch.workspace.id {
                Some(id) => sanitize_session_id(id.as_str()),
                None => sanitize_session_id("session"),
            };
            let mut name = base;
            name.push('-');
            text::push_decimal(&mut name, stamp);
            Some(
                WorkspacePlan {
                    session_dir: paths::join(root.as_str(), name.as_str()),
                    copy_core: if launch.workspace.copy_core {
                        copy_text(&launch.core)
                    } else {
                        None
                    },
                    copy_content: if launch.workspace.copy_content {
                        copy_text(&launch.content)
                    } else {
                        None
                    },
                },
            )
        },
        None => None,
    }
}

/// What has to be done to set up the workspace of a launch now.
pub fn prepare_session_workspace(launch: &LaunchConfig) -> (plan: Option<WorkspacePlan>)
    ensures
        exists|stamp: u64| #[trigger] plans(plan, *launch, stamp),
{
    let stamp: u64 = now_unix_ms();
    prepare_session_workspace_at(launch, stamp)
}

/// Where a file goes that is copied into a directory, if it has a name.
pub fn copy_target(src: &str, target_dir: &str) -> (target: Result<String, String>)
    ensures
        match paths::file_name(src@) {
            Some(name) => target is Ok && target->Ok_0@ == paths::joined(target_dir@, name),
            None => target is Err && target->Err_0@ == "path has no filename: "@ + src@,
        },
{
    match paths::name_of(src) {
        Some(name) => Ok(paths::join(target_dir, name.as_str())),
        None => {
            let mut why = "path has no filename: ".to_owned();
            why.append(src);
            Err(why)
        },
    }
}

/// The launch once the files of its plan have been copied.
pub fn with_copies(
    launch: LaunchConfig,
    core: Option<String>,
    content: Option<String>,
) -> (out: LaunchConfig)
    ensures
        text_view(out.core) == first_text(core, launch.core),
        text_view(out.content) == first_text(content, launch.content),
        out.fps_bits == launch.fps_bits,
        out.width == launch.width,
        out.height == launch.height,
        out.workspace == launch.workspace,
{
    LaunchConfig {
        core: match core {
            Some(path) => Some(path),
            None => launch.core,
        },
        content: match content {
            Some(path) => Some(path),
            None => launch.content,
        },
        fps_bits: launch.fps_bits,
        width: launch.width,
        height: launch.height,
        workspace: launch.workspace,
    }
}

/// A launch never has an empty picture or a standstill, whatever was asked.
pub proof fn law_launch_is_sane(launch: LaunchConfig, request: StartRequest, defaults: LaunchConfig)
    requires
        launches(launch, request, defaults),
    ensures
        launch.width >= 1,
        launch.height >= 1,
        ONE_BITS <= launch.fps_bits <= INFINITY_BITS,
{
}

} // verus!
