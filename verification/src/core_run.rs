//! The life of a core, from its library to the last of its frames: what is done
//! when, and what is undone at the end.

use vstd::prelude::*;

use crate::clock::MAX_DURATION_NS;
use crate::libretro;
use crate::libretro::{
    command_action, is_passable, should_preload, CommandAction, CoreFeatures, CoreLoadHints,
    LibretroRunConfig, RunClock, RuntimeCommand, SAVE_SYNC_INTERVAL_NS,
};

verus! {

/// How far a core has come: what is being waited for.
#[derive(Debug, Clone, Copy, PartialEq, Eq, Structural)]
pub enum CoreStage {
    LoadingLibrary,
    FindingSymbols,
    Starting,
    ReadingContent,
    LoadingGame,
    TakingTurn,
    RunningFrame,
    Sleeping,
    Finished,
}

/// What came of what was waited for. Times count from the same moment.
#[derive(Debug)]
pub enum CoreEvent {
    LibraryLoaded { outcome: Result<(), String> },
    /// The symbols that every core has are there, or one is missing; and what the
    /// core can do beyond.
    SymbolsFound { missing: Option<String>, features: CoreFeatures },
    Started { hints: Option<CoreLoadHints> },
    ContentRead { read: bool },
    GameLoaded { loaded: bool, now: u128, interval: u128 },
    Turn { stop: bool, commands: Vec<RuntimeCommand> },
    FrameRun { now: u128 },
    Woken { now: u128 },
}

/// What is undone when a core is no longer run.
#[derive(Debug, Clone, Copy, PartialEq, Eq, Structural)]
pub enum TeardownStep {
    UnloadGame,
    Deinit,
    ForgetCallbacks,
}

/// What is to be done next.
#[derive(Debug)]
pub enum CoreAction {
    FindSymbols,
    /// Set the callbacks and start the core.
    Start,
    ReadContent,
    /// Load the game: the path where there is content, and its bytes where they
    /// were read.
    LoadGame { with_path: bool, with_bytes: bool },
    /// See whether to stop, and what has been asked.
    TakeTurn,
    /// Do what has been asked, and then run a frame.
    RunFrame { commands: Vec<CommandAction> },
    Sleep { ns: u128 },
    /// Write the core's memory to disk, and go on with the next turn.
    SyncSave,
    /// Undo this, in order, and say how it went.
    Finish { steps: Vec<TeardownStep>, verdict: Result<(), String> },
    Nothing,
}

/// A core that is run.
#[derive(Debug, Clone)]
pub struct CoreRun {
    pub config: LibretroRunConfig,
    pub features: CoreFeatures,
    pub stage: CoreStage,
    pub clock: RunClock,
    pub interval: u128,
}

/// Whether each command comes to the action at its place.
pub open spec fn actions_fit(
    actions: Seq<CommandAction>,
    commands: Seq<RuntimeCommand>,
    has_content: bool,
    features: CoreFeatures,
) -> bool {
    &&& actions.len() == commands.len()
    &&& forall|i: int|
        0 <= i < actions.len() ==> #[trigger] libretro::action_fits(
            actions[i],
            commands[i],
            libretro::command_refusal(commands[i], has_content, features),
        )
}

/// What a core that is given up before its game was taken comes to.
pub open spec fn fails(action: CoreAction, steps: Seq<TeardownStep>, why: Seq<char>) -> bool {
    &&& action is Finish
    &&& action->steps@ == steps
    &&& action->verdict is Err
    &&& action->verdict->Err_0@ == why
}

/// Where an event leads, and what is done. One that was not waited for leads
/// nowhere.
pub open spec fn core_outcome(
    before: CoreRun,
    event: CoreEvent,
    after: CoreRun,
    action: CoreAction,
) -> bool {
    let has_content = before.config.content_path is Some;
    &&& after.config == before.config
    &&& match (before.stage, event) {
        (CoreStage::LoadingLibrary, CoreEvent::LibraryLoaded { outcome }) => {
            &&& after.features == before.features
            &&& after.clock == before.clock
            &&& after.interval == before.interval
            &&& match outcome {
                Ok(()) => after.stage == CoreStage::FindingSymbols && action is FindSymbols,
                Err(why) => after.stage == CoreStage::Finished && fails(
                    action,
                    Seq::empty(),
                    "failed to load core library "@ + before.config.core_path@ + ": "@ + why@,
                ),
            }
        },
        (CoreStage::FindingSymbols, CoreEvent::SymbolsFound { missing, features }) => {
            &&& after.features == features
            &&& after.clock == before.clock
            &&& after.interval == before.interval
            &&& match missing {
                None => after.stage == CoreStage::Starting && action is Start,
                Some(why) => after.stage == CoreStage::Finished && fails(
                    action,
                    Seq::empty(),
                    why@,
                ),
            }
        },
        (CoreStage::Starting, CoreEvent::Started { hints }) => {
            &&& after.features == before.features
            &&& after.clock == before.clock
            &&& after.interval == before.interval
            &&& if has_content && !libretro::passable(before.config.content_path->0@) {
                after.stage == CoreStage::Finished && fails(
                    action,
                    Seq::empty(),
                    "content path contains null byte: "@ + before.config.content_path->0@,
                )
            } else if has_content && (hints is Some ==> !hints->0.need_fullpath) {
                after.stage == CoreStage::ReadingContent && action is ReadContent
            } else {
                after.stage == CoreStage::LoadingGame && action == (CoreAction::LoadGame {
                    with_path: has_content,
                    with_bytes: false,
                })
            }
        },
        (CoreStage::ReadingContent, CoreEvent::ContentRead { read }) => {
            &&& after.features == before.features
            &&& after.clock == before.clock
            &&& after.interval == before.interval
            &&& after.stage == CoreStage::LoadingGame
            &&& action == (CoreAction::LoadGame { with_path: has_content, with_bytes: read })
        },
        (CoreStage::LoadingGame, CoreEvent::GameLoaded { loaded, now, interval }) => {
            &&& after.features == before.features
            &&& if loaded {
                &&& after.stage == CoreStage::TakingTurn
                &&& after.interval == interval
                &&& after.clock.next_frame == now
                &&& after.clock.next_save_sync == now + SAVE_SYNC_INTERVAL_NS
                &&& action is TakeTurn
            } else {
                &&& after.stage == CoreStage::Finished
                &&& after.interval == before.interval
                &&& after.clock == before.clock
                &&& fails(
                    action,
                    seq![TeardownStep::Deinit, TeardownStep::ForgetCallbacks],
                    "core failed to load game/content"@,
                )
            }
        },
        (CoreStage::TakingTurn, CoreEvent::Turn { stop, commands }) => {
            &&& after.features == before.features
            &&& after.clock == before.clock
            &&& after.interval == before.interval
            &&& if stop {
                &&& after.stage == CoreStage::Finished
                &&& action is Finish
                &&& action->steps@ == seq![
                    TeardownStep::UnloadGame,
                    TeardownStep::Deinit,
                    TeardownStep::ForgetCallbacks,
                ]
                &&& action->verdict is Ok
            } else {
                &&& after.stage == CoreStage::RunningFrame
                &&& action is RunFrame
                &&& actions_fit(
                    action->commands@,
                    commands@,
                    has_content,
                    before.features,
                )
            }
        },
        (CoreStage::RunningFrame, CoreEvent::FrameRun { now }) => {
            let due = before.clock.next_frame + before.interval;
            &&& after.features == before.features
            &&& after.interval == before.interval
            &&& after.clock.next_save_sync == before.clock.next_save_sync
            &&& after.clock.next_frame == if due > now {
                due
            } else {
                now as int
            }
            &&& after.stage == CoreStage::Sleeping
            &&& action is Sleep
            &&& now + action->ns == after.clock.next_frame
        },
        (CoreStage::Sleeping, CoreEvent::Woken { now }) => {
            let sync_due = now >= before.clock.next_save_sync;
            &&& after.features == before.features
            &&& after.interval == before.interval
            &&& after.clock.next_frame == before.clock.next_frame
            &&& after.clock.next_save_sync == if sync_due {
                now + SAVE_SYNC_INTERVAL_NS
            } else {
                before.clock.next_save_sync as int
            }
            &&& after.stage == CoreStage::TakingTurn
            &&& if sync_due && has_content && before.features.memory_data
                && before.features.memory_size {
                action is SyncSave
            } else {
                action is TakeTurn
            }
        },
        _ => after == before && action is Nothing,
    }
}

/// Whether the times of an event can be counted.
pub open spec fn countable(run: CoreRun, event: CoreEvent) -> bool {
    match event {
        CoreEvent::GameLoaded { loaded, now, interval } => now <= MAX_DURATION_NS,
        CoreEvent::FrameRun { now } => run.clock.next_frame + run.interval <= u128::MAX,
        CoreEvent::Woken { now } => now <= MAX_DURATION_NS,
        _ => true,
    }
}

fn fail(why: String) -> (action: CoreAction)
    ensures
        fails(action, Seq::empty(), why@),
{
    CoreAction::Finish { steps: Vec::new(), verdict: Err(why) }
}

/// What is known of a core that has not been looked into.
pub open spec fn no_features() -> CoreFeatures {
    CoreFeatures {
        reset: false,
        serialize_size: false,
        serialize: false,
        unserialize: false,
        memory_data: false,
        memory_size: false,
    }
}

impl CoreRun {
    /// A core that has not been loaded yet; its library is to be loaded first.
    pub fn new(config: LibretroRunConfig) -> (run: Self)
        ensures
            run == (CoreRun {
                config,
                features: no_features(),
                stage: CoreStage::LoadingLibrary,
                clock: RunClock { next_frame: 0, next_save_sync: 0 },
                interval: 0,
            }),
    {
        CoreRun {
            config,
            features: CoreFeatures {
                reset: false,
                serialize_size: false,
                serialize: false,
                unserialize: false,
                memory_data: false,
                memory_size: false,
            },
            stage: CoreStage::LoadingLibrary,
            clock: RunClock { next_frame: 0, next_save_sync: 0 },
            interval: 0,
        }
    }

    fn started(&mut self, hints: Option<CoreLoadHints>) -> (action: CoreAction)
        requires
            old(self).stage == CoreStage::Starting,
        ensures
            core_outcome(*old(self), CoreEvent::Started { hints }, *final(self), action),
    {
        let mut with_path = false;
        if let Some(path) = &self.config.content_path {
            with_path = true;
            if !is_passable(path.as_str()) {
                let mut why = "content path contains null byte: ".to_owned();
                why.append(path.as_str());
                self.stage = CoreStage::Finished;
                return fail(why);
            }
        }
        if should_preload(with_path, hints) {
            self.stage = CoreStage::ReadingContent;
            CoreAction::ReadContent
        } else {
            self.stage = CoreStage::LoadingGame;
            CoreAction::LoadGame { with_path, with_bytes: false }
        }
    }

    fn game_loaded(&mut self, loaded: bool, now: u128, interval: u128) -> (action: CoreAction)
        requires
            old(self).stage == CoreStage::LoadingGame,
            now <= MAX_DURATION_NS,
        ensures
            core_outcome(
                *old(self),
                CoreEvent::GameLoaded { loaded, now, interval },
                *final(self),
                action,
            ),
    {
        if loaded {
            self.clock = RunClock::start(now);
            self.interval = interval;
            self.stage = CoreStage::TakingTurn;
            return CoreAction::TakeTurn;
        }
        self.stage = CoreStage::Finished;
        let mut steps: Vec<TeardownStep> = Vec::new();
        steps.push(TeardownStep::Deinit);
        steps.push(TeardownStep::ForgetCallbacks);
        assert(steps@ =~= seq![TeardownStep::Deinit, TeardownStep::ForgetCallbacks]);
        CoreAction::Finish { steps, verdict: Err("core failed to load game/content".to_owned()) }
    }

    fn turn(&mut self, stop: bool, commands: Vec<RuntimeCommand>) -> (action: CoreAction)
        requires
            old(self).stage == CoreStage::TakingTurn,
        ensures
            core_outcome(
                *old(self),
                CoreEvent::Turn { stop, commands },
                *final(self),
                action,
            ),
    {
        if stop {
            self.stage = CoreStage::Finished;
            let mut steps: Vec<TeardownStep> = Vec::new();
            steps.push(TeardownStep::UnloadGame);
            steps.push(TeardownStep::Deinit);
            steps.push(TeardownStep::ForgetCallbacks);
            assert(steps@ =~= seq![
                TeardownStep::UnloadGame,
                TeardownStep::Deinit,
                TeardownStep::ForgetCallbacks,
            ]);
            return CoreAction::Finish { steps, verdict: Ok(()) };
        }
        let has_content: bool = self.config.content_path.is_some();
        let features = self.features;
        let mut actions: Vec<CommandAction> = Vec::new();
        let mut i: usize = 0;
        while i < commands.len()
            invariant
                i <= commands@.len(),
                actions_fit(actions@, commands@.take(i as int), has_content, features),
            decreases commands@.len() - i,
        {
            let ghost done = actions@;
            actions.push(command_action(commands[i], has_content, features));
            proof {
                let now = commands@.take(i + 1);
                assert forall|j: int| 0 <= j < actions@.len() implies #[trigger]
                    libretro::action_fits(
                    actions@[j],
                    now[j],
                    libretro::command_refusal(now[j], has_content, features),
                ) by {
                    if j < i {
                        assert(actions@[j] == done[j]);
                        assert(now[j] == commands@.take(i as int)[j]);
                    }
                }
            }
            i += 1;
        }
        assert(commands@.take(i as int) =~= commands@);
        self.stage = CoreStage::RunningFrame;
        CoreAction::RunFrame { commands: actions }
    }

    /// Takes an event and tells what is to be done next.
    pub fn advance(&mut self, event: CoreEvent) -> (action: CoreAction)
        requires
            countable(*old(self), event),
        ensures
            core_outcome(*old(self), event, *final(self), action),
    {
        match (self.stage, event) {
            (CoreStage::LoadingLibrary, CoreEvent::LibraryLoaded { outcome }) => match outcome {
                Ok(()) => {
                    self.stage = CoreStage::FindingSymbols;
                    CoreAction::FindSymbols
                },
                Err(reason) => {
                    self.stage = CoreStage::Finished;
                    let mut why = "failed to load core library ".to_owned();
                    why.append(self.config.core_path.as_str());
                    why.append(": ");
                    why.append(reason.as_str());
                    fail(why)
                },
            },
            (CoreStage::FindingSymbols, CoreEvent::SymbolsFound { missing, features }) => {
                self.features = features;
                match missing {
                    None => {
                        self.stage = CoreStage::Starting;
                        CoreAction::Start
                    },
                    Some(why) => {
                        self.stage = CoreStage::Finished;
                        fail(why)
                    },
                }
            },
            (CoreStage::Starting, CoreEvent::Started { hints }) => self.started(hints),
            (CoreStage::ReadingContent, CoreEvent::ContentRead { read }) => {
                self.stage = CoreStage::LoadingGame;
                CoreAction::LoadGame {
                    with_path: self.config.content_path.is_some(),
                    with_bytes: read,
                }
            },
            (CoreStage::LoadingGame, CoreEvent::GameLoaded { loaded, now, interval }) => {
                self.game_loaded(loaded, now, interval)
            },
            (CoreStage::TakingTurn, CoreEvent::Turn { stop, commands }) => self.turn(
                stop,
                commands,
            ),
            (CoreStage::RunningFrame, CoreEvent::FrameRun { now }) => {
                let ns: u128 = self.clock.frame_done(now, self.interval);
                self.stage = CoreStage::Sleeping;
                CoreAction::Sleep { ns }
            },
            (CoreStage::Sleeping, CoreEvent::Woken { now }) => {
                let due: bool = self.clock.save_due(now);
                self.stage = CoreStage::TakingTurn;
                if due && self.config.content_path.is_some() && self.features.memory_data
                    && self.features.memory_size {
                    CoreAction::SyncSave
                } else {
                    CoreAction::TakeTurn
                }
            },
            _ => CoreAction::Nothing,
        }
    }
}

/// Whether a game is loaded at a stage.
pub open spec fn game_is_loaded(stage: CoreStage) -> bool {
    stage == CoreStage::TakingTurn || stage == CoreStage::RunningFrame || stage
        == CoreStage::Sleeping
}

/// A core that is done with is left as it was found: a game is unloaded exactly
/// where one was loaded, and before the core is shut down; and a core that took
/// its game never fails.
pub proof fn law_finish_undoes(before: CoreRun, event: CoreEvent, after: CoreRun, action: CoreAction)
    requires
        core_outcome(before, event, after, action),
        action is Finish,
    ensures
        after.stage == CoreStage::Finished,
        action->steps@.contains(TeardownStep::UnloadGame) <==> game_is_loaded(before.stage),
        game_is_loaded(before.stage) ==> action->verdict is Ok && action->steps@[0]
            == TeardownStep::UnloadGame && action->steps@[1] == TeardownStep::Deinit,
        !game_is_loaded(before.stage) ==> action->verdict is Err,
        before.stage == CoreStage::LoadingGame || before.stage == CoreStage::TakingTurn ==> {
            &&& action->steps@.contains(TeardownStep::Deinit)
            &&& action->steps@.last() == TeardownStep::ForgetCallbacks
        },
{
    if before.stage == CoreStage::TakingTurn {
        assert(action->steps@[0] == TeardownStep::UnloadGame);
        assert(action->steps@[1] == TeardownStep::Deinit);
    } else if before.stage == CoreStage::LoadingGame {
        assert(action->steps@[0] == TeardownStep::Deinit);
    }
}

/// A finished core stays finished.
pub proof fn law_finished_is_final(
    before: CoreRun,
    event: CoreEvent,
    after: CoreRun,
    action: CoreAction,
)
    requires
        core_outcome(before, event, after, action),
        before.stage == CoreStage::Finished,
    ensures
        after == before,
        action is Nothing,
{
}

/// Between two writes of a core's memory to disk lies the whole interval.
pub proof fn law_saves_apart(
    first: CoreRun,
    first_at: u128,
    after_first: CoreRun,
    first_action: CoreAction,
    second: CoreRun,
    second_at: u128,
    after_second: CoreRun,
    second_action: CoreAction,
)
    requires
        first.stage == CoreStage::Sleeping,
        core_outcome(first, CoreEvent::Woken { now: first_at }, after_first, first_action),
        first_action is SyncSave,
        second.stage == CoreStage::Sleeping,
        second.clock.next_save_sync == after_first.clock.next_save_sync,
        core_outcome(second, CoreEvent::Woken { now: second_at }, after_second, second_action),
        second_action is SyncSave,
    ensures
        second_at >= first_at + SAVE_SYNC_INTERVAL_NS,
{
}

/// Frames never come faster than their interval, and a core that has fallen
/// behind does not hurry to catch up.
pub proof fn law_frames_paced(before: CoreRun, now: u128, after: CoreRun, action: CoreAction)
    requires
        before.stage == CoreStage::RunningFrame,
        core_outcome(before, CoreEvent::FrameRun { now }, after, action),
    ensures
        after.clock.next_frame >= before.clock.next_frame + before.interval,
        now + action->ns >= before.clock.next_frame + before.interval,
        action->ns == 0 ==> after.clock.next_frame == now,
{
}

/// What saving a state takes: a path to write to, and something to write.
pub fn state_target(save_dir: &str, content_path: &str, slot: u8, size: usize) -> (path: Option<
    String,
>)
    ensures
        match path {
            Some(p) => size > 0 && libretro::state_path(save_dir@, content_path@, slot) == Some(
                p@,
            ),
            None => size == 0 || libretro::state_path(save_dir@, content_path@, slot) is None,
        },
{
    if size == 0 {
        return None;
    }
    libretro::state_snapshot_path(save_dir, content_path, slot)
}

/// Whether a state that was read from disk is handed to the core.
pub fn is_restorable(on_disk: Option<&[u8]>) -> (restorable: bool)
    ensures
        restorable == (on_disk is Some && on_disk->0@.len() > 0),
{
    match on_disk {
        Some(bytes) => bytes.len() > 0,
        None => false,
    }
}

} // verus!
