//! What a core may rely on, what is done with it when, and where its files are.

use vstd::prelude::*;

use crate::core_run;
use crate::core_run::{CoreAction, CoreEvent, CoreRun, CoreStage, TeardownStep};
use crate::frame::PixelFormat;
use crate::input;
use crate::input::{InputHub, PadModel};
use crate::libretro;
use crate::libretro::{
    CommandAction, CoreEnvironment, CoreFeatures, EnvironmentCommand, EnvironmentReply,
    EnvironmentRequest, OptionDefinition, RuntimeCommand, SaveFile,
};
use crate::mock_core;
use crate::mock_core::MockInput;
use crate::paths;
use crate::text;

verus! {

/// The numbers by which a core asks.
pub proof fn law_environment_numbers(command: EnvironmentCommand)
    ensures
        command == EnvironmentCommand::GetSystemDirectory <==> libretro::command_number(command)
            == 9,
        command == EnvironmentCommand::SetPixelFormat <==> libretro::command_number(command) == 10,
        command == EnvironmentCommand::GetVariable <==> libretro::command_number(command) == 15,
        command == EnvironmentCommand::SetVariables <==> libretro::command_number(command) == 16,
        command == EnvironmentCommand::GetVariableUpdate <==> libretro::command_number(command)
            == 17,
        command == EnvironmentCommand::GetSaveDirectory <==> libretro::command_number(command)
            == 31,
        command == EnvironmentCommand::GetLanguage <==> libretro::command_number(command) == 39,
        command == EnvironmentCommand::SetCoreOptions <==> libretro::command_number(command) == 53,
        command == EnvironmentCommand::SetCoreOptionsIntl <==> libretro::command_number(command)
            == 54,
        command == EnvironmentCommand::SetCoreOptionsDisplay <==> libretro::command_number(command)
            == 55,
        command == EnvironmentCommand::SetCoreOptionsV2 <==> libretro::command_number(command)
            == 67,
        command == EnvironmentCommand::SetCoreOptionsV2Intl <==> libretro::command_number(command)
            == 68,
{
}

/// What a core is granted: the directories, English, that no option has changed
/// since, and the three pixel formats by their numbers (0 for 1555, 1 for 8888, 2
/// for 565), which count from then on. What is not known or comes without data is
/// refused and changes nothing.
pub proof fn law_core_is_answered(
    before: CoreEnvironment,
    request: EnvironmentRequest,
    after: CoreEnvironment,
    reply: EnvironmentReply,
)
    requires
        libretro::environment_outcome(before, request, after, reply),
    ensures
        request is Unknown || request is NoData ==> reply is Refused,
        request is GetSystemDirectory <==> reply is SystemDirectory,
        request is GetSaveDirectory <==> reply is SaveDirectory,
        request is GetVariableUpdate <==> reply is Unchanged,
        request is GetLanguage <==> reply is English,
        request is SetPixelFormat && request->raw == 0 ==> reply is Done && after.pixel_format
            == PixelFormat::Xrgb1555,
        request is SetPixelFormat && request->raw == 1 ==> reply is Done && after.pixel_format
            == PixelFormat::Xrgb8888,
        request is SetPixelFormat && request->raw == 2 ==> reply is Done && after.pixel_format
            == PixelFormat::Rgb565,
        request is SetPixelFormat && !(0 <= request->raw <= 2) ==> reply is Refused
            && after.pixel_format == before.pixel_format,
        request !is SetPixelFormat ==> after.pixel_format == before.pixel_format,
        request !is SetVariables && request !is SetCoreOptions ==> after.options@
            == before.options@,
        reply is Refused ==> after.options@ == before.options@ && after.pixel_format
            == before.pixel_format,
        reply is Value ==> request is GetVariable && request->GetVariable_key is Some
            && before.options@.contains_key(request->GetVariable_key->0@) && reply->value@
            == before.options@[request->GetVariable_key->0@],
        request is GetVariable && request->GetVariable_key is Some
            && before.options@.contains_key(request->GetVariable_key->0@) ==> reply is Value,
{
}

/// Whether a list defines an option, as far as it can be handed over.
pub open spec fn defines(d: OptionDefinition, key: Seq<char>) -> bool {
    d.key is Some && d.key->0@ == key && d.value is Some
}

proof fn lemma_defined(list: Seq<OptionDefinition>, n: int, j: int, key: Seq<char>)
    requires
        0 <= j < n <= list.len(),
        defines(list[j], key),
        libretro::passable(libretro::chosen_value(key, list[j].value->0@)),
        forall|i: int| j < i < n ==> !defines(#[trigger] list[i], key),
    ensures
        libretro::defined_options(list, n).contains_key(key),
        libretro::defined_options(list, n)[key] == libretro::chosen_value(
            key,
            list[j].value->0@,
        ),
    decreases n,
{
    if j < n - 1 {
        lemma_defined(list, n - 1, j, key);
        assert(!defines(list[n - 1], key));
    }
}

/// A core that has defined an option reads it as it was last defined, but for the
/// two plugins of the N64 core, which are always angrylion and cxd4.
pub proof fn law_option_is_read_back(
    before: CoreEnvironment,
    list: Vec<OptionDefinition>,
    between: CoreEnvironment,
    granted: EnvironmentReply,
    key: String,
    after: CoreEnvironment,
    reply: EnvironmentReply,
    j: int,
)
    requires
        libretro::environment_outcome(
            before,
            EnvironmentRequest::SetCoreOptions { list: Some(list) },
            between,
            granted,
        ),
        libretro::environment_outcome(
            between,
            EnvironmentRequest::GetVariable { key: Some(key) },
            after,
            reply,
        ),
        0 <= j < list@.len(),
        defines(list@[j], key@),
        forall|i: int| j < i < list@.len() ==> !defines(#[trigger] list@[i], key@),
    ensures
        granted is Done,
        key@ == "mupen64plus-rdp-plugin"@ ==> reply is Value && reply->value@ == "angrylion"@,
        key@ == "mupen64plus-rsp-plugin"@ ==> reply is Value && reply->value@ == "cxd4"@,
        key@ != "mupen64plus-rdp-plugin"@ && key@ != "mupen64plus-rsp-plugin"@ && (forall|i: int|
            0 <= i < list@[j].value->0@.len() ==> #[trigger] list@[j].value->0@[i] != '\0')
            ==> reply is Value && reply->value@ == list@[j].value->0@,
{
    reveal_strlit("angrylion");
    reveal_strlit("cxd4");
    reveal_strlit("mupen64plus-rdp-plugin");
    reveal_strlit("mupen64plus-rsp-plugin");
    assert("mupen64plus-rdp-plugin"@[13] == 'd' && "mupen64plus-rsp-plugin"@[13] == 's');
    assert(libretro::passable("angrylion"@));
    assert(libretro::passable("cxd4"@));
    if libretro::passable(libretro::chosen_value(key@, list@[j].value->0@)) {
        lemma_defined(list@, list@.len() as int, j, key@);
    }
}

proof fn lemma_no_space(s: Seq<char>)
    requires
        s.len() > 0,
        !text::is_space(s[0]),
        !text::is_space(s.last()),
    ensures
        text::trimmed(s) == s,
{
}

/// The default of an option that is described as "words; first|second|..." is the
/// first of its values.
pub proof fn law_first_value_is_the_default(words: Seq<char>, first: Seq<char>, rest: Seq<char>)
    requires
        forall|i: int| 0 <= i < words.len() ==> #[trigger] words[i] != ';',
        forall|i: int| 0 <= i < first.len() ==> #[trigger] first[i] != '|',
        first.len() > 0,
        !text::is_space(first[0]),
        !text::is_space(first.last()),
    ensures
        libretro::legacy_default(words + seq![';', ' '] + first + seq!['|'] + rest) == Some(first),
{
    let d = words + seq![';', ' '] + first + seq!['|'] + rest;
    let k = words.len() as int;
    text::lemma_before_mark(d, ';', k);
    let tail = d.skip(k + 1);
    assert(tail =~= seq![' '] + first + seq!['|'] + rest);
    let n = (first.len() + 1) as int;
    assert forall|i: int| 0 <= i < n implies #[trigger] tail[i] != '|' by {
        if i > 0 {
            assert(tail[i] == first[i - 1]);
        }
    }
    assert(tail[n] == '|');
    text::lemma_before_mark(tail, '|', n);
    let head = tail.take(n);
    assert(head =~= seq![' '] + first);
    assert(text::pieces(tail, '|')[0] == head);
    assert(text::is_space(' '));
    assert(head.drop_first() =~= first);
    assert(text::trim_front(first) == first);
    assert(text::trim_front(head) == first);
    assert(text::trim_back(first) == first);
}

/// A core reads buttons from the joypad, device 1, and sticks from the analog one,
/// device 5; any other device, and a core without controllers, reads zero.
pub proof fn law_devices(
    hub: Option<&InputHub>,
    now: u128,
    port: u32,
    device: u32,
    index: u32,
    id: u32,
    value: i16,
)
    requires
        libretro::device_reading(hub, now, port, device, index, id, value),
    ensures
        hub is None || (device != 1 && device != 5) ==> value == 0,
        hub is Some && device == 1 ==> exists|pad: PadModel| #[trigger]
            input::merged(hub->0@, now, port, pad) && value == input::button_reading(pad, id),
        hub is Some && device == 5 ==> exists|pad: PadModel| #[trigger]
            input::merged(hub->0@, now, port, pad) && value == input::stick_reading(
                pad,
                index,
                id,
            ),
{
}

/// A picture that a core shows is taken with all its rows, as far apart as the core
/// says; none is where there is none, where it is the last one again, or where it
/// has no pixels.
pub proof fn law_picture_is_taken(
    missing: bool,
    repeated: bool,
    width: u32,
    height: u32,
    pitch: usize,
)
    requires
        pitch * height <= usize::MAX,
    ensures
        ({
            let taken = libretro::picture_len(missing, repeated, width, height, pitch);
            &&& taken is Some <==> !missing && !repeated && width > 0 && height > 0 && pitch > 0
            &&& taken is Some ==> taken->0 == pitch * height
        }),
{
    assert(pitch > 0 && height > 0 ==> pitch * height > 0) by (nonlinear_arith);
    assert(pitch == 0 ==> pitch * height == 0) by (nonlinear_arith);
}

/// A command is carried out exactly where the core can do it and, for a state, its
/// content is known; the slot is the one that was asked for.
pub proof fn law_command_is_carried_out(
    command: RuntimeCommand,
    has_content: bool,
    features: CoreFeatures,
    action: CommandAction,
)
    requires
        libretro::action_fits(
            action,
            command,
            libretro::command_refusal(command, has_content, features),
        ),
    ensures
        command is Reset ==> (action is Reset <==> features.reset),
        command is SaveState ==> (action is SaveState <==> has_content && features.serialize_size
            && features.serialize),
        command is LoadState ==> (action is LoadState <==> has_content && features.unserialize),
        action is Reset ==> command is Reset,
        action is SaveState ==> command is SaveState && action->SaveState_slot
            == command->SaveState_slot,
        action is LoadState ==> command is LoadState && action->LoadState_slot
            == command->LoadState_slot,
        action is Nothing && command is SaveState ==> ("save state requested for slot "@
            + text::decimal(command->SaveState_slot as nat)).is_prefix_of(action->why@),
        action is Nothing && command is LoadState ==> ("load state requested for slot "@
            + text::decimal(command->LoadState_slot as nat)).is_prefix_of(action->why@),
{
    if action is Nothing && command is SaveState {
        let head = "save state requested for slot "@ + text::decimal(
            command->SaveState_slot as nat,
        );
        assert(action->why@.take(head.len() as int) =~= head);
    }
    if action is Nothing && command is LoadState {
        let head = "load state requested for slot "@ + text::decimal(
            command->LoadState_slot as nat,
        );
        assert(action->why@.take(head.len() as int) =~= head);
    }
}

/// A state is kept in the directory "states", under the game's name, in a file
/// that has the slot's number in two digits at least. Slot zero is slot one.
pub proof fn law_where_states_are(save_dir: Seq<char>, content: Seq<char>, slot: u8)
    ensures
        ({
            let path = libretro::state_path(save_dir, content, slot);
            let name = libretro::game_name(content);
            let n = if slot == 0 {
                1nat
            } else {
                slot as nat
            };
            let dir = paths::joined(paths::joined(save_dir, "states"@), name->0);
            &&& path is Some <==> name is Some
            &&& path is Some && n < 10 ==> path->0 == paths::joined(
                dir,
                "slot-"@ + "0"@ + text::decimal(n) + ".state"@,
            )
            &&& path is Some && n >= 10 ==> path->0 == paths::joined(
                dir,
                "slot-"@ + text::decimal(n) + ".state"@,
            )
        }),
{
}

/// A game's files go by the name of its content, without directory, extension and
/// white space.
pub proof fn law_game_is_named(dir: Seq<char>, name: Seq<char>, ext: Seq<char>)
    requires
        name.len() > 0,
        !text::is_space(name[0]),
        !text::is_space(name.last()),
        forall|i: int| 0 <= i < name.len() ==> #[trigger] name[i] != '/',
        forall|i: int| 0 <= i < ext.len() ==> #[trigger] ext[i] != '/' && ext[i] != '.',
        ext.len() > 0,
    ensures
        libretro::game_name(dir + seq!['/'] + name + seq!['.'] + ext) == Some(name),
{
    let full = name + seq!['.'] + ext;
    let p = dir + seq!['/'] + name + seq!['.'] + ext;
    assert(p =~= dir + seq!['/'] + full);
    lemma_last_name(dir, full);
    lemma_last_dot_at(name, ext);
    assert(full.take(name.len() as int) =~= name);
    assert(full.len() >= 3);
    lemma_no_space(name);
}

proof fn lemma_name_start(dir: Seq<char>, name: Seq<char>, n: int)
    requires
        0 <= n <= name.len(),
        forall|i: int| 0 <= i < name.len() ==> #[trigger] name[i] != '/',
    ensures
        paths::name_start(dir + seq!['/'] + name.take(n)) == dir.len() + 1,
    decreases n,
{
    let p = dir + seq!['/'] + name.take(n);
    if n == 0 {
        assert(p.last() == '/');
    } else {
        assert(p.last() == name[n - 1]);
        assert(p.drop_last() =~= dir + seq!['/'] + name.take(n - 1));
        lemma_name_start(dir, name, n - 1);
    }
}

proof fn lemma_last_name(dir: Seq<char>, name: Seq<char>)
    requires
        name.len() > 0,
        name.last() != '/',
        name.last() != '.',
        forall|i: int| 0 <= i < name.len() ==> #[trigger] name[i] != '/',
    ensures
        paths::last_name(dir + seq!['/'] + name) == name,
{
    let p = dir + seq!['/'] + name;
    assert(p.last() == name.last());
    assert(paths::trimmed_end(p) == p);
    assert(name.take(name.len() as int) =~= name);
    lemma_name_start(dir, name, name.len() as int);
    assert(p.skip((dir.len() + 1) as int) =~= name);
}

proof fn lemma_last_dot_at(name: Seq<char>, ext: Seq<char>)
    requires
        forall|i: int| 0 <= i < ext.len() ==> #[trigger] ext[i] != '.',
    ensures
        paths::last_dot(name + seq!['.'] + ext) == name.len(),
    decreases ext.len(),
{
    let s = name + seq!['.'] + ext;
    if ext.len() == 0 {
        assert(s.last() == '.');
    } else {
        assert(s.last() == ext.last());
        assert(s.drop_last() =~= name + seq!['.'] + ext.drop_last());
        lemma_last_dot_at(name, ext.drop_last());
    }
}

/// The parts of a path: its directory, its last name, and that without and with
/// its extension alone. Another extension takes the place of the old one.
pub proof fn law_parts_of_a_path(dir: Seq<char>, name: Seq<char>, ext: Seq<char>, other: Seq<char>)
    requires
        dir.len() > 0,
        dir.last() != '/',
        dir.last() != '.',
        name.len() > 0,
        forall|i: int| 0 <= i < name.len() ==> #[trigger] name[i] != '/',
        forall|i: int| 0 <= i < ext.len() ==> #[trigger] ext[i] != '/' && ext[i] != '.',
        ext.len() > 0,
    ensures
        ({
            let path = dir + seq!['/'] + name + seq!['.'] + ext;
            &&& paths::file_name(path) == Some(name + seq!['.'] + ext)
            &&& paths::file_stem(path) == Some(name)
            &&& paths::extension(path) == Some(ext)
            &&& paths::parent(path) == Some(dir)
            &&& paths::with_extension(path, other) == dir + seq!['/'] + name + seq!['.'] + other
        }),
{
    let full = name + seq!['.'] + ext;
    let path = dir + seq!['/'] + name + seq!['.'] + ext;
    assert(path =~= dir + seq!['/'] + full);
    lemma_last_name(dir, full);
    lemma_last_dot_at(name, ext);
    assert(full.len() >= 3);
    assert(full.take(name.len() as int) =~= name);
    assert(full.skip(name.len() + 1int) =~= ext);
    assert(path.last() == ext.last());
    assert(paths::trimmed_end(path) == path);
    assert(full.take(full.len() as int) =~= full);
    lemma_name_start(dir, full, full.len() as int);
    let head = path.take((dir.len() + 1) as int);
    assert(head =~= dir + seq!['/']);
    assert(head.drop_last() =~= dir);
    assert(paths::trimmed_end(dir) == dir);
    assert(paths::trimmed_end(head) == dir);
    assert(path.take((dir.len() + 1 + name.len()) as int).push('.') + other =~= dir + seq!['/']
        + name + seq!['.'] + other);
}

/// The names that files of saved memory have: those that end in sav, srm or ram,
/// in whatever case.
pub proof fn law_save_files(name: Seq<char>, ext: Seq<char>)
    requires
        paths::extension(name) == Some(ext),
    ensures
        libretro::is_save_name(name) <==> text::lower(ext) == "sav"@ || text::lower(ext) == "srm"@
            || text::lower(ext) == "ram"@,
{
}

/// A core is brought up in this order: its library, its symbols, its start, its
/// content where it is to be read, its game; then turn by turn.
pub proof fn law_core_comes_up(
    before: CoreRun,
    event: CoreEvent,
    after: CoreRun,
    action: CoreAction,
)
    requires
        core_run::core_outcome(before, event, after, action),
    ensures
        before.stage == CoreStage::LoadingLibrary && event is LibraryLoaded
            && event->LibraryLoaded_outcome is Ok ==> action is FindSymbols && after.stage
            == CoreStage::FindingSymbols,
        before.stage == CoreStage::FindingSymbols && event is SymbolsFound && event->missing is None
            ==> action is Start && after.stage == CoreStage::Starting && after.features
            == event->features,
        before.stage == CoreStage::Starting && event is Started && before.config.content_path
            is None ==> after.stage == CoreStage::LoadingGame && action is LoadGame
            && !action->with_path && !action->with_bytes,
        before.stage == CoreStage::Starting && event is Started && action is ReadContent ==> {
            &&& before.config.content_path is Some
            &&& event->hints is Some ==> !event->hints->0.need_fullpath
            &&& after.stage == CoreStage::ReadingContent
        },
        before.stage == CoreStage::Starting && event is Started && event->hints is Some
            && event->hints->0.need_fullpath && action is LoadGame ==> !action->with_bytes
            && action->with_path == (before.config.content_path is Some),
        before.stage == CoreStage::ReadingContent && event is ContentRead ==> after.stage
            == CoreStage::LoadingGame && action is LoadGame && action->with_path == (
        before.config.content_path is Some) && action->with_bytes == event->read,
        before.stage == CoreStage::LoadingGame && event is GameLoaded && event->loaded ==> {
            &&& after.stage == CoreStage::TakingTurn
            &&& action is TakeTurn
            &&& after.interval == event->interval
            &&& after.clock.next_frame == event->GameLoaded_now
            &&& after.clock.next_save_sync == event->GameLoaded_now + 5_000_000_000
        },
        before.stage == CoreStage::TakingTurn && event is Turn && !event->stop ==> after.stage
            == CoreStage::RunningFrame && action is RunFrame,
        before.stage == CoreStage::RunningFrame && event is FrameRun ==> after.stage
            == CoreStage::Sleeping && action is Sleep,
        before.stage == CoreStage::Sleeping && event is Woken ==> after.stage
            == CoreStage::TakingTurn && (action is TakeTurn || action is SyncSave),
        after.config == before.config,
{
}

/// In a turn every command is taken up, in the order in which they were asked, each
/// for what it is.
pub proof fn law_turn_takes_every_command(
    before: CoreRun,
    commands: Vec<RuntimeCommand>,
    after: CoreRun,
    action: CoreAction,
    i: int,
)
    requires
        before.stage == CoreStage::TakingTurn,
        core_run::core_outcome(
            before,
            CoreEvent::Turn { stop: false, commands },
            after,
            action,
        ),
        0 <= i < commands@.len(),
    ensures
        action is RunFrame,
        action->commands@.len() == commands@.len(),
        ({
            let done = action->commands@[i];
            let asked = commands@[i];
            let has_content = before.config.content_path is Some;
            &&& asked is Reset && before.features.reset ==> done is Reset
            &&& asked is SaveState && has_content && before.features.serialize_size
                && before.features.serialize ==> done is SaveState && done->SaveState_slot
                == asked->SaveState_slot
            &&& asked is LoadState && has_content && before.features.unserialize
                ==> done is LoadState && done->LoadState_slot == asked->LoadState_slot
            &&& done is Reset ==> asked is Reset
            &&& done is SaveState ==> asked is SaveState
            &&& done is LoadState ==> asked is LoadState
        }),
{
    let has_content = before.config.content_path is Some;
    assert(libretro::action_fits(
        action->commands@[i],
        commands@[i],
        libretro::command_refusal(commands@[i], has_content, before.features),
    ));
}

/// A core that is stopped has its game unloaded, is shut down and loses its
/// callbacks, in this order. One that did not take its game is shut down, one that
/// never started is left alone, and what went wrong is said.
pub proof fn law_core_is_left(
    before: CoreRun,
    event: CoreEvent,
    after: CoreRun,
    action: CoreAction,
)
    requires
        core_run::core_outcome(before, event, after, action),
    ensures
        before.stage == CoreStage::TakingTurn && event is Turn && event->stop ==> {
            &&& action is Finish
            &&& action->verdict is Ok
            &&& action->steps@.len() == 3
            &&& action->steps@[0] == TeardownStep::UnloadGame
            &&& action->steps@[1] == TeardownStep::Deinit
            &&& action->steps@[2] == TeardownStep::ForgetCallbacks
        },
        before.stage == CoreStage::LoadingGame && event is GameLoaded && !event->loaded ==> {
            &&& action is Finish
            &&& action->verdict is Err
            &&& action->verdict->Err_0@ == "core failed to load game/content"@
            &&& action->steps@.len() == 2
            &&& action->steps@[0] == TeardownStep::Deinit
            &&& action->steps@[1] == TeardownStep::ForgetCallbacks
        },
        before.stage == CoreStage::LoadingLibrary && event is LibraryLoaded
            && event->LibraryLoaded_outcome is Err ==> {
            &&& action is Finish
            &&& action->verdict is Err
            &&& action->verdict->Err_0@ == "failed to load core library "@
                + before.config.core_path@ + ": "@ + event->LibraryLoaded_outcome->Err_0@
            &&& action->steps@.len() == 0
        },
        before.stage == CoreStage::FindingSymbols && event is SymbolsFound
            && event->missing is Some ==> {
            &&& action is Finish
            &&& action->verdict is Err
            &&& action->verdict->Err_0@ == event->missing->0@
            &&& action->steps@.len() == 0
        },
        action is Finish ==> after.stage == CoreStage::Finished,
{
}

/// A frame is due one interval after the last one. A core sleeps until then, and
/// not at all where it is late; and its memory is written to disk every five
/// seconds, where it has content and tells of its memory.
pub proof fn law_core_keeps_time(
    before: CoreRun,
    now: u128,
    after: CoreRun,
    action: CoreAction,
)
    ensures
        before.stage == CoreStage::RunningFrame && core_run::core_outcome(
            before,
            CoreEvent::FrameRun { now },
            after,
            action,
        ) ==> {
            let due = before.clock.next_frame + before.interval;
            &&& due > now ==> action->ns == due - now && after.clock.next_frame == due
            &&& due <= now ==> action->ns == 0 && after.clock.next_frame == now
        },
        before.stage == CoreStage::Sleeping && core_run::core_outcome(
            before,
            CoreEvent::Woken { now },
            after,
            action,
        ) ==> {
            &&& action is SyncSave <==> now >= before.clock.next_save_sync
                && before.config.content_path is Some && before.features.memory_data
                && before.features.memory_size
            &&& now >= before.clock.next_save_sync ==> after.clock.next_save_sync == now
                + 5_000_000_000
            &&& now < before.clock.next_save_sync ==> after.clock.next_save_sync
                == before.clock.next_save_sync
            &&& after.clock.next_frame == before.clock.next_frame
        },
{
}

/// A number as a byte, held between 0 and 255.
pub open spec fn held_byte(n: int) -> int {
    if n < 0 {
        0
    } else if n > 255 {
        255
    } else {
        n
    }
}

/// The built-in picture, pixel by pixel: four bytes each, row by row from the top,
/// blue, green, red and nothing. Red runs across by one with each frame and with
/// the stick, green down by one with every other one; each button that is held
/// makes its colour full.
pub proof fn law_built_in_picture(
    width: u32,
    height: u32,
    frame: u64,
    input: MockInput,
    x: int,
    y: int,
)
    requires
        0 <= x < width,
        0 <= y < height,
    ensures
        ({
            let p = mock_core::mock_picture(width, height, frame, input);
            let at = 4 * (y * width + x);
            &&& p.len() == 4 * (width * height)
            &&& 0 <= at && at + 3 < p.len()
            &&& p[at] == held_byte(frame as int % 256 + ((x as u32) ^ (y as u32)) as int % 256 / 2)
            &&& p[at + 1] == if input.b_held {
                255
            } else {
                held_byte((y + frame as int / 2) % 256 + input.y_bias)
            }
            &&& p[at + 2] == if input.a_held {
                255
            } else {
                held_byte((x + frame) % 256 + input.x_bias)
            }
            &&& p[at + 3] == 0
        }),
{
    let p = mock_core::mock_picture(width, height, frame, input);
    let at = 4 * (y * width + x);
    assert(4 * width * height == 4 * (width * height)) by (nonlinear_arith);
    assert(0 <= y * width + x < width * height) by (nonlinear_arith)
        requires
            0 <= x < width,
            0 <= y < height,
    ;
    mock_core::lemma_pixel_bytes(width, x as u32, y as u32, frame, input, 0);
    mock_core::lemma_pixel_bytes(width, x as u32, y as u32, frame, input, 1);
    mock_core::lemma_pixel_bytes(width, x as u32, y as u32, frame, input, 2);
    mock_core::lemma_pixel_bytes(width, x as u32, y as u32, frame, input, 3);
}

proof fn lemma_no_dot(name: Seq<char>)
    requires
        forall|i: int| 0 <= i < name.len() ==> #[trigger] name[i] != '.',
    ensures
        paths::last_dot(name) == -1,
    decreases name.len(),
{
    if name.len() > 0 {
        assert(name.last() == name[name.len() - 1]);
        assert forall|i: int| 0 <= i < name.drop_last().len() implies #[trigger] name.drop_last()[i]
            != '.' by {
            assert(name.drop_last()[i] == name[i]);
        }
        lemma_no_dot(name.drop_last());
    }
}

/// The memory of a game is kept in the save directory, under the game's name and with
/// the extension srm.
pub proof fn law_where_memory_is(
    save_dir: Seq<char>,
    dir: Seq<char>,
    name: Seq<char>,
    ext: Seq<char>,
    any: Seq<char>,
)
    requires
        save_dir.len() > 0,
        save_dir.last() != '/',
        name.len() > 0,
        !text::is_space(name[0]),
        !text::is_space(name.last()),
        forall|i: int| 0 <= i < name.len() ==> #[trigger] name[i] != '/' && name[i] != '.',
        forall|i: int| 0 <= i < ext.len() ==> #[trigger] ext[i] != '/' && ext[i] != '.',
        ext.len() > 0,
    ensures
        libretro::save_ram_path(save_dir, dir + seq!['/'] + name + seq!['.'] + ext) == Some(
            save_dir + seq!['/'] + name + ".srm"@,
        ),
        libretro::save_ram_path(save_dir, any) is Some <==> libretro::game_name(any) is Some,
{
    law_game_is_named(dir, name, ext);
    let path = save_dir + seq!['/'] + name;
    assert(save_dir.push('/') + name =~= path);
    assert(name.last() == name[name.len() - 1]);
    lemma_last_name(save_dir, name);
    lemma_no_dot(name);
    assert(path.last() == name.last());
    assert(paths::trimmed_end(path) == path);
    assert(name.take(name.len() as int) =~= name);
    lemma_name_start(save_dir, name, name.len() as int);
    assert(name.len() == 1 ==> name[0] != '.');
    assert(name != seq!['.'] && name != seq!['.', '.']) by {
        assert(seq!['.'][0] == '.');
        assert(seq!['.', '.'][0] == '.');
        assert(name[0] != '.');
    }
    reveal_strlit(".srm");
    reveal_strlit("srm");
    assert(path.take((save_dir.len() + 1 + name.len()) as int) =~= path);
    assert(path.push('.') + "srm"@ =~= path + ".srm"@);
}

proof fn lemma_entry_is_told(list: Seq<Seq<char>>, k: int)
    requires
        0 <= k < list.len(),
    ensures
        exists|front: Seq<char>, back: Seq<char>|
            libretro::comma_joined(list) == #[trigger] (front + list[k] + back),
    decreases list.len(),
{
    let whole = libretro::comma_joined(list);
    if list.len() == 1 {
        assert(whole =~= Seq::<char>::empty() + list[k] + Seq::<char>::empty());
    } else if k == list.len() - 1 {
        let front = libretro::comma_joined(list.drop_last()) + ", "@;
        assert(whole =~= front + list[k] + Seq::<char>::empty());
    } else {
        let head = list.drop_last();
        lemma_entry_is_told(head, k);
        let (front, back) = choose|front: Seq<char>, back: Seq<char>|
            libretro::comma_joined(head) == #[trigger] (front + head[k] + back);
        assert(whole =~= front + list[k] + (back + ", "@ + list.last()));
    }
}

/// The listing of saved memory names every file of it with its size, and where there
/// is none it says so; two files stand in the order of their entries, with a comma
/// between them.
pub proof fn law_saved_memory_is_listed(files: Seq<SaveFile>, order: Seq<int>, i: int)
    requires
        libretro::is_listing(files, order),
        0 <= i < files.len(),
        libretro::is_save_name(files[i].name@),
    ensures
        exists|front: Seq<char>, back: Seq<char>|
            libretro::listing_text(files, order) == #[trigger] (front + (files[i].name@ + " ("@
                + text::decimal(files[i].size as nat) + " bytes)"@) + back),
        order.len() == 1 ==> libretro::listing_text(files, order) == files[i].name@ + " ("@
            + text::decimal(files[i].size as nat) + " bytes)"@,
        order.len() == 2 ==> {
            let a = libretro::listed(files[order[0]]);
            let b = libretro::listed(files[order[1]]);
            libretro::listing_text(files, order) == a + ", "@ + b && text::name_le(a, b)
                && order[0] != order[1]
        },
{
    assert(order.contains(i));
    let k = choose|k: int| 0 <= k < order.len() && order[k] == i;
    let list = Seq::new(order.len(), |j: int| libretro::listed(files[order[j]]));
    lemma_entry_is_told(list, k);
    if order.len() == 2 {
        let head = list.drop_last();
        assert(libretro::comma_joined(head) == head[0]);
    }
}

/// A listing of no saved memory.
pub proof fn law_no_saved_memory(files: Seq<SaveFile>, order: Seq<int>)
    requires
        libretro::is_listing(files, order),
        forall|i: int| 0 <= i < files.len() ==> !libretro::is_save_name((#[trigger] files[i]).name@),
    ensures
        libretro::listing_text(files, order) == "<empty>"@,
{
    if order.len() > 0 {
        assert(order.contains(order[0]));
    }
}

/// The memory of a core is written where there is any that is not on disk; what was
/// written is not written again.
pub proof fn law_memory_is_written_once(memory: Seq<u8>, on_disk: Option<Seq<u8>>)
    ensures
        !libretro::memory_changed(None, on_disk),
        memory.len() == 0 ==> !libretro::memory_changed(Some(memory), on_disk),
        !libretro::memory_changed(Some(memory), Some(memory)),
        memory.len() > 0 ==> libretro::memory_changed(Some(memory), None),
        memory.len() > 0 && on_disk is Some && on_disk->0 != memory ==> libretro::memory_changed(
            Some(memory),
            on_disk,
        ),
{
}

/// A frame of sound has two samples.
pub proof fn law_two_samples_a_frame(frames: usize)
    ensures
        frames <= usize::MAX / 2 ==> libretro::samples_of(frames) == frames + frames,
        frames > usize::MAX / 2 ==> libretro::samples_of(frames) == usize::MAX,
{
}

/// Nothing is known of a core that has not been looked into.
pub proof fn law_nothing_is_known_at_first()
    ensures
        ({
            let f = core_run::no_features();
            !f.reset && !f.serialize_size && !f.serialize && !f.unserialize && !f.memory_data
                && !f.memory_size
        }),
{
}


/// The legacy options of a core are taken one after the other: one that names a key and
/// a value counts with its first value, any other is left out.
pub proof fn law_legacy_options_are_taken(list: Seq<OptionDefinition>, n: int)
    requires
        0 <= n < list.len(),
    ensures
        ({
            let front = libretro::legacy_options(list, n);
            let all = libretro::legacy_options(list, n + 1);
            let d = list[n];
            &&& n == 0 ==> front == Map::<Seq<char>, Seq<char>>::empty()
            &&& d.key is None || d.value is None ==> all == front
            &&& d.key is Some && d.value is Some ==> {
                let value = libretro::legacy_default(d.value->0@);
                &&& value is None || !libretro::passable(value->0) ==> all == front
                &&& value is Some && libretro::passable(value->0) ==> all == front.insert(
                    d.key->0@,
                    value->0,
                )
            }
        }),
{
}


/// A command is not carried out where there is nothing to do it with: a reset without
/// the core's own, a state without content or without what the core saves and loads it
/// with. The log then names what is missing.
pub proof fn law_why_a_command_is_not_carried_out(
    slot: u8,
    has_content: bool,
    features: CoreFeatures,
)
    ensures
        ({
            let reset = libretro::command_refusal(RuntimeCommand::Reset, has_content, features);
            let save = libretro::command_refusal(
                RuntimeCommand::SaveState { slot },
                has_content,
                features,
            );
            let load = libretro::command_refusal(
                RuntimeCommand::LoadState { slot },
                has_content,
                features,
            );
            let to_save = "save state requested for slot "@ + text::decimal(slot as nat);
            let to_load = "load state requested for slot "@ + text::decimal(slot as nat);
            &&& reset is None <==> features.reset
            &&& save is None <==> has_content && features.serialize_size && features.serialize
            &&& load is None <==> has_content && features.unserialize
            &&& !features.reset ==> reset->0
                == "reset requested, but core does not expose retro_reset"@
            &&& !has_content ==> save->0 == to_save + ", but no content path is configured"@
                && load->0 == to_load + ", but no content path is configured"@
            &&& has_content && !features.serialize_size ==> save->0 == to_save
                + ", but core does not expose retro_serialize_size"@
            &&& has_content && features.serialize_size && !features.serialize ==> save->0 == to_save
                + ", but core does not expose retro_serialize"@
            &&& has_content && !features.unserialize ==> load->0 == to_load
                + ", but core does not expose retro_unserialize"@
        }),
{
}


} // verus!
