//! Running a libretro core: what is asked of it, what it asks for, and when.

use vstd::prelude::*;

use crate::frame::PixelFormat;
use crate::input;
use crate::input::InputHub;
use crate::paths;
use crate::table::Table;
use crate::text;

verus! {

/// What can be asked of a running core.
#[derive(Debug, Clone, Copy, PartialEq, Eq, Structural)]
pub enum RuntimeCommand {
    Reset,
    SaveState { slot: u8 },
    LoadState { slot: u8 },
}

/// What has been asked of a core and not been taken up yet.
#[derive(Debug)]
pub struct RuntimeControl {
    pub commands: Vec<RuntimeCommand>,
}

impl Default for RuntimeControl {
    fn default() -> (control: Self)
        ensures
            control.commands@ == Seq::<RuntimeCommand>::empty(),
    {
        RuntimeControl { commands: Vec::new() }
    }
}

impl RuntimeControl {
    pub fn request_reset(&mut self)
        ensures
            final(self).commands@ == old(self).commands@.push(RuntimeCommand::Reset),
    {
        self.request_command(RuntimeCommand::Reset);
    }

    pub fn request_save_state(&mut self, slot: u8)
        ensures
            final(self).commands@ == old(self).commands@.push(RuntimeCommand::SaveState { slot }),
    {
        self.request_command(RuntimeCommand::SaveState { slot });
    }

    pub fn request_load_state(&mut self, slot: u8)
        ensures
            final(self).commands@ == old(self).commands@.push(RuntimeCommand::LoadState { slot }),
    {
        self.request_command(RuntimeCommand::LoadState { slot });
    }

    /// All that has been asked, in the order in which it was; nothing is left.
    pub fn take_commands(&mut self) -> (commands: Vec<RuntimeCommand>)
        ensures
            commands@ == old(self).commands@,
            final(self).commands@ == Seq::<RuntimeCommand>::empty(),
    {
        let mut commands: Vec<RuntimeCommand> = Vec::new();
        std::mem::swap(&mut commands, &mut self.commands);
        commands
    }

    fn request_command(&mut self, command: RuntimeCommand)
        ensures
            final(self).commands@ == old(self).commands@.push(command),
    {
        self.commands.push(command);
    }
}

/// What a core is started with. The frame rate that counts where the core names
/// none is held as the bits of its IEEE 754 single.
#[derive(Debug, Clone)]
pub struct LibretroRunConfig {
    pub core_path: String,
    pub content_path: Option<String>,
    pub fallback_fps_bits: u32,
}

/// The name that files of a game are kept under: that of its content without
/// extension and white space around it.
pub open spec fn game_name(content_path: Seq<char>) -> Option<Seq<char>> {
    match paths::file_stem(content_path) {
        Some(stem) => if text::trimmed(stem).len() == 0 {
            None
        } else {
            Some(text::trimmed(stem))
        },
        None => None,
    }
}

fn game_name_of(content_path: &str) -> (name: Option<String>)
    ensures
        match name {
            Some(n) => game_name(content_path@) == Some(n@),
            None => game_name(content_path@) is None,
        },
{
    match paths::stem_of(content_path) {
        Some(stem) => {
            let name = text::trim(stem.as_str());
            if text::is_empty(name.as_str()) {
                None
            } else {
                Some(name)
            }
        },
        None => None,
    }
}

/// Where the battery-backed memory of a game is kept.
pub open spec fn save_ram_path(save_dir: Seq<char>, content_path: Seq<char>) -> Option<Seq<char>> {
    match game_name(content_path) {
        Some(name) => Some(paths::with_extension(paths::joined(save_dir, name), "srm"@)),
        None => None,
    }
}

pub fn save_snapshot_path(save_dir: &str, content_path: &str) -> (path: Option<String>)
    ensures
        match path {
            Some(p) => save_ram_path(save_dir@, content_path@) == Some(p@),
            None => save_ram_path(save_dir@, content_path@) is None,
        },
{
    match game_name_of(content_path) {
        Some(name) => {
            let joined = paths::join(save_dir, name.as_str());
            Some(paths::set_extension(joined.as_str(), "srm"))
        },
        None => None,
    }
}

/// A slot's number: zero counts as one.
pub open spec fn slot_number(slot: u8) -> u8 {
    if slot == 0 {
        1
    } else {
        slot
    }
}

/// The file of a slot: its number in two digits at least.
pub open spec fn slot_file(slot: u8) -> Seq<char> {
    let n = slot_number(slot) as nat;
    if n < 10 {
        "slot-"@ + "0"@ + text::decimal(n) + ".state"@
    } else {
        "slot-"@ + text::decimal(n) + ".state"@
    }
}

/// Where a slot of a game is kept.
pub open spec fn state_path(save_dir: Seq<char>, content_path: Seq<char>, slot: u8) -> Option<
    Seq<char>,
> {
    match game_name(content_path) {
        Some(name) => Some(
            paths::joined(
                paths::joined(paths::joined(save_dir, "states"@), name),
                slot_file(slot),
            ),
        ),
        None => None,
    }
}

pub fn state_snapshot_path(save_dir: &str, content_path: &str, slot: u8) -> (path: Option<String>)
    ensures
        match path {
            Some(p) => state_path(save_dir@, content_path@, slot) == Some(p@),
            None => state_path(save_dir@, content_path@, slot) is None,
        },
{
    match game_name_of(content_path) {
        Some(name) => {
            let n: u8 = if slot == 0 {
                1
            } else {
                slot
            };
            let mut file = "slot-".to_owned();
            if n < 10 {
                file.append("0");
            }
            text::push_decimal(&mut file, n as u64);
            file.append(".state");
            let states = paths::join(save_dir, "states");
            let game = paths::join(states.as_str(), name.as_str());
            Some(paths::join(game.as_str(), file.as_str()))
        },
        None => None,
    }
}

/// Slots do not share a file.
pub proof fn law_slots_apart(save_dir: Seq<char>, content_path: Seq<char>, a: u8, b: u8)
    requires
        game_name(content_path) is Some,
        state_path(save_dir, content_path, a) == state_path(save_dir, content_path, b),
    ensures
        slot_number(a) == slot_number(b),
{
    let dir = paths::joined(
        paths::joined(save_dir, "states"@),
        game_name(content_path)->0,
    );
    lemma_slot_file(a);
    lemma_slot_file(b);
    lemma_joined_apart(dir, slot_file(a), slot_file(b));
    lemma_slot_files(a, b);
}

proof fn lemma_slot_file(slot: u8)
    ensures
        slot_file(slot).len() > 0,
        slot_file(slot)[0] == 's',
{
    reveal_strlit("slot-");
}

proof fn lemma_joined_apart(dir: Seq<char>, f: Seq<char>, g: Seq<char>)
    requires
        f.len() > 0 && f[0] != '/',
        g.len() > 0 && g[0] != '/',
        paths::joined(dir, f) == paths::joined(dir, g),
    ensures
        f == g,
{
    let p = paths::joined(dir, f);
    let front = p.len() - f.len();
    assert(p.skip(front) =~= f);
    assert(p.skip(front) =~= g);
}

proof fn lemma_slot_files(a: u8, b: u8)
    requires
        slot_file(a) == slot_file(b),
    ensures
        slot_number(a) == slot_number(b),
{
    let x = slot_number(a) as nat;
    let y = slot_number(b) as nat;
    lemma_slot_digits(a);
    lemma_slot_digits(b);
    text::law_decimal_round_trip(x);
    text::law_decimal_round_trip(y);
}

/// Where the digits of a slot stand in the name of its file.
proof fn lemma_slot_digits(slot: u8)
    ensures
        ({
            let n = slot_number(slot) as nat;
            let f = slot_file(slot);
            let digits = text::decimal(n);
            &&& f.len() >= 12
            &&& n < 10 <==> f[5] == '0'
            &&& n < 10 ==> f.subrange(6, f.len() - 6) == digits
            &&& n >= 10 ==> f.subrange(5, f.len() - 6) == digits
        }),
{
    reveal_strlit("slot-");
    reveal_strlit("0");
    reveal_strlit(".state");
    let n = slot_number(slot) as nat;
    let f = slot_file(slot);
    let digits = text::decimal(n);
    lemma_small_decimal(n);
    if n < 10 {
        assert(f.subrange(6, f.len() - 6) =~= digits);
    } else {
        assert(f[5] == digits[0]);
        assert(f.subrange(5, f.len() - 6) =~= digits);
    }
}

/// A number's first digit is no zero, unless it is the number zero.
proof fn lemma_small_decimal(n: nat)
    ensures
        n > 0 ==> text::decimal(n)[0] != '0',
        n < 10 <==> text::decimal(n).len() == 1,
        text::decimal(n).len() > 0,
    decreases n,
{
    if n >= 10 {
        lemma_small_decimal(n / 10);
        let front = text::decimal(n / 10);
        assert(text::decimal(n)[0] == front[0]);
    }
}

/// What a file of the save directory is listed as.
#[derive(Debug, Clone)]
pub struct SaveFile {
    pub name: String,
    pub size: u64,
}

/// Whether a name is one of a save file.
pub open spec fn is_save_name(name: Seq<char>) -> bool {
    match paths::extension(name) {
        Some(ext) => {
            let e = text::lower(ext);
            e == "sav"@ || e == "srm"@ || e == "ram"@
        },
        None => false,
    }
}

pub fn is_save_file(name: &str) -> (is: bool)
    ensures
        is == is_save_name(name@),
{
    match paths::extension_of(name) {
        Some(ext) => {
            let e = text::to_lower(ext.as_str());
            text::same_text(e.as_str(), "sav") || text::same_text(e.as_str(), "srm")
                || text::same_text(e.as_str(), "ram")
        },
        None => false,
    }
}

/// How a save file is listed.
pub open spec fn listed(file: SaveFile) -> Seq<char> {
    file.name@ + " ("@ + text::decimal(file.size as nat) + " bytes)"@
}

/// The entries of a list with a comma between each two.
pub open spec fn comma_joined(list: Seq<Seq<char>>) -> Seq<char>
    decreases list.len(),
{
    if list.len() == 0 {
        Seq::empty()
    } else if list.len() == 1 {
        list[0]
    } else {
        comma_joined(list.drop_last()) + ", "@ + list.last()
    }
}

/// Whether `order` visits each save file among `files` once, in the order of the
/// names under which they are listed.
pub open spec fn is_listing(files: Seq<SaveFile>, order: Seq<int>) -> bool {
    &&& order.no_duplicates()
    &&& forall|i: int|
        #[trigger] order.contains(i) <==> (0 <= i < files.len() && is_save_name(files[i].name@))
    &&& forall|a: int, b: int|
        0 <= a < b < order.len() ==> text::name_le(
            listed(files[#[trigger] order[a]]),
            listed(files[#[trigger] order[b]]),
        )
}

/// The listing of the files that `order` visits.
pub open spec fn listing_text(files: Seq<SaveFile>, order: Seq<int>) -> Seq<char> {
    if order.len() == 0 {
        "<empty>"@
    } else {
        comma_joined(Seq::new(order.len(), |k: int| listed(files[order[k]])))
    }
}

/// Puts an entry into a list of texts that is in order.
fn insert_entry(
    entries: &mut Vec<String>,
    entry: String,
    Ghost(files): Ghost<Seq<SaveFile>>,
    Ghost(order): Ghost<Seq<int>>,
    Ghost(i): Ghost<int>,
) -> (out: Ghost<Seq<int>>)
    requires
        old(entries)@.len() == order.len(),
        forall|k: int|
            0 <= k < order.len() ==> (#[trigger] old(entries)@[k])@ == listed(files[order[k]]),
        entry@ == listed(files[i]),
        order.no_duplicates(),
        !order.contains(i),
        forall|a: int, b: int|
            0 <= a < b < order.len() ==> text::name_le(
                listed(files[#[trigger] order[a]]),
                listed(files[#[trigger] order[b]]),
            ),
    ensures
        final(entries)@.len() == out@.len(),
        forall|k: int|
            0 <= k < out@.len() ==> (#[trigger] final(entries)@[k])@ == listed(files[out@[k]]),
        out@.no_duplicates(),
        forall|k: int| #[trigger] out@.contains(k) <==> (order.contains(k) || k == i),
        forall|a: int, b: int|
            0 <= a < b < out@.len() ==> text::name_le(
                listed(files[#[trigger] out@[a]]),
                listed(files[#[trigger] out@[b]]),
            ),
{
    let mut at: usize = 0;
    while at < entries.len() && text::name_at_or_before(entries[at].as_str(), entry.as_str())
        invariant
            at <= entries@.len() == order.len(),
            entry@ == listed(files[i]),
            forall|k: int|
                0 <= k < order.len() ==> (#[trigger] entries@[k])@ == listed(files[order[k]]),
            forall|k: int|
                0 <= k < at ==> text::name_le(listed(files[#[trigger] order[k]]), entry@),
        decreases entries@.len() - at,
    {
        assert(entries@[at as int]@ == listed(files[order[at as int]]));
        at += 1;
    }
    let ghost out = order.insert(at as int, i);
    proof {
        if at < order.len() {
            assert(entries@[at as int]@ == listed(files[order[at as int]]));
            text::lemma_name_le_total(listed(files[i]), listed(files[order[at as int]]));
            assert forall|k: int| at <= k < order.len() implies text::name_le(
                listed(files[i]),
                listed(files[#[trigger] order[k]]),
            ) by {
                if k > at {
                    text::lemma_name_le_transitive(
                        listed(files[i]),
                        listed(files[order[at as int]]),
                        listed(files[order[k]]),
                    );
                }
            }
        }
        assert forall|k: int| #[trigger] out.contains(k) <==> (order.contains(k) || k == i) by {
            if out.contains(k) {
                let j = choose|j: int| 0 <= j < out.len() && out[j] == k;
                if j < at {
                    assert(order[j] == k);
                } else if j > at {
                    assert(order[j - 1] == k);
                }
            }
            if order.contains(k) {
                let j = choose|j: int| 0 <= j < order.len() && order[j] == k;
                if j < at {
                    assert(out[j] == k);
                } else {
                    assert(out[j + 1] == k);
                }
            }
            if k == i {
                assert(out[at as int] == k);
            }
        }
        assert forall|a: int, b: int| 0 <= a < b < out.len() implies out[a] != out[b] by {
            let a0 = if a < at { a } else { a - 1 };
            let b0 = if b < at { b } else { b - 1 };
            if a == at {
                assert(order.contains(order[b0]));
            } else if b == at {
                assert(order.contains(order[a0]));
            } else {
                assert(order[a0] != order[b0]);
            }
        }
        assert forall|a: int, b: int| 0 <= a < b < out.len() implies text::name_le(
            listed(files[#[trigger] out[a]]),
            listed(files[#[trigger] out[b]]),
        ) by {
            let a0 = if a < at { a } else { a - 1 };
            let b0 = if b < at { b } else { b - 1 };
            if a != at {
                assert(out[a] == order[a0]);
            }
            if b != at {
                assert(out[b] == order[b0]);
            }
        }
    }
    let ghost before = entries@;
    entries.insert(at, entry);
    proof {
        assert forall|k: int| 0 <= k < out.len() implies (#[trigger] entries@[k])@ == listed(
            files[out[k]],
        ) by {
            if k < at {
                assert(entries@[k] == before[k]);
            } else if k > at {
                assert(entries@[k] == before[k - 1]);
                assert(out[k] == order[k - 1]);
            }
        }
    }
    Ghost(out)
}

/// The save files among the files of a directory, as a text.
pub fn summarize_save_directory(files: &Vec<SaveFile>) -> (summary: String)
    ensures
        exists|order: Seq<int>| #[trigger]
            is_listing(files@, order) && summary@ == listing_text(files@, order),
{
    let mut entries: Vec<String> = Vec::new();
    let ghost mut order: Seq<int> = Seq::empty();
    let mut i: usize = 0;
    while i < files.len()
        invariant
            i <= files@.len(),
            entries@.len() == order.len(),
            forall|k: int|
                0 <= k < order.len() ==> (#[trigger] entries@[k])@ == listed(files@[order[k]]),
            order.no_duplicates(),
            forall|k: int|
                #[trigger] order.contains(k) <==> (0 <= k < i && is_save_name(files@[k].name@)),
            forall|a: int, b: int|
                0 <= a < b < order.len() ==> text::name_le(
                    listed(files@[#[trigger] order[a]]),
                    listed(files@[#[trigger] order[b]]),
                ),
        decreases files@.len() - i,
    {
        if is_save_file(files[i].name.as_str()) {
            let mut entry = files[i].name.clone();
            entry.append(" (");
            text::push_decimal(&mut entry, files[i].size);
            entry.append(" bytes)");
            let out = insert_entry(
                &mut entries,
                entry,
                Ghost(files@),
                Ghost(order),
                Ghost(i as int),
            );
            proof {
                order = out@;
            }
        }
        i += 1;
    }
    assert(is_listing(files@, order));
    if entries.len() == 0 {
        return "<empty>".to_owned();
    }
    let ghost list = Seq::new(order.len(), |k: int| listed(files@[order[k]]));
    let mut summary = entries[0].clone();
    let mut k: usize = 1;
    assert(list.take(1) =~= seq![list[0]]);
    while k < entries.len()
        invariant
            1 <= k <= entries@.len() == order.len(),
            list == Seq::new(order.len(), |j: int| listed(files@[order[j]])),
            forall|j: int|
                0 <= j < order.len() ==> (#[trigger] entries@[j])@ == listed(files@[order[j]]),
            summary@ == comma_joined(list.take(k as int)),
        decreases entries@.len() - k,
    {
        summary.append(", ");
        summary.append(entries[k].as_str());
        proof {
            assert(list.take(k + 1).drop_last() =~= list.take(k as int));
            assert(list.take(k + 1).last() == list[k as int]);
        }
        k += 1;
    }
    assert(list.take(k as int) =~= list);
    summary
}

/// The default that a legacy definition names: the first value behind the
/// semicolon that is no white space.
pub open spec fn legacy_default(definition: Seq<char>) -> Option<Seq<char>> {
    let k = text::before_mark(definition, ';') as int;
    if k >= definition.len() {
        None
    } else {
        first_value(text::pieces(definition.skip(k + 1), '|'))
    }
}

/// The first text that is not empty once trimmed.
pub open spec fn first_value(values: Seq<Seq<char>>) -> Option<Seq<char>>
    decreases values.len(),
{
    if values.len() == 0 {
        None
    } else if text::trimmed(values[0]).len() > 0 {
        Some(text::trimmed(values[0]))
    } else {
        first_value(values.drop_first())
    }
}

pub fn parse_core_option_default(definition: &str) -> (value: Option<String>)
    ensures
        match value {
            Some(v) => legacy_default(definition@) == Some(v@),
            None => legacy_default(definition@) is None,
        },
{
    let chars = text::chars_of(definition);
    let mut k: usize = 0;
    while k < chars.len() && chars[k] != ';'
        invariant
            k <= chars@.len(),
            forall|j: int| 0 <= j < k ==> #[trigger] chars@[j] != ';',
        decreases chars@.len() - k,
    {
        k += 1;
    }
    proof {
        text::lemma_before_mark(chars@, ';', k as int);
    }
    if k == chars.len() {
        return None;
    }
    let tail = text::text_of(&chars, k + 1, chars.len());
    assert(tail@ =~= definition@.skip(k + 1));
    let values = text::split(tail.as_str(), '|');
    let ghost all = text::pieces(tail@, '|');
    let mut i: usize = 0;
    assert(all.skip(0) =~= all);
    while i < values.len()
        invariant
            i <= values@.len() == all.len(),
            all == text::texts_view(values@),
            first_value(all) == first_value(all.skip(i as int)),
            legacy_default(definition@) == first_value(all),
        decreases values@.len() - i,
    {
        proof {
            assert(all.skip(i as int)[0] == all[i as int]);
            assert(all[i as int] == values@[i as int]@);
            assert(all.skip(i as int).drop_first() =~= all.skip(i + 1));
        }
        let value = text::trim(values[i].as_str());
        if !text::is_empty(value.as_str()) {
            return Some(value);
        }
        i += 1;
    }
    assert(all.skip(i as int).len() == 0);
    None
}

/// A definition of an option as a core hands it over: a key or a value may be
/// missing.
#[derive(Debug, Clone)]
pub struct OptionDefinition {
    pub key: Option<String>,
    pub value: Option<String>,
}

/// Whether a text can be handed to a core: it holds no zero character.
pub open spec fn passable(s: Seq<char>) -> bool {
    forall|i: int| 0 <= i < s.len() ==> #[trigger] s[i] != '\0'
}

pub fn is_passable(s: &str) -> (fine: bool)
    ensures
        fine == passable(s@),
{
    let chars = text::chars_of(s);
    let mut i: usize = 0;
    while i < chars.len()
        invariant
            i <= chars@.len(),
            chars@ == s@,
            forall|j: int| 0 <= j < i ==> #[trigger] chars@[j] != '\0',
        decreases chars@.len() - i,
    {
        if chars[i] == '\0' {
            return false;
        }
        i += 1;
    }
    true
}

/// The value that an option has whatever the core's default is.
pub open spec fn override_of(key: Seq<char>) -> Option<Seq<char>> {
    if key == "mupen64plus-rdp-plugin"@ {
        Some("angrylion"@)
    } else if key == "mupen64plus-rsp-plugin"@ {
        Some("cxd4"@)
    } else {
        None
    }
}

pub open spec fn chosen_value(key: Seq<char>, default: Seq<char>) -> Seq<char> {
    match override_of(key) {
        Some(value) => value,
        None => default,
    }
}

/// The options with one more, where its value can be handed to a core.
pub open spec fn with_option(
    options: Map<Seq<char>, Seq<char>>,
    key: Seq<char>,
    value: Seq<char>,
) -> Map<Seq<char>, Seq<char>> {
    if passable(value) {
        options.insert(key, value)
    } else {
        options
    }
}

/// What the first `n` definitions come to: the later of two counts.
pub open spec fn defined_options(list: Seq<OptionDefinition>, n: int) -> Map<Seq<char>, Seq<char>>
    decreases n,
{
    if n <= 0 {
        Map::empty()
    } else {
        let front = defined_options(list, n - 1);
        let d = list[n - 1];
        if d.key is Some && d.value is Some {
            with_option(front, d.key->0@, chosen_value(d.key->0@, d.value->0@))
        } else {
            front
        }
    }
}

/// What the first `n` legacy definitions come to: those that name no default
/// are left out.
pub open spec fn legacy_options(list: Seq<OptionDefinition>, n: int) -> Map<Seq<char>, Seq<char>>
    decreases n,
{
    if n <= 0 {
        Map::empty()
    } else {
        let front = legacy_options(list, n - 1);
        let d = list[n - 1];
        if d.key is Some && d.value is Some && legacy_default(d.value->0@) is Some {
            with_option(front, d.key->0@, legacy_default(d.value->0@)->0)
        } else {
            front
        }
    }
}

/// The values of a core's options.
#[derive(Debug)]
pub struct CoreOptions {
    pub values: Table<String, String>,
}

pub open spec fn options_view(table: Map<Seq<char>, String>) -> Map<Seq<char>, Seq<char>> {
    table.map_values(|s: String| s@)
}

impl View for CoreOptions {
    type V = Map<Seq<char>, Seq<char>>;

    open spec fn view(&self) -> Map<Seq<char>, Seq<char>> {
        options_view(self.values@)
    }
}

impl CoreOptions {
    pub open spec fn wf(self) -> bool {
        self.values.wf()
    }

    pub fn new() -> (options: Self)
        ensures
            options.wf(),
            options@ == Map::<Seq<char>, Seq<char>>::empty(),
    {
        let options = CoreOptions { values: Table::new() };
        assert(options@ =~= Map::<Seq<char>, Seq<char>>::empty());
        options
    }

    fn put(&mut self, key: &String, value: String)
        requires
            old(self).wf(),
        ensures
            final(self).wf(),
            final(self)@ == with_option(old(self)@, key@, value@),
    {
        if is_passable(value.as_str()) {
            let ghost table = self.values@;
            let ghost v = value;
            self.values.insert(key.clone(), value);
            assert(options_view(self.values@) =~= options_view(table).insert(key@, v@));
        }
    }

    /// Sets an option to the core's default, or to the value that it has
    /// whatever that is.
    pub fn set_core_option_default(&mut self, key: &String, default_value: &String)
        requires
            old(self).wf(),
        ensures
            final(self).wf(),
            final(self)@ == with_option(
                old(self)@,
                key@,
                chosen_value(key@, default_value@),
            ),
    {
        if text::same_text(key.as_str(), "mupen64plus-rdp-plugin") {
            self.put(key, "angrylion".to_owned());
        } else if text::same_text(key.as_str(), "mupen64plus-rsp-plugin") {
            self.put(key, "cxd4".to_owned());
        } else {
            self.put(key, default_value.clone());
        }
    }

    /// Takes a core's definitions in place of what was known.
    pub fn collect_core_option_definitions(&mut self, list: &Vec<OptionDefinition>)
        requires
            old(self).wf(),
        ensures
            final(self).wf(),
            final(self)@ == defined_options(list@, list@.len() as int),
    {
        self.values = Table::new();
        assert(self@ =~= Map::<Seq<char>, Seq<char>>::empty());
        let mut i: usize = 0;
        while i < list.len()
            invariant
                i <= list@.len(),
                self.wf(),
                self@ == defined_options(list@, i as int),
            decreases list@.len() - i,
        {
            if let (Some(key), Some(value)) = (&list[i].key, &list[i].value) {
                self.set_core_option_default(key, value);
            }
            i += 1;
        }
    }

    /// Takes a core's legacy definitions in place of what was known.
    pub fn collect_legacy_core_options(&mut self, list: &Vec<OptionDefinition>)
        requires
            old(self).wf(),
        ensures
            final(self).wf(),
            final(self)@ == legacy_options(list@, list@.len() as int),
    {
        self.values = Table::new();
        assert(self@ =~= Map::<Seq<char>, Seq<char>>::empty());
        let mut i: usize = 0;
        while i < list.len()
            invariant
                i <= list@.len(),
                self.wf(),
                self@ == legacy_options(list@, i as int),
            decreases list@.len() - i,
        {
            if let (Some(key), Some(definition)) = (&list[i].key, &list[i].value) {
                if let Some(value) = parse_core_option_default(definition.as_str()) {
                    self.put(key, value);
                }
            }
            i += 1;
        }
    }

    pub fn get(&self, key: &String) -> (value: Option<&String>)
        requires
            self.wf(),
        ensures
            match value {
                Some(v) => self@.contains_key(key@) && self@[key@] == v@,
                None => !self@.contains_key(key@),
            },
    {
        self.values.get(key)
    }
}

/// What a core can ask of its environment.
#[derive(Debug, Clone, Copy, PartialEq, Eq, Structural)]
pub enum EnvironmentCommand {
    GetSystemDirectory,
    SetPixelFormat,
    GetVariable,
    SetVariables,
    GetVariableUpdate,
    GetSaveDirectory,
    GetLanguage,
    SetCoreOptions,
    SetCoreOptionsIntl,
    SetCoreOptionsDisplay,
    SetCoreOptionsV2,
    SetCoreOptionsV2Intl,
}

/// The number that libretro has for a command.
pub open spec fn command_number(command: EnvironmentCommand) -> u32 {
    match command {
        EnvironmentCommand::GetSystemDirectory => 9,
        EnvironmentCommand::SetPixelFormat => 10,
        EnvironmentCommand::GetVariable => 15,
        EnvironmentCommand::SetVariables => 16,
        EnvironmentCommand::GetVariableUpdate => 17,
        EnvironmentCommand::GetSaveDirectory => 31,
        EnvironmentCommand::GetLanguage => 39,
        EnvironmentCommand::SetCoreOptions => 53,
        EnvironmentCommand::SetCoreOptionsIntl => 54,
        EnvironmentCommand::SetCoreOptionsDisplay => 55,
        EnvironmentCommand::SetCoreOptionsV2 => 67,
        EnvironmentCommand::SetCoreOptionsV2Intl => 68,
    }
}

/// The command with this number, if it is one that is answered.
pub fn environment_command(number: u32) -> (command: Option<EnvironmentCommand>)
    ensures
        match command {
            Some(c) => command_number(c) == number,
            None => forall|c: EnvironmentCommand| #[trigger] command_number(c) != number,
        },
{
    match number {
        9 => Some(EnvironmentCommand::GetSystemDirectory),
        10 => Some(EnvironmentCommand::SetPixelFormat),
        15 => Some(EnvironmentCommand::GetVariable),
        16 => Some(EnvironmentCommand::SetVariables),
        17 => Some(EnvironmentCommand::GetVariableUpdate),
        31 => Some(EnvironmentCommand::GetSaveDirectory),
        39 => Some(EnvironmentCommand::GetLanguage),
        53 => Some(EnvironmentCommand::SetCoreOptions),
        54 => Some(EnvironmentCommand::SetCoreOptionsIntl),
        55 => Some(EnvironmentCommand::SetCoreOptionsDisplay),
        67 => Some(EnvironmentCommand::SetCoreOptionsV2),
        68 => Some(EnvironmentCommand::SetCoreOptionsV2Intl),
        _ => None,
    }
}

/// A command with what the core has put behind its data pointer. A list that the
/// core did not hand over is missing.
#[derive(Debug)]
pub enum EnvironmentRequest {
    Unknown,
    NoData,
    GetSystemDirectory,
    GetSaveDirectory,
    SetVariables { list: Vec<OptionDefinition> },
    SetCoreOptions { list: Option<Vec<OptionDefinition>> },
    SetCoreOptionsDisplay { has_key: bool },
    GetVariableUpdate,
    GetLanguage,
    GetVariable { key: Option<String> },
    SetPixelFormat { raw: i32 },
}

/// What a core is answered: nothing is granted, or it is, with what has to be
/// written behind the data pointer.
#[derive(Debug)]
pub enum EnvironmentReply {
    Refused,
    Done,
    SystemDirectory,
    SaveDirectory,
    Unchanged,
    English,
    Value { value: String },
}

/// What the environment of a core remembers.
#[derive(Debug)]
pub struct CoreEnvironment {
    pub options: CoreOptions,
    pub pixel_format: PixelFormat,
}

pub open spec fn format_of(raw: i32) -> Option<PixelFormat> {
    if raw == 0 {
        Some(PixelFormat::Xrgb1555)
    } else if raw == 1 {
        Some(PixelFormat::Xrgb8888)
    } else if raw == 2 {
        Some(PixelFormat::Rgb565)
    } else {
        None
    }
}

/// What answering a request does and answers.
pub open spec fn environment_outcome(
    before: CoreEnvironment,
    request: EnvironmentRequest,
    after: CoreEnvironment,
    reply: EnvironmentReply,
) -> bool {
    let options = match request {
        EnvironmentRequest::SetVariables { list } => legacy_options(list@, list@.len() as int),
        EnvironmentRequest::SetCoreOptions { list: Some(list) } => defined_options(
            list@,
            list@.len() as int,
        ),
        _ => before.options@,
    };
    let format = match request {
        EnvironmentRequest::SetPixelFormat { raw } => match format_of(raw) {
            Some(format) => format,
            None => before.pixel_format,
        },
        _ => before.pixel_format,
    };
    &&& after.options@ == options
    &&& after.pixel_format == format
    &&& match request {
        EnvironmentRequest::Unknown => reply is Refused,
        EnvironmentRequest::NoData => reply is Refused,
        EnvironmentRequest::GetSystemDirectory => reply is SystemDirectory,
        EnvironmentRequest::GetSaveDirectory => reply is SaveDirectory,
        EnvironmentRequest::SetVariables { list } => reply is Done,
        EnvironmentRequest::SetCoreOptions { list: Some(_) } => reply is Done,
        EnvironmentRequest::SetCoreOptions { list: None } => reply is Refused,
        EnvironmentRequest::SetCoreOptionsDisplay { has_key } => if has_key {
            reply is Done
        } else {
            reply is Refused
        },
        EnvironmentRequest::GetVariableUpdate => reply is Unchanged,
        EnvironmentRequest::GetLanguage => reply is English,
        EnvironmentRequest::GetVariable { key: Some(key) } => if before.options@.contains_key(
            key@,
        ) {
            reply is Value && reply->value@ == before.options@[key@]
        } else {
            reply is Refused
        },
        EnvironmentRequest::GetVariable { key: None } => reply is Refused,
        EnvironmentRequest::SetPixelFormat { raw } => if format_of(raw) is Some {
            reply is Done
        } else {
            reply is Refused
        },
    }
}

impl CoreEnvironment {
    pub open spec fn wf(self) -> bool {
        self.options.wf()
    }

    pub fn new() -> (environment: Self)
        ensures
            environment.wf(),
            environment.options@ == Map::<Seq<char>, Seq<char>>::empty(),
            environment.pixel_format == PixelFormat::Xrgb8888,
    {
        CoreEnvironment { options: CoreOptions::new(), pixel_format: PixelFormat::Xrgb8888 }
    }

    /// Answers a request of the core.
    pub fn answer(&mut self, request: EnvironmentRequest) -> (reply: EnvironmentReply)
        requires
            old(self).wf(),
        ensures
            final(self).wf(),
            environment_outcome(*old(self), request, *final(self), reply),
    {
        match request {
            EnvironmentRequest::Unknown => EnvironmentReply::Refused,
            EnvironmentRequest::NoData => EnvironmentReply::Refused,
            EnvironmentRequest::GetSystemDirectory => EnvironmentReply::SystemDirectory,
            EnvironmentRequest::GetSaveDirectory => EnvironmentReply::SaveDirectory,
            EnvironmentRequest::SetVariables { list } => {
                self.options.collect_legacy_core_options(&list);
                EnvironmentReply::Done
            },
            EnvironmentRequest::SetCoreOptions { list } => match list {
                Some(list) => {
                    self.options.collect_core_option_definitions(&list);
                    EnvironmentReply::Done
                },
                None => EnvironmentReply::Refused,
            },
            EnvironmentRequest::SetCoreOptionsDisplay { has_key } => if has_key {
                EnvironmentReply::Done
            } else {
                EnvironmentReply::Refused
            },
            EnvironmentRequest::GetVariableUpdate => EnvironmentReply::Unchanged,
            EnvironmentRequest::GetLanguage => EnvironmentReply::English,
            EnvironmentRequest::GetVariable { key } => match key {
                Some(key) => match self.options.get(&key) {
                    Some(value) => EnvironmentReply::Value { value: value.clone() },
                    None => EnvironmentReply::Refused,
                },
                None => EnvironmentReply::Refused,
            },
            EnvironmentRequest::SetPixelFormat { raw } => match PixelFormat::from_libretro(raw) {
                Some(format) => {
                    self.pixel_format = format;
                    EnvironmentReply::Done
                },
                None => EnvironmentReply::Refused,
            },
        }
    }
}

/// A core reads an option as it was last defined: the forced value where there
/// is one, else the default, as far as it can be handed over.
pub proof fn law_defined_option_is_read(list: Seq<OptionDefinition>, n: int)
    requires
        0 < n <= list.len(),
        list[n - 1].key is Some,
        list[n - 1].value is Some,
        passable(chosen_value(list[n - 1].key->0@, list[n - 1].value->0@)),
    ensures
        defined_options(list, n).contains_key(list[n - 1].key->0@),
        defined_options(list, n)[list[n - 1].key->0@] == chosen_value(
            list[n - 1].key->0@,
            list[n - 1].value->0@,
        ),
{
}

/// Everything that a core can read of its options can be handed to it.
pub proof fn law_options_are_passable(list: Seq<OptionDefinition>, n: int, key: Seq<char>)
    requires
        defined_options(list, n).contains_key(key),
    ensures
        passable(defined_options(list, n)[key]),
    decreases n,
{
    if n > 0 {
        let front = defined_options(list, n - 1);
        if front.contains_key(key) {
            law_options_are_passable(list, n - 1, key);
        }
    }
}

/// How many bytes of a picture that the core shows are to be taken; none where
/// there is no picture, it is the last one again, or it is empty.
pub open spec fn picture_len(
    missing: bool,
    repeated: bool,
    width: u32,
    height: u32,
    pitch: usize,
) -> Option<int> {
    let len = if pitch * height > usize::MAX {
        usize::MAX as int
    } else {
        pitch * height
    };
    if missing || repeated || width == 0 || height == 0 || len == 0 {
        None
    } else {
        Some(len)
    }
}

pub fn video_refresh_len(
    missing: bool,
    repeated: bool,
    width: u32,
    height: u32,
    pitch: usize,
) -> (len: Option<usize>)
    ensures
        match len {
            Some(n) => picture_len(missing, repeated, width, height, pitch) == Some(n as int),
            None => picture_len(missing, repeated, width, height, pitch) is None,
        },
{
    if missing || repeated || width == 0 || height == 0 {
        return None;
    }
    let len: usize = match pitch.checked_mul(height as usize) {
        Some(n) => n,
        None => usize::MAX,
    };
    if len == 0 {
        None
    } else {
        Some(len)
    }
}

/// How many samples a batch of stereo frames has: two for each, up to the largest
/// number there is.
pub open spec fn samples_of(frames: usize) -> int {
    if 2 * frames > usize::MAX {
        usize::MAX as int
    } else {
        2 * frames
    }
}

/// How many samples a batch of stereo frames has.
pub fn batch_samples(frames: usize) -> (samples: usize)
    ensures
        samples == samples_of(frames),
{
    match frames.checked_mul(2) {
        Some(n) => n,
        None => usize::MAX,
    }
}

pub const RETRO_DEVICE_JOYPAD: u32 = 1;

pub const RETRO_DEVICE_ANALOG: u32 = 5;

/// What a core reads of a device of a port at `now`; nothing without a hub.
pub open spec fn device_reading(
    hub: Option<&InputHub>,
    now: u128,
    port: u32,
    device: u32,
    index: u32,
    id: u32,
    value: i16,
) -> bool {
    match hub {
        Some(h) => if device == RETRO_DEVICE_JOYPAD {
            exists|pad: input::PadModel| #[trigger]
                input::merged(h@, now, port, pad) && value == input::button_reading(pad, id)
        } else if device == RETRO_DEVICE_ANALOG {
            exists|pad: input::PadModel| #[trigger]
                input::merged(h@, now, port, pad) && value == input::stick_reading(pad, index, id)
        } else {
            value == 0
        },
        None => value == 0,
    }
}

/// What a core reads of a device of a port at `now`.
pub fn input_state_at(
    hub: Option<&InputHub>,
    now: u128,
    port: u32,
    device: u32,
    index: u32,
    id: u32,
) -> (value: i16)
    requires
        hub is Some ==> hub->0.wf(),
    ensures
        device_reading(hub, now, port, device, index, id, value),
{
    match hub {
        Some(h) => if device == RETRO_DEVICE_JOYPAD {
            h.joypad_button_state_at(now, port, id)
        } else if device == RETRO_DEVICE_ANALOG {
            h.analog_state_at(now, port, index, id)
        } else {
            0
        },
        None => 0,
    }
}

/// What a core reads of a device of a port.
pub fn input_state(hub: Option<&InputHub>, port: u32, device: u32, index: u32, id: u32) -> (value: i16)
    requires
        hub is Some ==> hub->0.wf(),
    ensures
        exists|now: u128| #[trigger] device_reading(hub, now, port, device, index, id, value),
{
    let now: u128 = match hub {
        Some(h) => h.clock.now_ns(),
        None => 0,
    };
    input_state_at(hub, now, port, device, index, id)
}

/// What a core says of how it wants its content.
#[derive(Debug, Clone, Copy)]
pub struct CoreLoadHints {
    pub need_fullpath: bool,
    pub block_extract: bool,
}

/// Whether the content is read before the core gets it: where there is content,
/// unless the core wants the path alone.
pub fn should_preload(has_content: bool, hints: Option<CoreLoadHints>) -> (preload: bool)
    ensures
        preload == (has_content && (hints is Some ==> !hints->0.need_fullpath)),
{
    has_content && match hints {
        Some(h) => !h.need_fullpath,
        None => true,
    }
}

/// What a core can do beyond what every core can.
#[derive(Debug, Clone, Copy)]
pub struct CoreFeatures {
    pub reset: bool,
    pub serialize_size: bool,
    pub serialize: bool,
    pub unserialize: bool,
    pub memory_data: bool,
    pub memory_size: bool,
}

/// What a command comes to: something to do, or why nothing is done.
#[derive(Debug)]
pub enum CommandAction {
    Reset,
    SaveState { slot: u8 },
    LoadState { slot: u8 },
    Nothing { why: String },
}

/// Why a command is not carried out, if so.
pub open spec fn command_refusal(
    command: RuntimeCommand,
    has_content: bool,
    features: CoreFeatures,
) -> Option<Seq<char>> {
    match command {
        RuntimeCommand::Reset => if features.reset {
            None
        } else {
            Some("reset requested, but core does not expose retro_reset"@)
        },
        RuntimeCommand::SaveState { slot } => {
            let head = "save state requested for slot "@ + text::decimal(slot as nat);
            if !has_content {
                Some(head + ", but no content path is configured"@)
            } else if !features.serialize_size {
                Some(head + ", but core does not expose retro_serialize_size"@)
            } else if !features.serialize {
                Some(head + ", but core does not expose retro_serialize"@)
            } else {
                None
            }
        },
        RuntimeCommand::LoadState { slot } => {
            let head = "load state requested for slot "@ + text::decimal(slot as nat);
            if !has_content {
                Some(head + ", but no content path is configured"@)
            } else if !features.unserialize {
                Some(head + ", but core does not expose retro_unserialize"@)
            } else {
                None
            }
        },
    }
}

pub open spec fn action_fits(
    action: CommandAction,
    command: RuntimeCommand,
    refusal: Option<Seq<char>>,
) -> bool {
    match refusal {
        Some(why) => action is Nothing && action->why@ == why,
        None => match command {
            RuntimeCommand::Reset => action is Reset,
            RuntimeCommand::SaveState { slot } => action is SaveState && action->SaveState_slot
                == slot,
            RuntimeCommand::LoadState { slot } => action is LoadState && action->LoadState_slot
                == slot,
        },
    }
}

fn slot_text(head: &str, slot: u8, tail: &str) -> (out: String)
    ensures
        out@ == head@ + text::decimal(slot as nat) + tail@,
{
    let mut out = head.to_owned();
    text::push_decimal(&mut out, slot as u64);
    out.append(tail);
    out
}

/// What a command comes to for a core.
pub fn command_action(command: RuntimeCommand, has_content: bool, features: CoreFeatures) -> (action:
    CommandAction)
    ensures
        action_fits(action, command, command_refusal(command, has_content, features)),
{
    match command {
        RuntimeCommand::Reset => if features.reset {
            CommandAction::Reset
        } else {
            CommandAction::Nothing {
                why: "reset requested, but core does not expose retro_reset".to_owned(),
            }
        },
        RuntimeCommand::SaveState { slot } => {
            let head = "save state requested for slot ";
            if !has_content {
                CommandAction::Nothing {
                    why: slot_text(head, slot, ", but no content path is configured"),
                }
            } else if !features.serialize_size {
                CommandAction::Nothing {
                    why: slot_text(
                        head,
                        slot,
                        ", but core does not expose retro_serialize_size",
                    ),
                }
            } else if !features.serialize {
                CommandAction::Nothing {
                    why: slot_text(head, slot, ", but core does not expose retro_serialize"),
                }
            } else {
                CommandAction::SaveState { slot }
            }
        },
        RuntimeCommand::LoadState { slot } => {
            let head = "load state requested for slot ";
            if !has_content {
                CommandAction::Nothing {
                    why: slot_text(head, slot, ", but no content path is configured"),
                }
            } else if !features.unserialize {
                CommandAction::Nothing {
                    why: slot_text(head, slot, ", but core does not expose retro_unserialize"),
                }
            } else {
                CommandAction::LoadState { slot }
            }
        },
    }
}

/// Whether the memory of a core is other than what is on disk.
pub open spec fn memory_changed(memory: Option<Seq<u8>>, on_disk: Option<Seq<u8>>) -> bool {
    memory is Some && memory->0.len() > 0 && (on_disk is Some ==> on_disk->0 != memory->0)
}

/// Whether the memory of a core is written to disk: there is some, and it is
/// not what is there already.
pub fn save_ram_changed(memory: Option<&[u8]>, on_disk: Option<&[u8]>) -> (changed: bool)
    ensures
        changed == memory_changed(
            match memory {
                Some(m) => Some(m@),
                None => None,
            },
            match on_disk {
                Some(d) => Some(d@),
                None => None,
            },
        ),
{
    let bytes = match memory {
        Some(bytes) => bytes,
        None => return false,
    };
    if bytes.len() == 0 {
        return false;
    }
    let stored = match on_disk {
        Some(stored) => stored,
        None => return true,
    };
    if stored.len() != bytes.len() {
        return true;
    }
    let mut i: usize = 0;
    while i < bytes.len()
        invariant
            i <= bytes@.len() == stored@.len(),
            bytes@.len() > 0,
            memory == Some(bytes),
            on_disk == Some(stored),
            forall|j: int| 0 <= j < i ==> #[trigger] bytes@[j] == stored@[j],
        decreases bytes@.len() - i,
    {
        if bytes[i] != stored[i] {
            return true;
        }
        i += 1;
    }
    assert(bytes@ =~= stored@);
    false
}

/// How often the memory of a core is written to disk.
pub const SAVE_SYNC_INTERVAL_NS: u128 = 5_000_000_000;

/// The times of a running core: when its next frame is due, and when its memory
/// is next written to disk.
#[derive(Debug, Clone, Copy)]
pub struct RunClock {
    pub next_frame: u128,
    pub next_save_sync: u128,
}

impl RunClock {
    pub fn start(now: u128) -> (clock: Self)
        requires
            now <= crate::clock::MAX_DURATION_NS,
        ensures
            clock.next_frame == now,
            clock.next_save_sync == now + SAVE_SYNC_INTERVAL_NS,
    {
        RunClock { next_frame: now, next_save_sync: now + SAVE_SYNC_INTERVAL_NS }
    }

    /// Notes that a frame has been run by `now`, and says how long to sleep until
    /// the next one. A core that has fallen behind starts counting anew.
    pub fn frame_done(&mut self, now: u128, interval: u128) -> (sleep: u128)
        requires
            old(self).next_frame + interval <= u128::MAX,
        ensures
            final(self).next_save_sync == old(self).next_save_sync,
            final(self).next_frame == (if old(self).next_frame + interval > now {
                (old(self).next_frame + interval) as u128
            } else {
                now
            }),
            now + sleep == final(self).next_frame,
    {
        let due: u128 = self.next_frame + interval;
        if due > now {
            self.next_frame = due;
            due - now
        } else {
            self.next_frame = now;
            0
        }
    }

    /// Whether the memory of the core is to be written to disk at `now`.
    pub fn save_due(&mut self, now: u128) -> (due: bool)
        requires
            now <= crate::clock::MAX_DURATION_NS,
        ensures
            due == (now >= old(self).next_save_sync),
            final(self).next_frame == old(self).next_frame,
            final(self).next_save_sync == (if due {
                (now + SAVE_SYNC_INTERVAL_NS) as u128
            } else {
                old(self).next_save_sync
            }),
    {
        if now >= self.next_save_sync {
            self.next_save_sync = now + SAVE_SYNC_INTERVAL_NS;
            true
        } else {
            false
        }
    }
}

} // verus!
