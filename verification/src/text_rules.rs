//! Names, numbers, paths and settings as they are written and read.

use vstd::prelude::*;

use crate::arcade_model as model;
use crate::config;
use crate::config::{AppConfig, CliOptions, FileConfig};
use crate::media;
use crate::paths;
use crate::server::AuthConfig;
use crate::session::LaunchConfig;
use crate::text;
use crate::web;

verus! {

/// Whether a text is nothing but white space.
pub open spec fn blank(s: Seq<char>) -> bool {
    forall|i: int| 0 <= i < s.len() ==> text::is_space(#[trigger] s[i])
}

/// Whether a text is a word: there is something, and no white space in it.
pub open spec fn is_word(s: Seq<char>) -> bool {
    s.len() > 0 && forall|i: int| 0 <= i < s.len() ==> !text::is_space(#[trigger] s[i])
}

/// What white space is: the blank, tabs and line ends, and the other spaces that
/// Unicode has.
pub proof fn law_white_space(c: char)
    ensures
        text::is_space(' ') && text::is_space('\t') && text::is_space('\n') && text::is_space('\r'),
        'a' <= c <= 'z' || 'A' <= c <= 'Z' || '0' <= c <= '9' || c == '-' || c == '_' || c == '.'
            || c == '/' ==> !text::is_space(c),
        ({
            let n = c as u32;
            text::is_space(c) <==> 9 <= n <= 13 || n == 32 || n == 133 || n == 160 || n == 5760
                || 8192 <= n <= 8202 || n == 8232 || n == 8233 || n == 8239 || n == 8287 || n
                == 12288
        }),
{
}

/// Trimming takes the white space from both ends and nothing else.
pub proof fn law_trimmed(a: Seq<char>, s: Seq<char>, b: Seq<char>)
    requires
        blank(a),
        blank(b),
        s.len() > 0,
        !text::is_space(s[0]),
        !text::is_space(s.last()),
    ensures
        text::trimmed(a + s + b) == s,
        text::trimmed(a) == Seq::<char>::empty(),
{
    let whole = a + s + b;
    assert forall|i: int| 0 <= i < a.len() implies text::is_space(#[trigger] whole[i]) by {
        assert(whole[i] == a[i]);
    }
    assert(whole[a.len() as int] == s[0]);
    text::lemma_trim_front(whole, a.len() as int);
    let front = whole.skip(a.len() as int);
    assert(front =~= s + b);
    assert forall|i: int| s.len() <= i < front.len() implies text::is_space(
        #[trigger] front[i],
    ) by {
        assert(front[i] == b[i - s.len()]);
    }
    assert(front[s.len() - 1] == s.last());
    text::lemma_trim_back(front, s.len() as int);
    assert(front.take(s.len() as int) =~= s);
    text::lemma_trim_front(a, a.len() as int);
    assert(a.skip(a.len() as int) =~= Seq::<char>::empty());
}

/// Lower case: each capital from A to Z is the letter that is 32 further on, and
/// anything else is as it was.
pub proof fn law_lower_case(s: Seq<char>, i: int)
    requires
        0 <= i < s.len(),
    ensures
        text::lower(s).len() == s.len(),
        'A' <= s[i] <= 'Z' ==> text::lower(s)[i] as u32 == s[i] as u32 + 32,
        !('A' <= s[i] <= 'Z') ==> text::lower(s)[i] == s[i],
        text::lower(text::lower(s)) == text::lower(s),
{
    assert(text::lower(text::lower(s)) =~= text::lower(s));
}

/// A number's digits are written from the highest to the lowest.
pub proof fn law_decimal_digits(n: nat, d: nat)
    requires
        d < 10,
    ensures
        text::decimal(d) == seq![(0x30 + d) as char],
        n > 0 ==> text::decimal(10 * n + d) == text::decimal(n).push((0x30 + d) as char),
{
    assert((10 * n + d) / 10 == n && (10 * n + d) % 10 == d);
}

/// The same to the base of sixteen, with capital letters.
pub proof fn law_hexadecimal_digits(n: nat, d: nat)
    requires
        d < 16,
    ensures
        d < 10 ==> text::hexadecimal(d) == seq![(0x30 + d) as char],
        d >= 10 ==> text::hexadecimal(d) == seq![(0x41 + (d - 10)) as char],
        n > 0 ==> text::hexadecimal(16 * n + d) == text::hexadecimal(n) + text::hexadecimal(d),
{
    assert((16 * n + d) / 16 == n && (16 * n + d) % 16 == d);
    if n > 0 {
        assert(text::hexadecimal(16 * n + d) =~= text::hexadecimal(n) + text::hexadecimal(d));
    }
}

/// A number of 32 bits is read back from its digits, with or without a plus sign;
/// a larger one is none, and neither is nothing at all.
pub proof fn law_number_is_read(n: nat)
    ensures
        n <= u32::MAX ==> text::number32(text::decimal(n)) == Some(n as u32),
        n <= u32::MAX ==> text::number32(seq!['+'] + text::decimal(n)) == Some(n as u32),
        n > u32::MAX ==> text::number32(text::decimal(n)) is None,
        text::number32(Seq::empty()) is None,
        text::number32(seq!['-'] + text::decimal(n)) is None,
{
    text::law_decimal_round_trip(n);
    let digits = text::decimal(n);
    assert(text::is_digit(digits[0]));
    assert(text::unsigned(digits) == digits);
    assert((seq!['+'] + digits).skip(1) =~= digits);
    let minus = seq!['-'] + digits;
    assert(text::unsigned(minus) == minus);
    assert(!text::is_digit(minus[0]));
}

/// The order of names: by the first character in which they differ, and a name
/// before any that goes on behind it.
pub proof fn law_order_of_names(front: Seq<char>, a: Seq<char>, b: Seq<char>)
    ensures
        a.len() > 0 && b.len() > 0 && a[0] < b[0] ==> text::name_le(front + a, front + b)
            && !text::name_le(front + b, front + a),
        text::name_le(front, front + a),
        a.len() > 0 ==> !text::name_le(front + a, front),
    decreases front.len(),
{
    if front.len() == 0 {
        assert(front + a =~= a);
        assert(front + b =~= b);
    } else {
        let rest = front.drop_first();
        law_order_of_names(rest, a, b);
        assert((front + a).drop_first() =~= rest + a);
        assert((front + b).drop_first() =~= rest + b);
    }
}

/// A text is cut at each mark, and what stands between two marks is a piece.
pub proof fn law_cut_at_marks(first: Seq<char>, mark: char, rest: Seq<char>)
    requires
        forall|i: int| 0 <= i < first.len() ==> #[trigger] first[i] != mark,
    ensures
        text::pieces(first, mark) == seq![first],
        text::pieces(first + seq![mark] + rest, mark) == seq![first] + text::pieces(rest, mark),
{
    text::lemma_before_mark(first, mark, first.len() as int);
    let whole = first + seq![mark] + rest;
    text::lemma_before_mark(whole, mark, first.len() as int);
    assert(whole.take(first.len() as int) =~= first);
    assert(whole.skip((first.len() + 1) as int) =~= rest);
}

proof fn lemma_one_word(a: Seq<char>, w: Seq<char>, rest: Seq<char>)
    requires
        blank(a),
        is_word(w),
        rest.len() > 0 ==> text::is_space(rest[0]),
    ensures
        text::words(a + w + rest) == seq![w] + text::words(rest),
{
    let s = a + w + rest;
    assert forall|i: int| 0 <= i < a.len() implies text::is_space(#[trigger] s[i]) by {
        assert(s[i] == a[i]);
    }
    assert(s[a.len() as int] == w[0]);
    text::lemma_trim_front(s, a.len() as int);
    let t = s.skip(a.len() as int);
    assert(t =~= w + rest);
    assert forall|i: int| 0 <= i < w.len() implies !text::is_space(#[trigger] t[i]) by {
        assert(t[i] == w[i]);
    }
    if rest.len() > 0 {
        assert(t[w.len() as int] == rest[0]);
    }
    text::lemma_word_len(t, w.len() as int);
    assert(t.take(w.len() as int) =~= w);
    assert(t.skip(w.len() as int) =~= rest);
}

proof fn lemma_no_word(a: Seq<char>)
    requires
        blank(a),
    ensures
        text::words(a) == Seq::<Seq<char>>::empty(),
{
    text::lemma_trim_front(a, a.len() as int);
    assert(a.skip(a.len() as int).len() == 0);
}

/// The name that is shown for two words, however much white space stands around
/// and between them, is the two with one blank between them; of a long one the first
/// 24 characters. White space alone is no name.
pub proof fn law_name_is_tidied(
    a: Seq<char>,
    first: Seq<char>,
    b: Seq<char>,
    second: Seq<char>,
    c: Seq<char>,
)
    requires
        blank(a),
        blank(b),
        blank(c),
        b.len() > 0,
        is_word(first),
        is_word(second),
    ensures
        ({
            let whole = first + seq![' '] + second;
            let shown = model::display_name(a + first + b + second + c);
            &&& whole.len() <= 24 ==> shown == whole
            &&& whole.len() > 24 ==> shown == whole.take(24)
        }),
        first.len() <= 24 ==> model::display_name(a + first + c) == first,
        first.len() > 24 ==> model::display_name(a + first + c) == first.take(24),
        model::display_name(a) == Seq::<char>::empty(),
        model::player_key(a + first + c) == text::lower(model::display_name(a + first + c)),
{
    let none = Seq::<Seq<char>>::empty();
    lemma_no_word(a);
    lemma_no_word(c);
    assert(text::spaced(none) == Seq::<char>::empty());
    lemma_one_word(a, first, c);
    assert(seq![first] + none =~= seq![first]);
    assert(text::spaced(seq![first]) == first);
    let s = a + first + b + second + c;
    assert(s =~= a + first + (b + second + c));
    lemma_one_word(a, first, b + second + c);
    lemma_one_word(b, second, c);
    let list = seq![first] + (seq![second] + none);
    assert(list =~= seq![first, second]);
    assert(list.drop_last() =~= seq![first]);
    assert(text::spaced(list) == text::spaced(seq![first]).push(' ') + second);
    assert(first.push(' ') + second =~= first + seq![' '] + second);
}

/// A path that starts at the root stays; any other is seen from the directory,
/// with one slash between them.
pub proof fn law_paths_are_joined(dir: Seq<char>, path: Seq<char>)
    ensures
        path.len() > 0 && path[0] == '/' ==> paths::joined(dir, path) == path,
        !(path.len() > 0 && path[0] == '/') && dir.len() > 0 && dir.last() != '/' ==> paths::joined(
            dir,
            path,
        ) == dir + seq!['/'] + path,
        !(path.len() > 0 && path[0] == '/') && (dir.len() == 0 || dir.last() == '/')
            ==> paths::joined(dir, path) == dir + path,
{
    assert(dir.push('/') + path =~= dir + seq!['/'] + path);
}

/// What counts of what the command line and the file say: the command line first,
/// then the file, then 320 by 240 pixels, sixty a second (a single's 60 is
/// 0x4270_0000). Either can ask for copies. Paths are seen from the file's
/// directory.
pub proof fn law_command_line_goes_first(launch: LaunchConfig, cli: CliOptions, file: FileConfig)
    requires
        config::launch_of(launch, cli, file),
    ensures
        cli.width is Some ==> launch.width == cli.width->0,
        cli.width is None && file.width is Some ==> launch.width == file.width->0,
        cli.width is None && file.width is None ==> launch.width == 320,
        cli.height is Some ==> launch.height == cli.height->0,
        cli.height is None && file.height is Some ==> launch.height == file.height->0,
        cli.height is None && file.height is None ==> launch.height == 240,
        cli.fps_bits is Some ==> launch.fps_bits == cli.fps_bits->0,
        cli.fps_bits is None && file.fps_bits is Some ==> launch.fps_bits == file.fps_bits->0,
        cli.fps_bits is None && file.fps_bits is None ==> launch.fps_bits == 0x4270_0000,
        cli.config is None && cli.core is Some ==> launch.core is Some && launch.core->0@
            == cli.core->0@,
        cli.config is None && cli.core is None && file.core is Some ==> launch.core is Some
            && launch.core->0@ == file.core->0@,
        cli.core is None && file.core is None ==> launch.core is None,
        cli.config is None && cli.content is Some ==> launch.content is Some && launch.content->0@
            == cli.content->0@,
        cli.config is None && cli.content is None && file.content is Some ==> launch.content is Some
            && launch.content->0@ == file.content->0@,
        cli.content is None && file.content is None ==> launch.content is None,
        cli.config is Some && cli.core is Some ==> launch.core is Some && launch.core->0@
            == paths::joined(
            if paths::parent(cli.config->0@) is Some {
                paths::parent(cli.config->0@)->0
            } else {
                "."@
            },
            cli.core->0@,
        ),
        cli.session_id is Some ==> launch.workspace.id is Some && launch.workspace.id->0@
            == cli.session_id->0@,
        cli.session_id is None && file.session is Some && file.session->0.id is Some
            ==> launch.workspace.id is Some && launch.workspace.id->0@ == file.session->0.id->0@,
        launch.workspace.copy_core <==> cli.session_copy_core || (file.session is Some
            && file.session->0.copy_core == Some(true)),
        launch.workspace.copy_content <==> cli.session_copy_content || (file.session is Some
            && file.session->0.copy_content == Some(true)),
{
}

/// The defaults: where the server listens, how long a port is kept for a player
/// (in milliseconds, and never less than a second), and how large its pictures are.
pub proof fn law_defaults()
    ensures
        config::DEFAULT_LISTEN@ == "0.0.0.0:8080"@,
        config::DEFAULT_RECONNECT_WINDOW_MS == 15_000,
        config::MIN_RECONNECT_WINDOW_MS == 1_000,
        config::DEFAULT_WIDTH == 320,
        config::DEFAULT_HEIGHT == 240,
        media::default_encoder_config().bitrate_kbps == 2_500,
        media::default_encoder_config().keyframe_interval == 60,
        media::default_encoder_config().low_latency,
{
}

/// The first of two values that is there counts, and without any the third.
pub proof fn law_first_value_counts<T>(first: Option<T>, second: Option<T>, otherwise: T)
    ensures
        first is Some ==> config::chosen(first, second, otherwise) == first->0,
        first is None && second is Some ==> config::chosen(first, second, otherwise) == second->0,
        first is None && second is None ==> config::chosen(first, second, otherwise) == otherwise,
{
}

/// What a request asks for is the second word of its first line.
pub proof fn law_request_names_a_path(
    verb: Seq<char>,
    path: Seq<char>,
    version: Seq<char>,
    rest: Seq<char>,
)
    requires
        is_word(verb),
        is_word(path),
        is_word(version),
    ensures
        web::asked_path(
            verb + seq![' '] + path + seq![' '] + version + seq!['\r'] + seq!['\n'] + rest,
        ) == path,
{
    let line = verb + seq![' '] + path + seq![' '] + version + seq!['\r'];
    let whole = verb + seq![' '] + path + seq![' '] + version + seq!['\r'] + seq!['\n'] + rest;
    assert(whole =~= line + seq!['\n'] + rest);
    assert forall|i: int| 0 <= i < line.len() implies #[trigger] line[i] != '\n' by {
        let v = verb.len() as int;
        let p = path.len() as int;
        let n = version.len() as int;
        if i < v {
            assert(line[i] == verb[i]);
        } else if i == v {
        } else if i < v + 1 + p {
            assert(line[i] == path[i - v - 1]);
        } else if i == v + 1 + p {
        } else if i < v + 2 + p + n {
            assert(line[i] == version[i - v - 2 - p]);
        }
        assert(text::is_space('\n'));
    }
    law_cut_at_marks(line, '\n', rest);
    assert(web::first_line(whole) == line);
    let none = Seq::<char>::empty();
    let tail = seq![' '] + path + (seq![' '] + version + seq!['\r']);
    assert(line =~= none + verb + tail);
    lemma_one_word(none, verb, tail);
    lemma_one_word(seq![' '], path, seq![' '] + version + seq!['\r']);
    let list = text::words(line);
    assert(list[1] == path);
}

/// Slashes in front of a path are dropped, all of them and nothing else.
pub proof fn law_slashes_are_dropped(path: Seq<char>)
    ensures
        path.len() > 0 && path[0] == '/' ==> web::without_slashes(path) == web::without_slashes(
            path.skip(1),
        ),
        !(path.len() > 0 && path[0] == '/') ==> web::without_slashes(path) == path,
{
    if path.len() > 0 {
        assert(path.drop_first() =~= path.skip(1));
    }
}

/// What a file is said to be: a page, a script, or bytes.
pub proof fn law_kinds_of_files(path: Seq<char>)
    ensures
        paths::extension(path) == Some("html"@) ==> web::content_type(path)
            == "text/html; charset=utf-8"@,
        paths::extension(path) == Some("js"@) ==> web::content_type(path)
            == "text/javascript; charset=utf-8"@,
        paths::extension(path) is None ==> web::content_type(path)
            == "application/octet-stream"@,
        paths::extension(path) is Some && paths::extension(path) != Some("html"@)
            && paths::extension(path) != Some("js"@) ==> web::content_type(path)
            == "application/octet-stream"@,
{
    reveal_strlit("html");
    reveal_strlit("js");
    assert("html"@.len() == 4 && "js"@.len() == 2);
}

/// What counts of what the server is told: where it listens, its secret, whether it
/// asks for tokens, and how long it keeps a port; the command line first, then the
/// file, then the default.
pub proof fn law_server_is_configured(
    cli: CliOptions,
    file: FileConfig,
    env_backend: Option<Seq<char>>,
    env: media::VideoEnv,
    answer: Result<AppConfig, String>,
)
    requires
        config::config_outcome(cli, file, env_backend, env, answer),
        answer is Ok,
    ensures
        ({
            let c = answer->Ok_0;
            &&& cli.listen is Some ==> c.listen@ == cli.listen->0@
            &&& cli.listen is None && file.listen is Some ==> c.listen@ == file.listen->0@
            &&& cli.listen is None && file.listen is None ==> c.listen@ == "0.0.0.0:8080"@
            &&& cli.auth_secret is Some ==> c.auth_secret is Some && c.auth_secret->0@
                == cli.auth_secret->0@
            &&& cli.auth_secret is None && file.auth_secret is Some ==> c.auth_secret is Some
                && c.auth_secret->0@ == file.auth_secret->0@
            &&& cli.auth_secret is None && file.auth_secret is None ==> c.auth_secret is None
            &&& c.require_auth <==> cli.require_auth || file.require_auth == Some(true)
            &&& cli.reconnect_window_ms is Some ==> c.reconnect_window_ms
                == cli.reconnect_window_ms->0
            &&& cli.reconnect_window_ms is None && file.reconnect_window_ms is Some
                ==> c.reconnect_window_ms == file.reconnect_window_ms->0
            &&& cli.reconnect_window_ms is None && file.reconnect_window_ms is None
                ==> c.reconnect_window_ms == 15_000
            &&& config::launch_of(c.launch, cli, file)
        }),
{
}

/// Tokens can be asked for only where there is a secret; and a port is kept for as
/// many milliseconds as was said, but for a second at least.
pub proof fn law_access_is_guarded(
    require_auth: bool,
    secret: Option<String>,
    window_ms: u64,
    answer: Result<AuthConfig, String>,
)
    requires
        config::guard_outcome(require_auth, secret, window_ms, answer),
    ensures
        answer is Err <==> require_auth && secret is None,
        answer is Ok ==> {
            let c = answer->Ok_0;
            &&& c.require_auth == require_auth
            &&& c.secret is Some <==> secret is Some
            &&& window_ms >= 1_000 ==> c.reconnect_window_ns == window_ms * 1_000_000
            &&& window_ms < 1_000 ==> c.reconnect_window_ns == 1_000_000_000
        },
{
}

/// What is served: the picture for "/frame", the index page for the root, and else
/// the file that the path names under the directory.
pub proof fn law_what_is_served(path: Seq<char>, root: Seq<char>, what: web::Served)
    requires
        web::serves(path, root, what),
    ensures
        what is Picture <==> path == "/frame"@,
        path == "/"@ ==> what is File && what->path@ == paths::joined(root, "index.html"@),
        path != "/"@ && path != "/frame"@ && path.len() > 1 && path[0] == '/' && path[1] != '/'
            ==> what is File && what->path@ == paths::joined(root, path.skip(1)),
{
    reveal_strlit("/");
    reveal_strlit("/frame");
    reveal_strlit("/index.html");
    reveal_strlit("index.html");
    assert("/"@.len() == 1 && "/frame"@.len() == 6);
    let index = "/index.html"@;
    assert(index[0] == '/' && index[1] == 'i');
    assert(index.drop_first() =~= "index.html"@);
    assert(web::without_slashes(index.drop_first()) == index.drop_first());
    if path.len() > 1 {
        assert(path.drop_first() =~= path.skip(1));
        assert(path.drop_first()[0] == path[1]);
        if path[1] != '/' {
            assert(web::without_slashes(path.drop_first()) == path.drop_first());
        }
    }
}


/// The head of an answer says how long the body is, and of what kind; where there is
/// nothing to send it says so.
pub proof fn law_heads_of_answers(path: Seq<char>, n: usize)
    ensures
        web::picture_head_text(Some(n))
            == "HTTP/1.1 200 OK\r\nContent-Type: image/png\r\nContent-Length: "@ + text::decimal(
            n as nat,
        ) + "\r\nCache-Control: no-store\r\n\r\n"@,
        web::picture_head_text(None)
            == "HTTP/1.1 503 Service Unavailable\r\nContent-Length: 0\r\n\r\n"@,
        web::file_head_text(path, None)
            == "HTTP/1.1 404 Not Found\r\nContent-Length: 0\r\n\r\n"@,
        paths::extension(path) == Some("html"@) ==> web::file_head_text(path, Some(n))
            == "HTTP/1.1 200 OK\r\nContent-Type: "@ + "text/html; charset=utf-8"@
            + "\r\nContent-Length: "@ + text::decimal(n as nat) + "\r\n\r\n"@,
{
}


/// What stands for nothing at the end of a path is dropped: slashes, and the name of
/// the directory itself.
pub proof fn law_ends_of_paths(path: Seq<char>)
    ensures
        paths::trimmed_end(path + seq!['/']) == paths::trimmed_end(path),
        paths::trimmed_end(path + seq!['/', '.']) == paths::trimmed_end(path),
        path.len() > 0 && path.last() != '/' && path.last() != '.' ==> paths::trimmed_end(path)
            == path,
{
    let slash = path + seq!['/'];
    assert(slash.last() == '/');
    assert(slash.drop_last() =~= path);
    let dot = path + seq!['/', '.'];
    assert(dot.last() == '.');
    assert(dot[dot.len() - 2] == '/');
    assert(dot.take(dot.len() - 2) =~= path);
}


/// A path that ends in the directory above names no file; an empty one lies in no
/// directory, and a name alone lies in the empty one.
pub proof fn law_paths_without_a_name(name: Seq<char>)
    requires
        name.len() > 0,
        name.last() != '.',
        forall|i: int| 0 <= i < name.len() ==> #[trigger] name[i] != '/',
    ensures
        paths::file_name(seq!['.', '.']) is None,
        paths::file_name(seq!['.']) is None,
        paths::file_name(Seq::<char>::empty()) is None,
        paths::parent(Seq::<char>::empty()) is None,
        paths::parent(name) == Some(Seq::<char>::empty()),
        paths::file_name(name) == Some(name),
{
    let empty = Seq::<char>::empty();
    assert(name.last() == name[name.len() - 1]);
    assert(paths::trimmed_end(name) == name);
    lemma_bare_name(name);
    assert(name.take(0) =~= empty);
    assert(name.skip(0) =~= name);
    let up = seq!['.', '.'];
    assert(up[0] == '.' && up[1] == '.' && up.last() == '.');
    assert(paths::trimmed_end(up) == up);
    lemma_bare_name(up);
    assert(up.skip(0) =~= up);
    let here = seq!['.'];
    assert(here[0] == '.' && here.last() == '.');
    assert(paths::trimmed_end(here) == here);
    lemma_bare_name(here);
    assert(here.skip(0) =~= here);
    assert(name != up && name != here);
    assert(paths::trimmed_end(empty) == empty);
    assert(empty.skip(0) =~= empty);
}

proof fn lemma_bare_name(name: Seq<char>)
    requires
        forall|i: int| 0 <= i < name.len() ==> #[trigger] name[i] != '/',
    ensures
        paths::name_start(name) == 0,
    decreases name.len(),
{
    if name.len() > 0 {
        assert(name.last() == name[name.len() - 1]);
        assert forall|i: int| 0 <= i < name.drop_last().len() implies #[trigger] name.drop_last()[i]
            != '/' by {
            assert(name.drop_last()[i] == name[i]);
        }
        lemma_bare_name(name.drop_last());
    }
}


} // verus!
