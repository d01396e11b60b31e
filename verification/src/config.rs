//! What the program is told on its command line, in its environment and in its
//! file, made into one configuration.

use vstd::prelude::*;

use crate::clock::MAX_DURATION_NS;
use crate::media;
use crate::media::{MediaConfig, VideoEnv};
use crate::paths;
use crate::server::AuthConfig;
use crate::session;
use crate::session::{LaunchConfig, WorkspaceConfig};
use crate::wire;

verus! {

/// The bits of sixty, as an IEEE 754 single.
pub const SIXTY_BITS: u32 = 0x4270_0000;

pub const DEFAULT_LISTEN: &'static str = "0.0.0.0:8080";

pub const DEFAULT_WIDTH: u32 = 320;

pub const DEFAULT_HEIGHT: u32 = 240;

pub const DEFAULT_RECONNECT_WINDOW_MS: u64 = 15_000;

/// The shortest time that a port is kept for a player.
pub const MIN_RECONNECT_WINDOW_MS: u64 = 1_000;

/// What the command line says. The frame rate is held as the bits of its IEEE 754
/// single.
#[derive(Debug, Clone)]
pub struct CliOptions {
    pub config: Option<String>,
    pub listen: Option<String>,
    pub core: Option<String>,
    pub content: Option<String>,
    pub fps_bits: Option<u32>,
    pub width: Option<u32>,
    pub height: Option<u32>,
    pub auth_secret: Option<String>,
    pub require_auth: bool,
    pub reconnect_window_ms: Option<u64>,
    pub session_root: Option<String>,
    pub session_id: Option<String>,
    pub session_copy_core: bool,
    pub session_copy_content: bool,
    pub media_backend: Option<String>,
    pub video_codec: Option<String>,
    pub video_encoder: Option<String>,
}

/// What the file says.
#[derive(Debug, Clone)]
pub struct FileConfig {
    pub listen: Option<String>,
    pub core: Option<String>,
    pub content: Option<String>,
    pub fps_bits: Option<u32>,
    pub width: Option<u32>,
    pub height: Option<u32>,
    pub media_backend: Option<String>,
    pub auth_secret: Option<String>,
    pub require_auth: Option<bool>,
    pub reconnect_window_ms: Option<u64>,
    pub session: Option<SessionConfig>,
}

/// What the file says of sessions.
#[derive(Debug, Clone)]
pub struct SessionConfig {
    pub root_dir: Option<String>,
    pub id: Option<String>,
    pub copy_core: Option<bool>,
    pub copy_content: Option<bool>,
}

impl Default for SessionConfig {
    fn default() -> (config: Self)
        ensures
            config == (SessionConfig {
                root_dir: None,
                id: None,
                copy_core: None,
                copy_content: None,
            }),
    {
        SessionConfig { root_dir: None, id: None, copy_core: None, copy_content: None }
    }
}

impl Default for FileConfig {
    fn default() -> (config: Self)
        ensures
            config == (FileConfig {
                listen: None,
                core: None,
                content: None,
                fps_bits: None,
                width: None,
                height: None,
                media_backend: None,
                auth_secret: None,
                require_auth: None,
                reconnect_window_ms: None,
                session: None,
            }),
    {
        FileConfig {
            listen: None,
            core: None,
            content: None,
            fps_bits: None,
            width: None,
            height: None,
            media_backend: None,
            auth_secret: None,
            require_auth: None,
            reconnect_window_ms: None,
            session: None,
        }
    }
}

/// The configuration that counts.
#[derive(Debug, Clone)]
pub struct AppConfig {
    pub listen: String,
    pub launch: LaunchConfig,
    pub media: MediaConfig,
    pub auth_secret: Option<String>,
    pub require_auth: bool,
    pub reconnect_window_ms: u64,
}

/// A path of the configuration: one that does not start at the root is seen from
/// the directory of the file, where there is a file.
pub open spec fn resolved(path: Option<Seq<char>>, dir: Option<Seq<char>>) -> Option<Seq<char>> {
    match (path, dir) {
        (Some(p), Some(d)) => Some(paths::joined(d, p)),
        _ => path,
    }
}

/// The directory of a configuration file.
pub open spec fn config_dir(config: Option<Seq<char>>) -> Option<Seq<char>> {
    match config {
        Some(path) => match paths::parent(path) {
            Some(dir) => Some(dir),
            None => Some("."@),
        },
        None => None,
    }
}

/// What the file says of sessions, or nothing.
pub open spec fn file_session(file: FileConfig) -> SessionConfig {
    match file.session {
        Some(s) => s,
        None => SessionConfig { root_dir: None, id: None, copy_core: None, copy_content: None },
    }
}

pub open spec fn chosen<T>(first: Option<T>, second: Option<T>, otherwise: T) -> T {
    match first {
        Some(v) => v,
        None => match second {
            Some(v) => v,
            None => otherwise,
        },
    }
}

/// What is launched: the command line goes before the file.
pub open spec fn launch_of(launch: LaunchConfig, cli: CliOptions, file: FileConfig) -> bool {
    let dir = config_dir(session::text_view(cli.config));
    let told = file_session(file);
    &&& session::text_view(launch.core) == resolved(session::first_text(cli.core, file.core), dir)
    &&& session::text_view(launch.content) == resolved(
        session::first_text(cli.content, file.content),
        dir,
    )
    &&& launch.fps_bits == chosen(cli.fps_bits, file.fps_bits, SIXTY_BITS)
    &&& launch.width == chosen(cli.width, file.width, DEFAULT_WIDTH)
    &&& launch.height == chosen(cli.height, file.height, DEFAULT_HEIGHT)
    &&& session::text_view(launch.workspace.root_dir) == resolved(
        session::first_text(cli.session_root, told.root_dir),
        dir,
    )
    &&& session::text_view(launch.workspace.id) == session::first_text(cli.session_id, told.id)
    &&& launch.workspace.copy_core == (cli.session_copy_core || told.copy_core == Some(true))
    &&& launch.workspace.copy_content == (cli.session_copy_content || told.copy_content == Some(
        true,
    ))
}

fn text_ref(t: &Option<String>) -> (r: Option<&str>)
    ensures
        media::str_view(r) == session::text_view(*t),
        r is Some <==> t is Some,
        r is Some ==> r->0@ == t->0@,
{
    match t {
        Some(s) => Some(s.as_str()),
        None => None,
    }
}

fn first_of(a: Option<String>, b: Option<String>) -> (t: Option<String>)
    ensures
        session::text_view(t) == session::first_text(a, b),
{
    match a {
        Some(s) => Some(s),
        None => b,
    }
}

fn resolve_relative_path(path: Option<String>, dir: &Option<String>) -> (r: Option<String>)
    ensures
        session::text_view(r) == resolved(session::text_view(path), session::text_view(*dir)),
{
    match path {
        Some(p) => match dir {
            Some(d) => Some(paths::join(d.as_str(), p.as_str())),
            None => Some(p),
        },
        None => None,
    }
}

/// What the command line, the environment and the file come to.
pub open spec fn config_outcome(
    cli: CliOptions,
    file: FileConfig,
    env_backend: Option<Seq<char>>,
    env: VideoEnv,
    config: Result<AppConfig, String>,
) -> bool {
    let backend = media::backend_text(
        session::text_view(cli.media_backend),
        env_backend,
        session::text_view(file.media_backend),
    );
    let encoder = media::encoder_config_of(
        session::text_view(cli.video_codec),
        session::text_view(cli.video_encoder),
        env,
    );
    match config {
        Ok(c) => {
            &&& media::media_outcome(backend, encoder, Ok(c.media))
            &&& c.listen@ == chosen(
                session::text_view(cli.listen),
                session::text_view(file.listen),
                DEFAULT_LISTEN@,
            )
            &&& launch_of(c.launch, cli, file)
            &&& session::text_view(c.auth_secret) == session::first_text(
                cli.auth_secret,
                file.auth_secret,
            )
            &&& c.require_auth == (cli.require_auth || file.require_auth == Some(true))
            &&& c.reconnect_window_ms == chosen(
                cli.reconnect_window_ms,
                file.reconnect_window_ms,
                DEFAULT_RECONNECT_WINDOW_MS,
            )
        },
        Err(why) => media::media_outcome(backend, encoder, Err(why)),
    }
}

/// One configuration out of what the command line, the environment and the file
/// say. What is wrong with it is wrong with the media.
pub fn load_app_config(
    cli: CliOptions,
    file: FileConfig,
    env_backend: Option<&str>,
    env: &VideoEnv,
) -> (config: Result<AppConfig, String>)
    ensures
        config_outcome(cli, file, media::str_view(env_backend), *env, config),
{
    let dir: Option<String> = match &cli.config {
        Some(path) => match paths::parent_of(path.as_str()) {
            Some(d) => Some(d),
            None => Some(".".to_owned()),
        },
        None => None,
    };
    let media = MediaConfig::from_sources(
        text_ref(&cli.media_backend),
        env_backend,
        text_ref(&file.media_backend),
        text_ref(&cli.video_codec),
        text_ref(&cli.video_encoder),
        env,
    );
    let media = match media {
        Ok(m) => m,
        Err(why) => return Err(why),
    };
    let told = match file.session {
        Some(s) => s,
        None => SessionConfig::default(),
    };
    let launch = LaunchConfig {
        core: resolve_relative_path(first_of(cli.core, file.core), &dir),
        content: resolve_relative_path(first_of(cli.content, file.content), &dir),
        fps_bits: match cli.fps_bits {
            Some(v) => v,
            None => match file.fps_bits {
                Some(v) => v,
                None => SIXTY_BITS,
            },
        },
        width: match cli.width {
            Some(v) => v,
            None => match file.width {
                Some(v) => v,
                None => DEFAULT_WIDTH,
            },
        },
        height: match cli.height {
            Some(v) => v,
            None => match file.height {
                Some(v) => v,
                None => DEFAULT_HEIGHT,
            },
        },
        workspace: WorkspaceConfig {
            root_dir: resolve_relative_path(first_of(cli.session_root, told.root_dir), &dir),
            id: first_of(cli.session_id, told.id),
            copy_core: cli.session_copy_core || told.copy_core == Some(true),
            copy_content: cli.session_copy_content || told.copy_content == Some(true),
        },
    };
    Ok(
        AppConfig {
            listen: match first_of(cli.listen, file.listen) {
                Some(listen) => listen,
                None => DEFAULT_LISTEN.to_owned(),
            },
            launch,
            media,
            auth_secret: first_of(cli.auth_secret, file.auth_secret),
            require_auth: cli.require_auth || file.require_auth == Some(true),
            reconnect_window_ms: match cli.reconnect_window_ms {
                Some(v) => v,
                None => match file.reconnect_window_ms {
                    Some(v) => v,
                    None => DEFAULT_RECONNECT_WINDOW_MS,
                },
            },
        },
    )
}

/// What guarding access comes to.
pub open spec fn guard_outcome(
    require_auth: bool,
    auth_secret: Option<String>,
    reconnect_window_ms: u64,
    config: Result<AuthConfig, String>,
) -> bool {
    match config {
        Ok(c) => {
            &&& !(require_auth && auth_secret is None)
            &&& c.require_auth == require_auth
            &&& match auth_secret {
                Some(secret) => c.secret is Some && c.secret->0@ == vstd::utf8::encode_utf8(
                    secret@,
                ),
                None => c.secret is None,
            }
            &&& c.reconnect_window_ns == 1_000_000 * if reconnect_window_ms
                < MIN_RECONNECT_WINDOW_MS {
                MIN_RECONNECT_WINDOW_MS
            } else {
                reconnect_window_ms
            }
            &&& c.reconnect_window_ns <= MAX_DURATION_NS
        },
        Err(why) => {
            &&& require_auth && auth_secret is None
            &&& why@ == "--require-auth needs --auth-secret (or NOSEBLEED_AUTH_SECRET)"@
        },
    }
}

/// How access is guarded: asking for tokens takes a secret, and the window is
/// never too short.
pub fn build_auth_config(
    require_auth: bool,
    auth_secret: &Option<String>,
    reconnect_window_ms: u64,
) -> (config: Result<AuthConfig, String>)
    ensures
        guard_outcome(require_auth, *auth_secret, reconnect_window_ms, config),
{
    if require_auth && auth_secret.is_none() {
        return Err("--require-auth needs --auth-secret (or NOSEBLEED_AUTH_SECRET)".to_owned());
    }
    let window_ms: u64 = if reconnect_window_ms < MIN_RECONNECT_WINDOW_MS {
        MIN_RECONNECT_WINDOW_MS
    } else {
        reconnect_window_ms
    };
    let secret = match auth_secret {
        Some(value) => {
            let mut bytes: Vec<u8> = Vec::new();
            wire::push_all(&mut bytes, value.as_str().as_bytes());
            assert(bytes@ =~= vstd::utf8::encode_utf8(value@));
            Some(bytes)
        },
        None => None,
    };
    Ok(AuthConfig { require_auth, secret, reconnect_window_ns: window_ms as u128 * 1_000_000 })
}

/// With a configuration file, no path that is configured depends on where the
/// program was started, if the file's own path does not.
pub proof fn law_resolved_from_root(path: Seq<char>, dir: Seq<char>)
    requires
        dir.len() > 0,
        dir[0] == '/',
    ensures
        resolved(Some(path), Some(dir)) is Some,
        resolved(Some(path), Some(dir))->0.len() > 0,
        resolved(Some(path), Some(dir))->0[0] == '/',
{
}

} // verus!
