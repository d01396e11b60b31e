//! A runtime for hosting libretro cores and streaming them to browsers: the
//! protocols, the session and arcade state machines and the media rules, as
//! executable code with proved contracts.

pub mod access_rules;
pub mod arcade;
pub mod arcade_laws;
pub mod arcade_model;
pub mod arcade_rules;
pub mod audio;
pub mod auth;
pub mod bounce;
pub mod clock;
pub mod config;
pub mod core_rules;
pub mod core_run;
pub mod feed_rules;
pub mod frame;
pub mod gstreamer_backend;
pub mod hw_render;
pub mod input;
pub mod input_rules;
pub mod libretro;
pub mod media;
pub mod media_rules;
pub mod mock_core;
pub mod packet_rules;
pub mod paths;
pub mod peers;
pub mod protocol;
pub mod registry;
pub mod screen_rules;
pub mod server;
pub mod server_rules;
pub mod session;
pub mod snapshot;
pub mod stream_rules;
pub mod streaming;
pub mod table;
pub mod text;
pub mod text_rules;
pub mod web;
pub mod wire;
pub mod ws;
pub mod x11;
