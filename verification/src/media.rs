//! Which encoder turns pictures and sound into streams, and what its pipeline
//! looks like.

use vstd::prelude::*;

use crate::text;

verus! {

#[derive(Debug, Clone, Copy, PartialEq, Eq, Structural)]
pub enum MediaBackend {
    Gstreamer,
}

impl MediaBackend {
    pub const ENV_VAR: &'static str = "NOSEBLEED_MEDIA_BACKEND";

    /// The backend that `raw` names, in any case and with white space around it.
    pub fn parse(raw: &str) -> (backend: Result<Self, String>)
        ensures
            match backend {
                Ok(b) => b == MediaBackend::Gstreamer && (text::folded(raw@) == "gstreamer"@
                    || text::folded(raw@) == "gst"@),
                Err(why) => text::folded(raw@) != "gstreamer"@ && text::folded(raw@) != "gst"@
                    && why@ == "unsupported media backend '"@ + text::folded(raw@)
                    + "' (expected gstreamer)"@,
            },
    {
        let folded = text::fold(raw);
        if text::same_text(folded.as_str(), "gstreamer") || text::same_text(
            folded.as_str(),
            "gst",
        ) {
            Ok(MediaBackend::Gstreamer)
        } else {
            let mut why = "unsupported media backend '".to_owned();
            why.append(folded.as_str());
            why.append("' (expected gstreamer)");
            Err(why)
        }
    }

    pub fn as_str(self) -> (name: &'static str)
        ensures
            name@ == "gstreamer"@,
    {
        "gstreamer"
    }
}

impl Default for MediaBackend {
    fn default() -> (backend: Self)
        ensures
            backend == MediaBackend::Gstreamer,
    {
        MediaBackend::Gstreamer
    }
}

#[derive(Debug, Clone, Copy, PartialEq, Eq, Structural)]
pub enum VideoCodec {
    H264,
    Vp8,
    Vp9,
    Av1,
}

pub open spec fn codec_name(codec: VideoCodec) -> Seq<char> {
    match codec {
        VideoCodec::H264 => "h264"@,
        VideoCodec::Vp8 => "vp8"@,
        VideoCodec::Vp9 => "vp9"@,
        VideoCodec::Av1 => "av1"@,
    }
}

impl VideoCodec {
    pub fn as_str(self) -> (name: &'static str)
        ensures
            name@ == codec_name(self),
    {
        match self {
            VideoCodec::H264 => "h264",
            VideoCodec::Vp8 => "vp8",
            VideoCodec::Vp9 => "vp9",
            VideoCodec::Av1 => "av1",
        }
    }
}

#[derive(Debug, Clone, Copy, PartialEq, Eq, Structural)]
pub enum VideoEncoderSelection {
    Auto,
    Software,
    Nvenc,
    Qsv,
    Vaapi,
    V4l2,
    X264,
    Vp8,
}

pub open spec fn selection_name(selection: VideoEncoderSelection) -> Seq<char> {
    match selection {
        VideoEncoderSelection::Auto => "auto"@,
        VideoEncoderSelection::Software => "software"@,
        VideoEncoderSelection::Nvenc => "nvenc"@,
        VideoEncoderSelection::Qsv => "qsv"@,
        VideoEncoderSelection::Vaapi => "vaapi"@,
        VideoEncoderSelection::V4l2 => "v4l2"@,
        VideoEncoderSelection::X264 => "x264"@,
        VideoEncoderSelection::Vp8 => "vp8"@,
    }
}

/// The selection whose name the text is.
pub open spec fn selection_named(name: Seq<char>) -> Option<VideoEncoderSelection> {
    if name == "auto"@ {
        Some(VideoEncoderSelection::Auto)
    } else if name == "software"@ {
        Some(VideoEncoderSelection::Software)
    } else if name == "nvenc"@ {
        Some(VideoEncoderSelection::Nvenc)
    } else if name == "qsv"@ {
        Some(VideoEncoderSelection::Qsv)
    } else if name == "vaapi"@ {
        Some(VideoEncoderSelection::Vaapi)
    } else if name == "v4l2"@ {
        Some(VideoEncoderSelection::V4l2)
    } else if name == "x264"@ {
        Some(VideoEncoderSelection::X264)
    } else if name == "vp8"@ {
        Some(VideoEncoderSelection::Vp8)
    } else {
        None
    }
}

pub open spec fn unknown_encoder(raw: Seq<char>) -> Seq<char> {
    "unsupported video encoder '"@ + text::folded(raw) + "'"@
}

impl VideoEncoderSelection {
    /// The selection that `raw` names, in any case and with white space around
    /// it.
    pub fn parse(raw: &str) -> (selection: Result<Self, String>)
        ensures
            match selection {
                Ok(s) => selection_named(text::folded(raw@)) == Some(s),
                Err(why) => selection_named(text::folded(raw@)) is None && why@ == unknown_encoder(
                    raw@,
                ),
            },
    {
        let folded = text::fold(raw);
        let name = folded.as_str();
        if text::same_text(name, "auto") {
            Ok(VideoEncoderSelection::Auto)
        } else if text::same_text(name, "software") {
            Ok(VideoEncoderSelection::Software)
        } else if text::same_text(name, "nvenc") {
            Ok(VideoEncoderSelection::Nvenc)
        } else if text::same_text(name, "qsv") {
            Ok(VideoEncoderSelection::Qsv)
        } else if text::same_text(name, "vaapi") {
            Ok(VideoEncoderSelection::Vaapi)
        } else if text::same_text(name, "v4l2") {
            Ok(VideoEncoderSelection::V4l2)
        } else if text::same_text(name, "x264") {
            Ok(VideoEncoderSelection::X264)
        } else if text::same_text(name, "vp8") {
            Ok(VideoEncoderSelection::Vp8)
        } else {
            let mut why = "unsupported video encoder '".to_owned();
            why.append(name);
            why.append("'");
            Err(why)
        }
    }

    pub fn as_str(self) -> (name: &'static str)
        ensures
            name@ == selection_name(self),
    {
        match self {
            VideoEncoderSelection::Auto => "auto",
            VideoEncoderSelection::Software => "software",
            VideoEncoderSelection::Nvenc => "nvenc",
            VideoEncoderSelection::Qsv => "qsv",
            VideoEncoderSelection::Vaapi => "vaapi",
            VideoEncoderSelection::V4l2 => "v4l2",
            VideoEncoderSelection::X264 => "x264",
            VideoEncoderSelection::Vp8 => "vp8",
        }
    }

    pub fn is_hardware(self) -> (hardware: bool)
        ensures
            hardware == selects_hardware(self),
    {
        match self {
            VideoEncoderSelection::Nvenc => true,
            VideoEncoderSelection::Qsv => true,
            VideoEncoderSelection::Vaapi => true,
            VideoEncoderSelection::V4l2 => true,
            _ => false,
        }
    }
}

/// Whether a selection asks for an encoder in hardware.
pub open spec fn selects_hardware(selection: VideoEncoderSelection) -> bool {
    selection == VideoEncoderSelection::Nvenc || selection == VideoEncoderSelection::Qsv
        || selection == VideoEncoderSelection::Vaapi || selection == VideoEncoderSelection::V4l2
}

/// A selection's name names that selection.
pub proof fn law_selection_names(selection: VideoEncoderSelection)
    ensures
        selection_named(selection_name(selection)) == Some(selection),
{
    reveal_strlit("auto");
    reveal_strlit("software");
    reveal_strlit("nvenc");
    reveal_strlit("qsv");
    reveal_strlit("vaapi");
    reveal_strlit("v4l2");
    reveal_strlit("x264");
    reveal_strlit("vp8");
    assert("auto"@[0] == 'a' && "software"@[0] == 's' && "nvenc"@[0] == 'n' && "qsv"@[0] == 'q'
        && "vaapi"@[0] == 'v' && "vaapi"@[1] == 'a' && "v4l2"@[0] == 'v' && "v4l2"@[1] == '4'
        && "x264"@[0] == 'x' && "vp8"@[0] == 'v' && "vp8"@[1] == 'p');
}

#[derive(Debug, Clone, Copy)]
pub struct VideoEncoderConfig {
    pub codec: VideoCodec,
    pub encoder: VideoEncoderSelection,
    pub bitrate_kbps: u32,
    pub keyframe_interval: u32,
    pub low_latency: bool,
}

pub open spec fn default_encoder_config() -> VideoEncoderConfig {
    VideoEncoderConfig {
        codec: VideoCodec::H264,
        encoder: VideoEncoderSelection::Auto,
        bitrate_kbps: 2500,
        keyframe_interval: 60,
        low_latency: true,
    }
}

impl Default for VideoEncoderConfig {
    fn default() -> (config: Self)
        ensures
            config == default_encoder_config(),
    {
        VideoEncoderConfig {
            codec: VideoCodec::H264,
            encoder: VideoEncoderSelection::Auto,
            bitrate_kbps: 2500,
            keyframe_interval: 60,
            low_latency: true,
        }
    }
}

/// What the environment says of video encoding.
#[derive(Debug, Clone)]
pub struct VideoEnv {
    pub codec: Option<String>,
    pub encoder: Option<String>,
    pub bitrate_kbps: Option<String>,
    pub keyframe_interval: Option<String>,
    pub low_latency: Option<String>,
}

pub open spec fn str_view(t: Option<&str>) -> Option<Seq<char>> {
    match t {
        Some(s) => Some(s@),
        None => None,
    }
}

/// The first of two texts that is there.
pub open spec fn first_text(a: Option<Seq<char>>, b: Option<String>) -> Option<Seq<char>> {
    match a {
        Some(t) => Some(t),
        None => match b {
            Some(t) => Some(t@),
            None => None,
        },
    }
}

fn first_of(a: Option<&str>, b: &Option<String>) -> (t: Option<String>)
    ensures
        match t {
            Some(found) => first_text(str_view(a), *b) == Some(found@),
            None => first_text(str_view(a), *b) is None,
        },
{
    match a {
        Some(t) => Some(t.to_owned()),
        None => match b {
            Some(t) => Some(t.clone()),
            None => None,
        },
    }
}

/// The codec that a text names, if it is one: `auto` leaves the default.
pub open spec fn codec_named(name: Seq<char>) -> Option<VideoCodec> {
    if name == "h264"@ {
        Some(VideoCodec::H264)
    } else if name == "vp8"@ {
        Some(VideoCodec::Vp8)
    } else if name == "vp9"@ {
        Some(VideoCodec::Vp9)
    } else if name == "av1"@ {
        Some(VideoCodec::Av1)
    } else if name == "auto"@ {
        Some(VideoCodec::H264)
    } else {
        None
    }
}

pub open spec fn chosen_codec(raw: Option<Seq<char>>) -> Option<VideoCodec> {
    match raw {
        Some(t) => codec_named(text::folded(t)),
        None => Some(VideoCodec::H264),
    }
}

pub open spec fn chosen_selection(raw: Option<Seq<char>>) -> Option<VideoEncoderSelection> {
    match raw {
        Some(t) => selection_named(text::folded(t)),
        None => Some(VideoEncoderSelection::Auto),
    }
}

/// The number that a text gives, the default where it gives none, and at least
/// `least`; the default where there is no text.
pub open spec fn chosen_number(raw: Option<String>, default: u32, least: u32) -> u32 {
    match raw {
        Some(t) => {
            let n = match text::number32(t@) {
                Some(given) => given,
                None => default,
            };
            if n < least {
                least
            } else {
                n
            }
        },
        None => default,
    }
}

/// Whether a text turns something off.
pub open spec fn turns_off(raw: Seq<char>) -> bool {
    let t = text::folded(raw);
    t == "0"@ || t == "false"@ || t == "no"@ || t == "off"@
}

fn pick_number(raw: &Option<String>, default: u32, least: u32) -> (n: u32)
    ensures
        n == chosen_number(*raw, default, least),
{
    match raw {
        Some(t) => {
            let n: u32 = match text::parse_u32(t.as_str()) {
                Some(given) => given,
                None => default,
            };
            if n < least {
                least
            } else {
                n
            }
        },
        None => default,
    }
}

fn says_off(raw: &str) -> (off: bool)
    ensures
        off == turns_off(raw@),
{
    let folded = text::fold(raw);
    let t = folded.as_str();
    text::same_text(t, "0") || text::same_text(t, "false") || text::same_text(t, "no")
        || text::same_text(t, "off")
}

/// What the environment and the overrides ask for: an override goes before the
/// environment, and that before the default.
pub open spec fn encoder_config_of(
    codec_override: Option<Seq<char>>,
    encoder_override: Option<Seq<char>>,
    env: VideoEnv,
) -> Result<VideoEncoderConfig, Seq<char>> {
    let codec_raw = first_text(codec_override, env.codec);
    let encoder_raw = first_text(encoder_override, env.encoder);
    if chosen_codec(codec_raw) is None {
        Err("unsupported video codec '"@ + text::folded(codec_raw->0) + "'"@)
    } else if chosen_selection(encoder_raw) is None {
        Err(unknown_encoder(encoder_raw->0))
    } else {
        Ok(
            VideoEncoderConfig {
                codec: chosen_codec(codec_raw)->0,
                encoder: chosen_selection(encoder_raw)->0,
                bitrate_kbps: chosen_number(env.bitrate_kbps, 2500, 100),
                keyframe_interval: chosen_number(env.keyframe_interval, 60, 1),
                low_latency: match env.low_latency {
                    Some(t) => !turns_off(t@),
                    None => true,
                },
            },
        )
    }
}

impl VideoEncoderConfig {
    pub const CODEC_ENV: &'static str = "NOSEBLEED_VIDEO_CODEC";

    pub const ENCODER_ENV: &'static str = "NOSEBLEED_VIDEO_ENCODER";

    pub const BITRATE_ENV: &'static str = "NOSEBLEED_VIDEO_BITRATE_KBPS";

    pub const KEYFRAME_ENV: &'static str = "NOSEBLEED_VIDEO_KEYFRAME_INTERVAL";

    pub const LOW_LATENCY_ENV: &'static str = "NOSEBLEED_VIDEO_LOW_LATENCY";

    pub fn from_env(
        codec_override: Option<&str>,
        encoder_override: Option<&str>,
        env: &VideoEnv,
    ) -> (config: Result<Self, String>)
        ensures
            ({
                let asked = encoder_config_of(
                    str_view(codec_override),
                    str_view(encoder_override),
                    *env,
                );
                match config {
                    Ok(c) => asked == Ok::<VideoEncoderConfig, Seq<char>>(c),
                    Err(why) => asked == Err::<VideoEncoderConfig, Seq<char>>(why@),
                }
            }),
    {
        let mut config = VideoEncoderConfig {
            codec: VideoCodec::H264,
            encoder: VideoEncoderSelection::Auto,
            bitrate_kbps: 2500,
            keyframe_interval: 60,
            low_latency: true,
        };
        if let Some(raw) = first_of(codec_override, &env.codec) {
            let folded = text::fold(raw.as_str());
            let name = folded.as_str();
            if text::same_text(name, "h264") {
                config.codec = VideoCodec::H264;
            } else if text::same_text(name, "vp8") {
                config.codec = VideoCodec::Vp8;
            } else if text::same_text(name, "vp9") {
                config.codec = VideoCodec::Vp9;
            } else if text::same_text(name, "av1") {
                config.codec = VideoCodec::Av1;
            } else if !text::same_text(name, "auto") {
                let mut why = "unsupported video codec '".to_owned();
                why.append(name);
                why.append("'");
                return Err(why);
            }
        }
        if let Some(raw) = first_of(encoder_override, &env.encoder) {
            match VideoEncoderSelection::parse(raw.as_str()) {
                Ok(encoder) => {
                    config.encoder = encoder;
                },
                Err(why) => return Err(why),
            }
        }
        config.bitrate_kbps = pick_number(&env.bitrate_kbps, 2500, 100);
        config.keyframe_interval = pick_number(&env.keyframe_interval, 60, 1);
        if let Some(raw) = &env.low_latency {
            config.low_latency = !says_off(raw.as_str());
        }
        Ok(config)
    }
}

/// An encoder that may be there, and why not.
#[derive(Debug, Clone)]
pub struct EncoderCandidate {
    pub element: &'static str,
    pub codec: &'static str,
    pub hardware: bool,
    pub usable: bool,
    pub skip_reason: Option<String>,
}

#[verifier::ext_equal]
pub struct CandidateModel {
    pub element: Seq<char>,
    pub codec: Seq<char>,
    pub hardware: bool,
    pub usable: bool,
    pub skip_reason: Option<Seq<char>>,
}

impl View for EncoderCandidate {
    type V = CandidateModel;

    open spec fn view(&self) -> CandidateModel {
        CandidateModel {
            element: self.element@,
            codec: self.codec@,
            hardware: self.hardware,
            usable: self.usable,
            skip_reason: match self.skip_reason {
                Some(why) => Some(why@),
                None => None,
            },
        }
    }
}

pub open spec fn candidates_view(list: Seq<EncoderCandidate>) -> Seq<CandidateModel> {
    Seq::new(list.len(), |i: int| list[i]@)
}

#[derive(Debug, Clone, Copy)]
pub struct MediaConfig {
    pub selected_backend: MediaBackend,
    pub video_encoder: VideoEncoderConfig,
}

/// The backend's name that counts: the command line's, else the environment's,
/// else the file's.
pub open spec fn backend_text(
    cli: Option<Seq<char>>,
    env: Option<Seq<char>>,
    file: Option<Seq<char>>,
) -> Option<Seq<char>> {
    match cli {
        Some(t) => Some(t),
        None => match env {
            Some(t) => Some(t),
            None => file,
        },
    }
}

/// Whether the name is one of a backend; none at all is the default.
pub open spec fn backend_known(name: Option<Seq<char>>) -> bool {
    name is Some ==> text::folded(name->0) == "gstreamer"@ || text::folded(name->0) == "gst"@
}

/// What a backend's name and a wish for an encoder come to: an unknown name is
/// what is wrong first.
pub open spec fn media_outcome(
    name: Option<Seq<char>>,
    encoder: Result<VideoEncoderConfig, Seq<char>>,
    config: Result<MediaConfig, String>,
) -> bool {
    match config {
        Ok(c) => {
            &&& backend_known(name)
            &&& c.selected_backend == MediaBackend::Gstreamer
            &&& encoder == Ok::<VideoEncoderConfig, Seq<char>>(c.video_encoder)
        },
        Err(why) => if !backend_known(name) {
            why@ == "unsupported media backend '"@ + text::folded(name->0)
                + "' (expected gstreamer)"@
        } else {
            encoder == Err::<VideoEncoderConfig, Seq<char>>(why@)
        },
    }
}

impl MediaConfig {
    pub fn from_sources(
        cli_backend: Option<&str>,
        env_backend: Option<&str>,
        file_backend: Option<&str>,
        codec_override: Option<&str>,
        encoder_override: Option<&str>,
        env: &VideoEnv,
    ) -> (config: Result<Self, String>)
        ensures
            media_outcome(
                backend_text(
                    str_view(cli_backend),
                    str_view(env_backend),
                    str_view(file_backend),
                ),
                encoder_config_of(str_view(codec_override), str_view(encoder_override), *env),
                config,
            ),
    {
        let raw = match cli_backend {
            Some(t) => Some(t),
            None => match env_backend {
                Some(t) => Some(t),
                None => file_backend,
            },
        };
        let selected_backend = match raw {
            Some(t) => match MediaBackend::parse(t) {
                Ok(backend) => backend,
                Err(why) => return Err(why),
            },
            None => MediaBackend::Gstreamer,
        };
        match VideoEncoderConfig::from_env(codec_override, encoder_override, env) {
            Ok(video_encoder) => Ok(MediaConfig { selected_backend, video_encoder }),
            Err(why) => Err(why),
        }
    }
}

/// How the streams are doing.
#[derive(Debug, Clone, PartialEq, Eq)]
pub struct MediaRuntimeStatus {
    pub backend: &'static str,
    pub transport: &'static str,
    pub video_codec: Option<&'static str>,
    pub video_encoder: Option<&'static str>,
    pub audio_codec: Option<&'static str>,
    pub audio_encoder: Option<&'static str>,
    pub video_pipeline: Option<String>,
    pub audio_pipeline: Option<String>,
    pub pipeline_state: &'static str,
    pub dropped_video_frames: u64,
}

/// A status before anything runs.
pub open spec fn inactive(status: MediaRuntimeStatus) -> bool {
    &&& status.backend@ == "gstreamer"@
    &&& status.transport@ == "media-tracks"@
    &&& status.video_codec is None
    &&& status.video_encoder is None
    &&& status.audio_codec is None
    &&& status.audio_encoder is None
    &&& status.video_pipeline is None
    &&& status.audio_pipeline is None
    &&& status.pipeline_state@ == "inactive"@
    &&& status.dropped_video_frames == 0
}

impl Default for MediaRuntimeStatus {
    fn default() -> (status: Self)
        ensures
            inactive(status),
    {
        MediaRuntimeStatus {
            backend: "gstreamer",
            transport: "media-tracks",
            video_codec: None,
            video_encoder: None,
            audio_codec: None,
            audio_encoder: None,
            video_pipeline: None,
            audio_pipeline: None,
            pipeline_state: "inactive",
            dropped_video_frames: 0,
        }
    }
}

/// The encoders that a pipeline can be built for, the preferred ones first.
#[derive(Debug, Clone, Copy, PartialEq, Eq, Structural)]
pub enum Encoder {
    Nvenc,
    Qsv,
    Vaapi,
    V4l2,
    X264,
    Vp8,
}

pub open spec fn element_name(encoder: Encoder) -> Seq<char> {
    match encoder {
        Encoder::Nvenc => "nvh264enc"@,
        Encoder::Qsv => "qsvh264enc"@,
        Encoder::Vaapi => "vaapih264enc"@,
        Encoder::V4l2 => "v4l2h264enc"@,
        Encoder::X264 => "x264enc"@,
        Encoder::Vp8 => "vp8enc"@,
    }
}

pub open spec fn element_codec(encoder: Encoder) -> Seq<char> {
    match encoder {
        Encoder::Vp8 => "vp8"@,
        _ => "h264"@,
    }
}

pub open spec fn in_hardware(encoder: Encoder) -> bool {
    match encoder {
        Encoder::X264 => false,
        Encoder::Vp8 => false,
        _ => true,
    }
}

pub open spec fn missing_text(encoder: Encoder) -> Seq<char> {
    match encoder {
        Encoder::Nvenc => "nvh264enc (NVIDIA NVENC) not installed"@,
        Encoder::Qsv => "qsvh264enc (Intel Quick Sync) not installed"@,
        Encoder::Vaapi => "vaapih264enc (VA-API) not installed"@,
        Encoder::V4l2 => "v4l2h264enc (V4L2) not installed"@,
        Encoder::X264 => "x264enc (software H.264) not installed"@,
        Encoder::Vp8 => "vp8enc (software VP8) not installed"@,
    }
}

/// The encoders in the order in which they are preferred.
pub open spec fn preference() -> Seq<Encoder> {
    seq![
        Encoder::Nvenc,
        Encoder::Qsv,
        Encoder::Vaapi,
        Encoder::V4l2,
        Encoder::X264,
        Encoder::Vp8,
    ]
}

impl Encoder {
    pub fn element(self) -> (name: &'static str)
        ensures
            name@ == element_name(self),
    {
        match self {
            Encoder::Nvenc => "nvh264enc",
            Encoder::Qsv => "qsvh264enc",
            Encoder::Vaapi => "vaapih264enc",
            Encoder::V4l2 => "v4l2h264enc",
            Encoder::X264 => "x264enc",
            Encoder::Vp8 => "vp8enc",
        }
    }

    pub fn codec(self) -> (name: &'static str)
        ensures
            name@ == element_codec(self),
    {
        match self {
            Encoder::Vp8 => "vp8",
            _ => "h264",
        }
    }

    pub fn hardware(self) -> (hardware: bool)
        ensures
            hardware == in_hardware(self),
    {
        match self {
            Encoder::X264 => false,
            Encoder::Vp8 => false,
            _ => true,
        }
    }

    fn missing(self) -> (why: &'static str)
        ensures
            why@ == missing_text(self),
    {
        match self {
            Encoder::Nvenc => "nvh264enc (NVIDIA NVENC) not installed",
            Encoder::Qsv => "qsvh264enc (Intel Quick Sync) not installed",
            Encoder::Vaapi => "vaapih264enc (VA-API) not installed",
            Encoder::V4l2 => "v4l2h264enc (V4L2) not installed",
            Encoder::X264 => "x264enc (software H.264) not installed",
            Encoder::Vp8 => "vp8enc (software VP8) not installed",
        }
    }
}

/// What a stream's pipelines are.
#[derive(Debug, Clone, PartialEq, Eq)]
pub struct GstreamerPipelineSpec {
    pub video_codec: &'static str,
    pub video_encoder: &'static str,
    pub hardware: bool,
    pub audio_codec: &'static str,
    pub audio_encoder: &'static str,
    pub video_pipeline: String,
    pub audio_pipeline: String,
}

#[verifier::ext_equal]
pub struct PipelineModel {
    pub video_codec: Seq<char>,
    pub video_encoder: Seq<char>,
    pub hardware: bool,
    pub audio_codec: Seq<char>,
    pub audio_encoder: Seq<char>,
    pub video_pipeline: Seq<char>,
    pub audio_pipeline: Seq<char>,
}

impl View for GstreamerPipelineSpec {
    type V = PipelineModel;

    open spec fn view(&self) -> PipelineModel {
        PipelineModel {
            video_codec: self.video_codec@,
            video_encoder: self.video_encoder@,
            hardware: self.hardware,
            audio_codec: self.audio_codec@,
            audio_encoder: self.audio_encoder@,
            video_pipeline: self.video_pipeline@,
            audio_pipeline: self.audio_pipeline@,
        }
    }
}

pub const VIDEO_SOURCE: &'static str =
    "appsrc name=video_src is-live=true format=time do-timestamp=true ! queue leaky=downstream max-size-buffers=2 max-size-bytes=0 max-size-time=0 ! videoconvert ! videoscale ! video/x-raw,pixel-aspect-ratio=1/1 ! ";

pub const H264_SINK: &'static str =
    " ! h264parse config-interval=-1 ! rtph264pay config-interval=-1 pt=96 ! appsink name=video_sink sync=false async=false drop=true max-buffers=8 emit-signals=true";

pub const VP8_STAGE: &'static str =
    "vp8enc deadline=1 cpu-used=8 error-resilient=partitions keyframe-max-dist=60 threads=4 ! rtpvp8pay pt=96 picture-id-mode=15-bit ! appsink name=video_sink sync=false async=false drop=true max-buffers=8 emit-signals=true";

pub const OPUS_PIPELINE: &'static str =
    "appsrc name=audio_src is-live=true format=time do-timestamp=true ! queue leaky=downstream max-size-buffers=0 max-size-bytes=0 max-size-time=500000000 ! audioconvert ! audioresample ! opusenc audio-type=restricted-lowdelay frame-size=20 bitrate=64000 inband-fec=true packet-loss-percentage=10 ! rtpopuspay pt=111 ! queue leaky=downstream max-size-buffers=0 max-size-bytes=0 max-size-time=400000000 ! appsink name=audio_sink sync=false async=false drop=true max-buffers=64 emit-signals=true";

/// The stage of a pipeline that encodes: the element and its settings.
pub open spec fn encoder_stage(encoder: Encoder, bitrate_kbps: u32, keyframe_interval: u32) -> Seq<
    char,
> {
    let br = text::decimal(bitrate_kbps as nat);
    let kf = text::decimal(keyframe_interval as nat);
    match encoder {
        Encoder::Nvenc => "nvh264enc bframes=0 rc-lookahead=0 gop-size="@ + kf + " bitrate="@ + br
            + " preset=low-latency-hq"@,
        Encoder::Qsv => "qsvh264enc b-frames=0 gop-size="@ + kf + " bitrate="@ + br,
        Encoder::Vaapi => "vaapih264enc bitrate="@ + br + " keyframe-period="@ + kf
            + " rate-control=cbr"@,
        Encoder::V4l2 => "v4l2h264enc extra-controls=\"encode,bitrate="@ + text::decimal(
            (bitrate_kbps * 1000) as nat,
        ) + ",h26x_minimum_qp_value=10\""@,
        Encoder::X264 => "x264enc tune=zerolatency speed-preset=ultrafast bframes=0 key-int-max="@
            + kf + " bitrate="@ + br + " ! video/x-h264,profile=baseline"@,
        Encoder::Vp8 => VP8_STAGE@,
    }
}

/// The pipelines for an encoder.
pub open spec fn pipeline_of(encoder: Encoder, bitrate_kbps: u32, keyframe_interval: u32) -> PipelineModel {
    let stage = encoder_stage(encoder, bitrate_kbps, keyframe_interval);
    PipelineModel {
        video_codec: element_codec(encoder),
        video_encoder: element_name(encoder),
        hardware: in_hardware(encoder),
        audio_codec: "opus"@,
        audio_encoder: "opusenc"@,
        video_pipeline: if encoder == Encoder::Vp8 {
            VIDEO_SOURCE@ + stage
        } else {
            VIDEO_SOURCE@ + stage + H264_SINK@
        },
        audio_pipeline: OPUS_PIPELINE@,
    }
}

fn pipeline_spec(encoder: Encoder, stage: String) -> (spec: GstreamerPipelineSpec)
    ensures
        forall|br: u32, kf: u32| stage@ == #[trigger] encoder_stage(encoder, br, kf) ==> spec@
            == pipeline_of(encoder, br, kf),
{
    let mut video_pipeline = VIDEO_SOURCE.to_owned();
    video_pipeline.append(stage.as_str());
    match encoder {
        Encoder::Vp8 => {},
        _ => {
            video_pipeline.append(H264_SINK);
        },
    }
    GstreamerPipelineSpec {
        video_codec: encoder.codec(),
        video_encoder: encoder.element(),
        hardware: encoder.hardware(),
        audio_codec: "opus",
        audio_encoder: "opusenc",
        video_pipeline,
        audio_pipeline: GstreamerPipelineSpec::opus_audio_pipeline(),
    }
}

impl GstreamerPipelineSpec {
    pub fn vp8_opus_software() -> (spec: Self)
        ensures
            forall|br: u32, kf: u32| spec@ == #[trigger] pipeline_of(Encoder::Vp8, br, kf),
    {
        let stage = VP8_STAGE.to_owned();
        let spec = pipeline_spec(Encoder::Vp8, stage);
        assert forall|br: u32, kf: u32| spec@ == #[trigger] pipeline_of(Encoder::Vp8, br, kf) by {
            assert(stage@ == encoder_stage(Encoder::Vp8, br, kf));
        }
        spec
    }

    pub fn h264_nvenc(bitrate_kbps: u32, keyframe_interval: u32) -> (spec: Self)
        ensures
            spec@ == pipeline_of(Encoder::Nvenc, bitrate_kbps, keyframe_interval),
    {
        let mut stage = "nvh264enc bframes=0 rc-lookahead=0 gop-size=".to_owned();
        text::push_decimal(&mut stage, keyframe_interval as u64);
        stage.append(" bitrate=");
        text::push_decimal(&mut stage, bitrate_kbps as u64);
        stage.append(" preset=low-latency-hq");
        assert(stage@ == encoder_stage(Encoder::Nvenc, bitrate_kbps, keyframe_interval));
        pipeline_spec(Encoder::Nvenc, stage)
    }

    pub fn h264_qsv(bitrate_kbps: u32, keyframe_interval: u32) -> (spec: Self)
        ensures
            spec@ == pipeline_of(Encoder::Qsv, bitrate_kbps, keyframe_interval),
    {
        let mut stage = "qsvh264enc b-frames=0 gop-size=".to_owned();
        text::push_decimal(&mut stage, keyframe_interval as u64);
        stage.append(" bitrate=");
        text::push_decimal(&mut stage, bitrate_kbps as u64);
        assert(stage@ == encoder_stage(Encoder::Qsv, bitrate_kbps, keyframe_interval));
        pipeline_spec(Encoder::Qsv, stage)
    }

    pub fn h264_vaapi(bitrate_kbps: u32, keyframe_interval: u32) -> (spec: Self)
        ensures
            spec@ == pipeline_of(Encoder::Vaapi, bitrate_kbps, keyframe_interval),
    {
        let mut stage = "vaapih264enc bitrate=".to_owned();
        text::push_decimal(&mut stage, bitrate_kbps as u64);
        stage.append(" keyframe-period=");
        text::push_decimal(&mut stage, keyframe_interval as u64);
        stage.append(" rate-control=cbr");
        assert(stage@ == encoder_stage(Encoder::Vaapi, bitrate_kbps, keyframe_interval));
        pipeline_spec(Encoder::Vaapi, stage)
    }

    pub fn h264_v4l2(bitrate_kbps: u32, _keyframe_interval: u32) -> (spec: Self)
        ensures
            spec@ == pipeline_of(Encoder::V4l2, bitrate_kbps, _keyframe_interval),
    {
        let mut stage = "v4l2h264enc extra-controls=\"encode,bitrate=".to_owned();
        text::push_decimal(&mut stage, bitrate_kbps as u64 * 1000);
        stage.append(",h26x_minimum_qp_value=10\"");
        assert(stage@ == encoder_stage(Encoder::V4l2, bitrate_kbps, _keyframe_interval));
        pipeline_spec(Encoder::V4l2, stage)
    }

    pub fn h264_x264_software(bitrate_kbps: u32, keyframe_interval: u32) -> (spec: Self)
        ensures
            spec@ == pipeline_of(Encoder::X264, bitrate_kbps, keyframe_interval),
    {
        let mut stage =
            "x264enc tune=zerolatency speed-preset=ultrafast bframes=0 key-int-max=".to_owned();
        text::push_decimal(&mut stage, keyframe_interval as u64);
        stage.append(" bitrate=");
        text::push_decimal(&mut stage, bitrate_kbps as u64);
        stage.append(" ! video/x-h264,profile=baseline");
        assert(stage@ == encoder_stage(Encoder::X264, bitrate_kbps, keyframe_interval));
        pipeline_spec(Encoder::X264, stage)
    }

    fn opus_audio_pipeline() -> (pipeline: String)
        ensures
            pipeline@ == OPUS_PIPELINE@,
    {
        OPUS_PIPELINE.to_owned()
    }
}

/// Which elements the media framework has.
#[derive(Debug, Clone, Copy)]
pub struct GstreamerElements {
    pub appsrc: bool,
    pub webrtcbin: bool,
    pub opusenc: bool,
    pub rtpopuspay: bool,
    pub vp8enc: bool,
    pub x264enc: bool,
    pub nvh264enc: bool,
    pub qsvh264enc: bool,
    pub vaapih264enc: bool,
    pub v4l2h264enc: bool,
}

pub open spec fn no_elements() -> GstreamerElements {
    GstreamerElements {
        appsrc: false,
        webrtcbin: false,
        opusenc: false,
        rtpopuspay: false,
        vp8enc: false,
        x264enc: false,
        nvh264enc: false,
        qsvh264enc: false,
        vaapih264enc: false,
        v4l2h264enc: false,
    }
}

pub open spec fn has_encoder(elements: GstreamerElements, encoder: Encoder) -> bool {
    match encoder {
        Encoder::Nvenc => elements.nvh264enc,
        Encoder::Qsv => elements.qsvh264enc,
        Encoder::Vaapi => elements.vaapih264enc,
        Encoder::V4l2 => elements.v4l2h264enc,
        Encoder::X264 => elements.x264enc,
        Encoder::Vp8 => elements.vp8enc,
    }
}

impl GstreamerElements {
    pub fn all_false() -> (elements: Self)
        ensures
            elements == no_elements(),
    {
        GstreamerElements {
            appsrc: false,
            webrtcbin: false,
            opusenc: false,
            rtpopuspay: false,
            vp8enc: false,
            x264enc: false,
            nvh264enc: false,
            qsvh264enc: false,
            vaapih264enc: false,
            v4l2h264enc: false,
        }
    }

    pub fn has(&self, encoder: Encoder) -> (there: bool)
        ensures
            there == has_encoder(*self, encoder),
    {
        match encoder {
            Encoder::Nvenc => self.nvh264enc,
            Encoder::Qsv => self.qsvh264enc,
            Encoder::Vaapi => self.vaapih264enc,
            Encoder::V4l2 => self.v4l2h264enc,
            Encoder::X264 => self.x264enc,
            Encoder::Vp8 => self.vp8enc,
        }
    }
}

pub open spec fn candidate_of(encoder: Encoder, elements: GstreamerElements) -> CandidateModel {
    CandidateModel {
        element: element_name(encoder),
        codec: element_codec(encoder),
        hardware: in_hardware(encoder),
        usable: has_encoder(elements, encoder),
        skip_reason: if has_encoder(elements, encoder) {
            None
        } else {
            Some(missing_text(encoder))
        },
    }
}

/// All encoders in the order of preference, each with whether it is there.
pub open spec fn candidates_of(elements: GstreamerElements) -> Seq<CandidateModel> {
    Seq::new(preference().len(), |i: int| candidate_of(preference()[i], elements))
}

fn candidate(encoder: Encoder, elements: &GstreamerElements) -> (c: EncoderCandidate)
    ensures
        c@ == candidate_of(encoder, *elements),
{
    let usable: bool = elements.has(encoder);
    EncoderCandidate {
        element: encoder.element(),
        codec: encoder.codec(),
        hardware: encoder.hardware(),
        usable,
        skip_reason: if usable {
            None
        } else {
            Some(encoder.missing().to_owned())
        },
    }
}

pub fn build_candidates(elements: &GstreamerElements) -> (list: Vec<EncoderCandidate>)
    ensures
        candidates_view(list@) == candidates_of(*elements),
{
    let mut list: Vec<EncoderCandidate> = Vec::new();
    list.push(candidate(Encoder::Nvenc, elements));
    list.push(candidate(Encoder::Qsv, elements));
    list.push(candidate(Encoder::Vaapi, elements));
    list.push(candidate(Encoder::V4l2, elements));
    list.push(candidate(Encoder::X264, elements));
    list.push(candidate(Encoder::Vp8, elements));
    assert(candidates_view(list@) =~= candidates_of(*elements));
    list
}

/// The pipelines for an encoder, with the settings of the configuration.
pub fn build_pipeline(encoder: Encoder, config: &VideoEncoderConfig) -> (spec: GstreamerPipelineSpec)
    ensures
        spec@ == pipeline_of(encoder, config.bitrate_kbps, config.keyframe_interval),
{
    let br: u32 = config.bitrate_kbps;
    let kf: u32 = config.keyframe_interval;
    match encoder {
        Encoder::Nvenc => GstreamerPipelineSpec::h264_nvenc(br, kf),
        Encoder::Qsv => GstreamerPipelineSpec::h264_qsv(br, kf),
        Encoder::Vaapi => GstreamerPipelineSpec::h264_vaapi(br, kf),
        Encoder::V4l2 => GstreamerPipelineSpec::h264_v4l2(br, kf),
        Encoder::X264 => GstreamerPipelineSpec::h264_x264_software(br, kf),
        Encoder::Vp8 => GstreamerPipelineSpec::vp8_opus_software(),
    }
}

/// The encoder that was chosen, and why.
#[derive(Debug, Clone)]
pub struct SelectedEncoder {
    pub spec: GstreamerPipelineSpec,
    pub candidates: Vec<EncoderCandidate>,
    pub selection_reason: String,
}

#[verifier::ext_equal]
pub struct SelectionModel {
    pub spec: PipelineModel,
    pub candidates: Seq<CandidateModel>,
    pub selection_reason: Seq<char>,
}

impl View for SelectedEncoder {
    type V = SelectionModel;

    open spec fn view(&self) -> SelectionModel {
        SelectionModel {
            spec: self.spec@,
            candidates: candidates_view(self.candidates@),
            selection_reason: self.selection_reason@,
        }
    }
}

/// The encoder that a selection asks for: `software` takes x264 where it is
/// there, `auto` asks for none.
pub open spec fn requested(selection: VideoEncoderSelection, elements: GstreamerElements) -> Option<
    Encoder,
> {
    match selection {
        VideoEncoderSelection::Auto => None,
        VideoEncoderSelection::Software => if elements.x264enc {
            Some(Encoder::X264)
        } else {
            Some(Encoder::Vp8)
        },
        VideoEncoderSelection::Nvenc => Some(Encoder::Nvenc),
        VideoEncoderSelection::Qsv => Some(Encoder::Qsv),
        VideoEncoderSelection::Vaapi => Some(Encoder::Vaapi),
        VideoEncoderSelection::V4l2 => Some(Encoder::V4l2),
        VideoEncoderSelection::X264 => Some(Encoder::X264),
        VideoEncoderSelection::Vp8 => Some(Encoder::Vp8),
    }
}

/// Whether an encoder can be chosen by itself: it is there, and where the codec
/// is to be VP8 it is one for VP8.
pub open spec fn eligible(encoder: Encoder, codec: VideoCodec, elements: GstreamerElements) -> bool {
    has_encoder(elements, encoder) && (codec == VideoCodec::Vp8 ==> encoder == Encoder::Vp8)
}

/// The first eligible encoder in the order of preference.
pub open spec fn preferred(codec: VideoCodec, elements: GstreamerElements) -> Option<Encoder> {
    if eligible(Encoder::Nvenc, codec, elements) {
        Some(Encoder::Nvenc)
    } else if eligible(Encoder::Qsv, codec, elements) {
        Some(Encoder::Qsv)
    } else if eligible(Encoder::Vaapi, codec, elements) {
        Some(Encoder::Vaapi)
    } else if eligible(Encoder::V4l2, codec, elements) {
        Some(Encoder::V4l2)
    } else if eligible(Encoder::X264, codec, elements) {
        Some(Encoder::X264)
    } else if eligible(Encoder::Vp8, codec, elements) {
        Some(Encoder::Vp8)
    } else {
        None
    }
}

/// The first `n` encoders of the preference that are there, quoted and with
/// commas between them.
pub open spec fn usable_list(elements: GstreamerElements, n: int) -> Seq<char>
    decreases n,
{
    if n <= 0 {
        Seq::empty()
    } else {
        let front = usable_list(elements, n - 1);
        let encoder = preference()[n - 1];
        if !has_encoder(elements, encoder) {
            front
        } else if front.len() == 0 {
            "\""@ + element_name(encoder) + "\""@
        } else {
            front + ", \""@ + element_name(encoder) + "\""@
        }
    }
}

/// What is chosen for a configuration on a host with these elements, or why
/// nothing is.
pub open spec fn selection_of(config: VideoEncoderConfig, elements: GstreamerElements) -> Result<
    SelectionModel,
    Seq<char>,
> {
    let br = config.bitrate_kbps;
    let kf = config.keyframe_interval;
    match requested(config.encoder, elements) {
        Some(encoder) => if has_encoder(elements, encoder) {
            Ok(
                SelectionModel {
                    spec: pipeline_of(encoder, br, kf),
                    candidates: candidates_of(elements),
                    selection_reason: "explicit encoder override: "@ + element_name(encoder),
                },
            )
        } else {
            Err(
                "encoder '"@ + element_name(encoder)
                    + "' requested but GStreamer element not found on this host"@,
            )
        },
        None => match preferred(config.codec, elements) {
            Some(encoder) => Ok(
                SelectionModel {
                    spec: pipeline_of(encoder, br, kf),
                    candidates: candidates_of(elements),
                    selection_reason: (if in_hardware(encoder) {
                        "auto-detected hardware encoder: "@
                    } else {
                        "auto-detected software encoder: "@
                    }) + element_name(encoder),
                },
            ),
            None => Err(
                "no usable video encoder found; available elements: ["@ + usable_list(elements, 6)
                    + "]"@,
            ),
        },
    }
}

pub open spec fn selection_answer(answer: Result<SelectedEncoder, String>) -> Result<
    SelectionModel,
    Seq<char>,
> {
    match answer {
        Ok(selected) => Ok(selected@),
        Err(why) => Err(why@),
    }
}

fn encoder_at(i: usize) -> (encoder: Encoder)
    requires
        i < 6,
    ensures
        encoder == preference()[i as int],
{
    match i {
        0 => Encoder::Nvenc,
        1 => Encoder::Qsv,
        2 => Encoder::Vaapi,
        3 => Encoder::V4l2,
        4 => Encoder::X264,
        _ => Encoder::Vp8,
    }
}

fn usable_text(elements: &GstreamerElements) -> (t: String)
    ensures
        t@ == usable_list(*elements, 6),
{
    let mut t = String::new();
    let mut empty: bool = true;
    let mut i: usize = 0;
    proof {
        reveal_strlit("\"");
        reveal_strlit(", \"");
    }
    while i < 6
        invariant
            i <= 6,
            t@ == usable_list(*elements, i as int),
            empty == (t@.len() == 0),
            "\""@.len() == 1,
            ", \""@.len() == 3,
        decreases 6 - i,
    {
        let encoder = encoder_at(i);
        if elements.has(encoder) {
            if empty {
                t = "\"".to_owned();
            } else {
                t.append(", \"");
            }
            t.append(encoder.element());
            t.append("\"");
            empty = false;
        }
        i += 1;
    }
    t
}

/// Chooses an encoder for a configuration on a host with these elements.
pub fn select_encoder(config: &VideoEncoderConfig, elements: &GstreamerElements) -> (selected: Result<
    SelectedEncoder,
    String,
>)
    ensures
        selection_answer(selected) == selection_of(*config, *elements),
{
    let candidates = build_candidates(elements);
    let explicit = match config.encoder {
        VideoEncoderSelection::Auto => None,
        VideoEncoderSelection::Software => if elements.x264enc {
            Some(Encoder::X264)
        } else {
            Some(Encoder::Vp8)
        },
        VideoEncoderSelection::Nvenc => Some(Encoder::Nvenc),
        VideoEncoderSelection::Qsv => Some(Encoder::Qsv),
        VideoEncoderSelection::Vaapi => Some(Encoder::Vaapi),
        VideoEncoderSelection::V4l2 => Some(Encoder::V4l2),
        VideoEncoderSelection::X264 => Some(Encoder::X264),
        VideoEncoderSelection::Vp8 => Some(Encoder::Vp8),
    };
    if let Some(encoder) = explicit {
        if !elements.has(encoder) {
            let mut why = "encoder '".to_owned();
            why.append(encoder.element());
            why.append("' requested but GStreamer element not found on this host");
            return Err(why);
        }
        let spec = build_pipeline(encoder, config);
        let mut selection_reason = "explicit encoder override: ".to_owned();
        selection_reason.append(encoder.element());
        return Ok(SelectedEncoder { spec, candidates, selection_reason });
    }
    let mut i: usize = 0;
    while i < 6
        invariant
            i <= 6,
            config.encoder == VideoEncoderSelection::Auto,
            candidates_view(candidates@) == candidates_of(*elements),
            forall|j: int|
                0 <= j < i ==> !eligible(#[trigger] preference()[j], config.codec, *elements),
        decreases 6 - i,
    {
        let encoder = encoder_at(i);
        let skipped: bool = config.codec == VideoCodec::Vp8 && encoder != Encoder::Vp8;
        if !skipped && elements.has(encoder) {
            proof {
                assert(preference()[0] == Encoder::Nvenc);
                assert(preference()[1] == Encoder::Qsv);
                assert(preference()[2] == Encoder::Vaapi);
                assert(preference()[3] == Encoder::V4l2);
                assert(preference()[4] == Encoder::X264);
                assert(preference()[5] == Encoder::Vp8);
                assert(preferred(config.codec, *elements) == Some(encoder));
            }
            let spec = build_pipeline(encoder, config);
            let mut selection_reason = if encoder.hardware() {
                "auto-detected hardware encoder: ".to_owned()
            } else {
                "auto-detected software encoder: ".to_owned()
            };
            selection_reason.append(encoder.element());
            return Ok(SelectedEncoder { spec, candidates, selection_reason });
        }
        i += 1;
    }
    proof {
        assert(preference()[0] == Encoder::Nvenc);
        assert(preference()[1] == Encoder::Qsv);
        assert(preference()[2] == Encoder::Vaapi);
        assert(preference()[3] == Encoder::V4l2);
        assert(preference()[4] == Encoder::X264);
        assert(preference()[5] == Encoder::Vp8);
    }
    let mut why = "no usable video encoder found; available elements: [".to_owned();
    why.append(usable_text(elements).as_str());
    why.append("]");
    Err(why)
}

/// Whether the media framework can be used, and what it has.
#[derive(Debug, Clone)]
pub struct GstreamerCapabilities {
    pub compiled_in: bool,
    pub available_for_runtime: bool,
    pub init_ok: bool,
    pub version: Option<String>,
    pub missing_reason: Option<String>,
    pub elements: GstreamerElements,
}

/// What starting the media framework gave: its version and elements.
#[derive(Debug, Clone)]
pub struct GstreamerProbe {
    pub version: String,
    pub elements: GstreamerElements,
}

/// What a host can do as far as looking it over has shown.
pub open spec fn probed(
    probe: Result<GstreamerProbe, String>,
    capabilities: GstreamerCapabilities,
) -> bool {
    &&& capabilities.compiled_in
    &&& match probe {
        Ok(found) => capabilities.available_for_runtime && capabilities.init_ok
            && capabilities.version == Some(found.version) && capabilities.missing_reason is None
            && capabilities.elements == found.elements,
        Err(why) => !capabilities.available_for_runtime && !capabilities.init_ok
            && capabilities.version is None && capabilities.missing_reason == Some(why)
            && capabilities.elements == no_elements(),
    }
}

/// The capabilities of a host, from how the start of its media framework went.
pub fn detect_gstreamer_capabilities(probe: Result<GstreamerProbe, String>) -> (capabilities:
    GstreamerCapabilities)
    ensures
        probed(probe, capabilities),
{
    match probe {
        Ok(found) => GstreamerCapabilities {
            compiled_in: true,
            available_for_runtime: true,
            init_ok: true,
            version: Some(found.version),
            missing_reason: None,
            elements: found.elements,
        },
        Err(why) => GstreamerCapabilities {
            compiled_in: true,
            available_for_runtime: false,
            init_ok: false,
            version: None,
            missing_reason: Some(why),
            elements: GstreamerElements::all_false(),
        },
    }
}

#[derive(Debug, Clone)]
pub struct EncoderReport {
    pub selected: Option<EncoderCandidate>,
    pub candidates: Vec<EncoderCandidate>,
    pub selection_reason: Option<String>,
}

#[derive(Debug, Clone)]
pub struct MediaCapabilities {
    pub selected_backend: MediaBackend,
    pub gstreamer: GstreamerCapabilities,
    pub runtime: MediaRuntimeStatus,
    pub encoders: EncoderReport,
}

/// The report on encoders that a configuration gives on a host: nothing without
/// the framework, else all candidates, the chosen one, and why it or none was
/// chosen.
pub open spec fn reports(
    report: EncoderReport,
    config: VideoEncoderConfig,
    gstreamer: GstreamerCapabilities,
) -> bool {
    if !gstreamer.available_for_runtime {
        &&& report.selected is None
        &&& report.candidates@.len() == 0
        &&& report.selection_reason is None
    } else {
        &&& candidates_view(report.candidates@) == candidates_of(gstreamer.elements)
        &&& report.selection_reason is Some
        &&& match selection_of(config, gstreamer.elements) {
            Ok(chosen) => {
                &&& report.selected is Some
                &&& report.selected->0@ == (CandidateModel {
                    element: chosen.spec.video_encoder,
                    codec: chosen.spec.video_codec,
                    hardware: chosen.spec.hardware,
                    usable: true,
                    skip_reason: None,
                })
                &&& report.selection_reason->0@ == chosen.selection_reason
            },
            Err(why) => report.selected is None && report.selection_reason->0@ == why,
        }
    }
}

impl MediaCapabilities {
    /// What a configuration comes to on a host with these capabilities.
    pub fn detect(config: &MediaConfig, gstreamer: GstreamerCapabilities) -> (capabilities: Self)
        ensures
            capabilities.selected_backend == config.selected_backend,
            capabilities.gstreamer == gstreamer,
            inactive(capabilities.runtime),
            reports(capabilities.encoders, config.video_encoder, gstreamer),
    {
        let encoders = if gstreamer.available_for_runtime {
            let candidates = build_candidates(&gstreamer.elements);
            match select_encoder(&config.video_encoder, &gstreamer.elements) {
                Ok(chosen) => EncoderReport {
                    selected: Some(
                        EncoderCandidate {
                            element: chosen.spec.video_encoder,
                            codec: chosen.spec.video_codec,
                            hardware: chosen.spec.hardware,
                            usable: true,
                            skip_reason: None,
                        },
                    ),
                    candidates,
                    selection_reason: Some(chosen.selection_reason),
                },
                Err(why) => EncoderReport {
                    selected: None,
                    candidates,
                    selection_reason: Some(why),
                },
            }
        } else {
            EncoderReport { selected: None, candidates: Vec::new(), selection_reason: None }
        };
        let runtime = MediaRuntimeStatus {
            backend: config.selected_backend.as_str(),
            transport: "media-tracks",
            video_codec: None,
            video_encoder: None,
            audio_codec: None,
            audio_encoder: None,
            video_pipeline: None,
            audio_pipeline: None,
            pipeline_state: "inactive",
            dropped_video_frames: 0,
        };
        MediaCapabilities {
            selected_backend: config.selected_backend,
            gstreamer,
            runtime,
            encoders,
        }
    }
}

/// Hardware goes before software: with the codec left open, a software encoder
/// is chosen by itself only where no hardware encoder is there.
pub proof fn law_hardware_first(config: VideoEncoderConfig, elements: GstreamerElements, encoder: Encoder)
    requires
        config.codec != VideoCodec::Vp8,
        preferred(config.codec, elements) == Some(encoder),
        !in_hardware(encoder),
    ensures
        !elements.nvh264enc && !elements.qsvh264enc && !elements.vaapih264enc
            && !elements.v4l2h264enc,
{
}

/// A chosen encoder is there, whichever way it was chosen.
pub proof fn law_chosen_is_there(config: VideoEncoderConfig, elements: GstreamerElements)
    requires
        selection_of(config, elements) is Ok,
    ensures
        exists|encoder: Encoder| #[trigger]
            has_encoder(elements, encoder) && selection_of(config, elements)->Ok_0.spec
                == pipeline_of(encoder, config.bitrate_kbps, config.keyframe_interval),
{
    match requested(config.encoder, elements) {
        Some(encoder) => assert(has_encoder(elements, encoder)),
        None => assert(has_encoder(elements, preferred(config.codec, elements)->0)),
    }
}

} // verus!
