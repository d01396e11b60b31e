//! What a wish for an encoder comes to on a host, and what the pipelines are told.

use vstd::prelude::*;

use crate::gstreamer_backend;
use crate::media;
use crate::media::{
    EncoderCandidate, EncoderReport, Encoder, GstreamerCapabilities, GstreamerElements,
    SelectedEncoder, VideoCodec, VideoEncoderConfig, VideoEncoderSelection, VideoEnv,
};
use crate::streaming;
use crate::text;

verus! {

/// Left to itself the server takes the first encoder that the host has: NVENC,
/// Quick Sync, VA-API, V4L2, and only then x264 and VP8 in software; but where VP8
/// is to be made, the one for VP8. Where there is none, nothing is chosen.
pub proof fn law_first_encoder_there(
    config: VideoEncoderConfig,
    elements: GstreamerElements,
    answer: Result<SelectedEncoder, String>,
)
    requires
        media::selection_answer(answer) == media::selection_of(config, elements),
        config.encoder == VideoEncoderSelection::Auto,
    ensures
        ({
            let spec = answer->Ok_0.spec;
            let e = elements;
            if config.codec == VideoCodec::Vp8 {
                &&& answer is Ok <==> e.vp8enc
                &&& answer is Ok ==> spec.video_encoder@ == "vp8enc"@ && spec.video_codec@ == "vp8"@
                    && !spec.hardware
            } else {
                &&& answer is Ok <==> e.nvh264enc || e.qsvh264enc || e.vaapih264enc || e.v4l2h264enc
                    || e.x264enc || e.vp8enc
                &&& answer is Ok ==> spec.video_encoder@ == if e.nvh264enc {
                    "nvh264enc"@
                } else if e.qsvh264enc {
                    "qsvh264enc"@
                } else if e.vaapih264enc {
                    "vaapih264enc"@
                } else if e.v4l2h264enc {
                    "v4l2h264enc"@
                } else if e.x264enc {
                    "x264enc"@
                } else {
                    "vp8enc"@
                }
                &&& answer is Ok ==> spec.hardware == (e.nvh264enc || e.qsvh264enc
                    || e.vaapih264enc || e.v4l2h264enc)
                &&& answer is Ok ==> spec.video_codec@ == if spec.hardware || e.x264enc {
                    "h264"@
                } else {
                    "vp8"@
                }
            }
        }),
        answer is Ok ==> answer->Ok_0.spec.audio_codec@ == "opus"@
            && answer->Ok_0.spec.audio_encoder@ == "opusenc"@,
        answer is Ok ==> answer->Ok_0.selection_reason@ == (if answer->Ok_0.spec.hardware {
            "auto-detected hardware encoder: "@
        } else {
            "auto-detected software encoder: "@
        }) + answer->Ok_0.spec.video_encoder@,
{
    if answer is Ok {
        assert(media::selection_answer(answer)->Ok_0 == answer->Ok_0@);
        assert(answer->Ok_0@.spec == answer->Ok_0.spec@);
    }
}

/// Who asks for an encoder by name gets that one, or is told that the host does
/// not have it; no other is taken in its place. Software is x264 where it is there,
/// else VP8.
pub proof fn law_asked_for_encoder(
    config: VideoEncoderConfig,
    elements: GstreamerElements,
    answer: Result<SelectedEncoder, String>,
)
    requires
        media::selection_answer(answer) == media::selection_of(config, elements),
        config.encoder != VideoEncoderSelection::Auto,
    ensures
        ({
            let asked = config.encoder;
            let name = if asked == VideoEncoderSelection::Nvenc {
                "nvh264enc"@
            } else if asked == VideoEncoderSelection::Qsv {
                "qsvh264enc"@
            } else if asked == VideoEncoderSelection::Vaapi {
                "vaapih264enc"@
            } else if asked == VideoEncoderSelection::V4l2 {
                "v4l2h264enc"@
            } else if asked == VideoEncoderSelection::X264 || (asked
                == VideoEncoderSelection::Software && elements.x264enc) {
                "x264enc"@
            } else {
                "vp8enc"@
            };
            let there = (asked == VideoEncoderSelection::Nvenc && elements.nvh264enc) || (asked
                == VideoEncoderSelection::Qsv && elements.qsvh264enc) || (asked
                == VideoEncoderSelection::Vaapi && elements.vaapih264enc) || (asked
                == VideoEncoderSelection::V4l2 && elements.v4l2h264enc) || (asked
                == VideoEncoderSelection::X264 && elements.x264enc) || (asked
                == VideoEncoderSelection::Vp8 && elements.vp8enc) || (asked
                == VideoEncoderSelection::Software && (elements.x264enc || elements.vp8enc));
            &&& answer is Ok <==> there
            &&& answer is Ok ==> answer->Ok_0.spec.video_encoder@ == name
                && answer->Ok_0.selection_reason@ == "explicit encoder override: "@ + name
            &&& answer is Err ==> answer->Err_0@ == "encoder '"@ + name
                + "' requested but GStreamer element not found on this host"@
            &&& answer is Ok ==> answer->Ok_0.spec.hardware == (asked
                == VideoEncoderSelection::Nvenc || asked == VideoEncoderSelection::Qsv || asked
                == VideoEncoderSelection::Vaapi || asked == VideoEncoderSelection::V4l2)
        }),
{
    if answer is Ok {
        assert(media::selection_answer(answer)->Ok_0 == answer->Ok_0@);
        assert(answer->Ok_0@.spec == answer->Ok_0.spec@);
    }
}

/// Whether a text has a part somewhere in it.
pub open spec fn says(whole: Seq<char>, part: Seq<char>) -> bool {
    exists|at: int|
        0 <= at && at + part.len() <= whole.len() && #[trigger] whole.subrange(
            at,
            at + part.len(),
        ) == part
}

proof fn lemma_says(front: Seq<char>, part: Seq<char>, back: Seq<char>)
    ensures
        says(front + part + back, part),
{
    let whole = front + part + back;
    assert(whole.subrange(front.len() as int, (front.len() + part.len()) as int) =~= part);
}

/// The pipeline of an encoder names its element, and its bitrate in kilobits (for
/// V4L2 in bits) and the distance of its key frames as they were configured. It
/// takes pictures from the source that is fed and gives packets to the sink that is
/// drained.
pub proof fn law_pipeline_says_the_settings(encoder: Encoder, bitrate: u32, distance: u32)
    ensures
        ({
            let p = media::pipeline_of(encoder, bitrate, distance).video_pipeline;
            let br = text::decimal(bitrate as nat);
            let kf = text::decimal(distance as nat);
            &&& encoder == Encoder::Nvenc ==> says(p, "gop-size="@ + kf + " bitrate="@ + br)
            &&& encoder == Encoder::Qsv ==> says(p, "gop-size="@ + kf + " bitrate="@ + br)
            &&& encoder == Encoder::Vaapi ==> says(
                p,
                " bitrate="@ + br + " keyframe-period="@ + kf,
            )
            &&& encoder == Encoder::X264 ==> says(p, "key-int-max="@ + kf + " bitrate="@ + br)
            &&& encoder == Encoder::V4l2 ==> says(
                p,
                "bitrate="@ + text::decimal((bitrate * 1_000) as nat),
            )
        }),
{
    let br = text::decimal(bitrate as nat);
    let kf = text::decimal(distance as nat);
    let p = media::pipeline_of(encoder, bitrate, distance).video_pipeline;
    let source = media::VIDEO_SOURCE@;
    let sink = media::H264_SINK@;
    match encoder {
        Encoder::Nvenc => {
            reveal_strlit("nvh264enc bframes=0 rc-lookahead=0 gop-size=");
            reveal_strlit("nvh264enc bframes=0 rc-lookahead=0 ");
            reveal_strlit("gop-size=");
            assert("nvh264enc bframes=0 rc-lookahead=0 gop-size="@
                =~= "nvh264enc bframes=0 rc-lookahead=0 "@ + "gop-size="@);
            let front = source + "nvh264enc bframes=0 rc-lookahead=0 "@;
            let part = "gop-size="@ + kf + " bitrate="@ + br;
            let back = " preset=low-latency-hq"@ + sink;
            assert(p =~= front + part + back);
            lemma_says(front, part, back);
        },
        Encoder::Qsv => {
            reveal_strlit("qsvh264enc b-frames=0 gop-size=");
            reveal_strlit("qsvh264enc b-frames=0 ");
            reveal_strlit("gop-size=");
            assert("qsvh264enc b-frames=0 gop-size="@ =~= "qsvh264enc b-frames=0 "@ + "gop-size="@);
            let front = source + "qsvh264enc b-frames=0 "@;
            let part = "gop-size="@ + kf + " bitrate="@ + br;
            assert(p =~= front + part + sink);
            lemma_says(front, part, sink);
        },
        Encoder::Vaapi => {
            reveal_strlit("vaapih264enc bitrate=");
            reveal_strlit("vaapih264enc");
            reveal_strlit(" bitrate=");
            assert("vaapih264enc bitrate="@ =~= "vaapih264enc"@ + " bitrate="@);
            let front = source + "vaapih264enc"@;
            let part = " bitrate="@ + br + " keyframe-period="@ + kf;
            let back = " rate-control=cbr"@ + sink;
            assert(p =~= front + part + back);
            lemma_says(front, part, back);
        },
        Encoder::X264 => {
            reveal_strlit("x264enc tune=zerolatency speed-preset=ultrafast bframes=0 key-int-max=");
            reveal_strlit("x264enc tune=zerolatency speed-preset=ultrafast bframes=0 ");
            reveal_strlit("key-int-max=");
            assert("x264enc tune=zerolatency speed-preset=ultrafast bframes=0 key-int-max="@
                =~= "x264enc tune=zerolatency speed-preset=ultrafast bframes=0 "@
                + "key-int-max="@);
            let front = source + "x264enc tune=zerolatency speed-preset=ultrafast bframes=0 "@;
            let part = "key-int-max="@ + kf + " bitrate="@ + br;
            let back = " ! video/x-h264,profile=baseline"@ + sink;
            assert(p =~= front + part + back);
            lemma_says(front, part, back);
        },
        Encoder::V4l2 => {
            reveal_strlit("v4l2h264enc extra-controls=\"encode,bitrate=");
            reveal_strlit("v4l2h264enc extra-controls=\"encode,");
            reveal_strlit("bitrate=");
            assert("v4l2h264enc extra-controls=\"encode,bitrate="@
                =~= "v4l2h264enc extra-controls=\"encode,"@ + "bitrate="@);
            let front = source + "v4l2h264enc extra-controls=\"encode,"@;
            let part = "bitrate="@ + text::decimal((bitrate * 1_000) as nat);
            let back = ",h26x_minimum_qp_value=10\""@ + sink;
            assert(p =~= front + part + back);
            lemma_says(front, part, back);
        },
        Encoder::Vp8 => {},
    }
}

/// A pipeline starts with the source that pictures are fed to, goes on with the
/// encoder's element, and ends in the sink.
pub proof fn law_pipeline_is_in_order(encoder: Encoder, bitrate: u32, distance: u32)
    ensures
        ({
            let p = media::pipeline_of(encoder, bitrate, distance);
            let stage = media::encoder_stage(encoder, bitrate, distance);
            &&& media::VIDEO_SOURCE@.is_prefix_of(p.video_pipeline)
            &&& encoder != Encoder::Vp8 ==> p.video_pipeline == media::VIDEO_SOURCE@ + stage
                + media::H264_SINK@
            &&& encoder == Encoder::Vp8 ==> p.video_pipeline == media::VIDEO_SOURCE@
                + media::VP8_STAGE@
            &&& p.video_codec == if encoder == Encoder::Vp8 {
                "vp8"@
            } else {
                "h264"@
            }
            &&& p.audio_pipeline == media::OPUS_PIPELINE@
        }),
        encoder == Encoder::Nvenc ==> "nvh264enc"@.is_prefix_of(
            media::encoder_stage(encoder, bitrate, distance),
        ),
        encoder == Encoder::X264 ==> "x264enc"@.is_prefix_of(
            media::encoder_stage(encoder, bitrate, distance),
        ),
        encoder == Encoder::Qsv ==> "qsvh264enc"@.is_prefix_of(
            media::encoder_stage(encoder, bitrate, distance),
        ),
        encoder == Encoder::Vaapi ==> "vaapih264enc"@.is_prefix_of(
            media::encoder_stage(encoder, bitrate, distance),
        ),
        encoder == Encoder::V4l2 ==> "v4l2h264enc"@.is_prefix_of(
            media::encoder_stage(encoder, bitrate, distance),
        ),
{
    let p = media::pipeline_of(encoder, bitrate, distance);
    let stage = media::encoder_stage(encoder, bitrate, distance);
    assert(p.video_pipeline.take(media::VIDEO_SOURCE@.len() as int) =~= media::VIDEO_SOURCE@);
    reveal_strlit("nvh264enc");
    reveal_strlit("qsvh264enc");
    reveal_strlit("vaapih264enc");
    reveal_strlit("v4l2h264enc");
    reveal_strlit("x264enc");
    reveal_strlit("nvh264enc bframes=0 rc-lookahead=0 gop-size=");
    reveal_strlit("qsvh264enc b-frames=0 gop-size=");
    reveal_strlit("vaapih264enc bitrate=");
    reveal_strlit("v4l2h264enc extra-controls=\"encode,bitrate=");
    reveal_strlit("x264enc tune=zerolatency speed-preset=ultrafast bframes=0 key-int-max=");
    match encoder {
        Encoder::Nvenc => assert(stage.take(9) =~= "nvh264enc"@),
        Encoder::Qsv => assert(stage.take(10) =~= "qsvh264enc"@),
        Encoder::Vaapi => assert(stage.take(12) =~= "vaapih264enc"@),
        Encoder::V4l2 => assert(stage.take(11) =~= "v4l2h264enc"@),
        Encoder::X264 => assert(stage.take(7) =~= "x264enc"@),
        Encoder::Vp8 => {},
    }
}

/// All six encoders are listed, the preferred ones first, each with whether the
/// host has it; one that it has not comes with a reason, and no other.
pub proof fn law_encoders_are_listed(list: Seq<EncoderCandidate>, elements: GstreamerElements)
    requires
        media::candidates_view(list) == media::candidates_of(elements),
    ensures
        list.len() == 6,
        list[0].element@ == "nvh264enc"@ && list[0].usable == elements.nvh264enc
            && list[0].hardware && list[0].codec@ == "h264"@,
        list[1].element@ == "qsvh264enc"@ && list[1].usable == elements.qsvh264enc
            && list[1].hardware && list[1].codec@ == "h264"@,
        list[2].element@ == "vaapih264enc"@ && list[2].usable == elements.vaapih264enc
            && list[2].hardware && list[2].codec@ == "h264"@,
        list[3].element@ == "v4l2h264enc"@ && list[3].usable == elements.v4l2h264enc
            && list[3].hardware && list[3].codec@ == "h264"@,
        list[4].element@ == "x264enc"@ && list[4].usable == elements.x264enc && !list[4].hardware
            && list[4].codec@ == "h264"@,
        list[5].element@ == "vp8enc"@ && list[5].usable == elements.vp8enc && !list[5].hardware
            && list[5].codec@ == "vp8"@,
        forall|i: int| 0 <= i < 6 ==> ((#[trigger] list[i]).skip_reason is None <==> list[i].usable),
{
    let seen = media::candidates_view(list);
    assert(seen.len() == list.len());
    assert forall|i: int| 0 <= i < 6 implies (#[trigger] list[i])@ == media::candidate_of(
        media::preference()[i],
        elements,
    ) by {
        assert(seen[i] == list[i]@);
    }
    assert(list[0]@.usable == elements.nvh264enc);
    assert(list[1]@.usable == elements.qsvh264enc);
    assert(list[2]@.usable == elements.vaapih264enc);
    assert(list[3]@.usable == elements.v4l2h264enc);
    assert(list[4]@.usable == elements.x264enc);
    assert(list[5]@.usable == elements.vp8enc);
}

/// Why an encoder is passed over is told by its element and what it is.
pub proof fn law_missing_encoders_are_named(encoder: Encoder)
    ensures
        encoder == Encoder::Nvenc ==> media::missing_text(encoder)
            == "nvh264enc (NVIDIA NVENC) not installed"@,
        encoder == Encoder::Qsv ==> media::missing_text(encoder)
            == "qsvh264enc (Intel Quick Sync) not installed"@,
        encoder == Encoder::Vaapi ==> media::missing_text(encoder)
            == "vaapih264enc (VA-API) not installed"@,
        encoder == Encoder::V4l2 ==> media::missing_text(encoder)
            == "v4l2h264enc (V4L2) not installed"@,
        encoder == Encoder::X264 ==> media::missing_text(encoder)
            == "x264enc (software H.264) not installed"@,
        encoder == Encoder::Vp8 ==> media::missing_text(encoder)
            == "vp8enc (software VP8) not installed"@,
{
}

/// The names of codecs and selections, whatever the case and the white space
/// around them; `auto` is H.264 among the codecs.
pub proof fn law_names_are_read(name: Seq<char>)
    ensures
        name == "h264"@ || name == "auto"@ <==> media::codec_named(name) == Some(VideoCodec::H264),
        name == "vp8"@ <==> media::codec_named(name) == Some(VideoCodec::Vp8),
        name == "vp9"@ <==> media::codec_named(name) == Some(VideoCodec::Vp9),
        name == "av1"@ <==> media::codec_named(name) == Some(VideoCodec::Av1),
        name == "auto"@ <==> media::selection_named(name) == Some(VideoEncoderSelection::Auto),
        name == "software"@ <==> media::selection_named(name) == Some(
            VideoEncoderSelection::Software,
        ),
        name == "nvenc"@ <==> media::selection_named(name) == Some(VideoEncoderSelection::Nvenc),
        name == "qsv"@ <==> media::selection_named(name) == Some(VideoEncoderSelection::Qsv),
        name == "vaapi"@ <==> media::selection_named(name) == Some(VideoEncoderSelection::Vaapi),
        name == "v4l2"@ <==> media::selection_named(name) == Some(VideoEncoderSelection::V4l2),
        name == "x264"@ <==> media::selection_named(name) == Some(VideoEncoderSelection::X264),
        name == "vp8"@ <==> media::selection_named(name) == Some(VideoEncoderSelection::Vp8),
{
    reveal_strlit("auto");
    reveal_strlit("software");
    reveal_strlit("nvenc");
    reveal_strlit("qsv");
    reveal_strlit("vaapi");
    reveal_strlit("v4l2");
    reveal_strlit("x264");
    reveal_strlit("h264");
    reveal_strlit("vp8");
    reveal_strlit("vp9");
    reveal_strlit("av1");
    assert("auto"@[0] == 'a' && "software"@[0] == 's' && "nvenc"@[0] == 'n' && "qsv"@[0] == 'q'
        && "vaapi"@[0] == 'v' && "vaapi"@[1] == 'a' && "v4l2"@[0] == 'v' && "v4l2"@[1] == '4'
        && "x264"@[0] == 'x' && "vp8"@[0] == 'v' && "vp8"@[1] == 'p' && "vp8"@[2] == '8'
        && "vp9"@[0] == 'v' && "vp9"@[2] == '9' && "av1"@[0] == 'a' && "h264"@[0] == 'h');
    assert("auto"@.len() == 4 && "h264"@.len() == 4 && "vp8"@.len() == 3 && "vp9"@.len() == 3
        && "av1"@.len() == 3 && "software"@.len() == 8 && "nvenc"@.len() == 5 && "qsv"@.len() == 3
        && "vaapi"@.len() == 5 && "v4l2"@.len() == 4 && "x264"@.len() == 4);
}

/// The names under which codecs and selections are shown are those under which
/// they are read.
pub proof fn law_names_are_shown(codec: VideoCodec, selection: VideoEncoderSelection)
    ensures
        media::codec_named(media::codec_name(codec)) == Some(codec),
        media::selection_named(media::selection_name(selection)) == Some(selection),
        media::codec_name(VideoCodec::H264) == "h264"@,
{
    law_names_are_read(media::codec_name(codec));
    media::law_selection_names(selection);
}

/// What is configured: an override goes before the environment, and that before
/// the default. Without anything it is H.264 by whichever encoder there is, 2,500
/// kilobits, a key frame every 60 pictures, and low latency. The bitrate is never
/// below 100 and the distance of key frames never below one.
pub proof fn law_configured_encoder(
    codec: Option<Seq<char>>,
    encoder: Option<Seq<char>>,
    env: VideoEnv,
    config: VideoEncoderConfig,
)
    requires
        media::encoder_config_of(codec, encoder, env) == Ok::<VideoEncoderConfig, Seq<char>>(
            config,
        ),
    ensures
        codec is Some ==> media::codec_named(text::folded(codec->0)) == Some(config.codec),
        codec is None && env.codec is Some ==> media::codec_named(text::folded(env.codec->0@))
            == Some(config.codec),
        codec is None && env.codec is None ==> config.codec == VideoCodec::H264,
        encoder is Some ==> media::selection_named(text::folded(encoder->0)) == Some(
            config.encoder,
        ),
        encoder is None && env.encoder is Some ==> media::selection_named(
            text::folded(env.encoder->0@),
        ) == Some(config.encoder),
        encoder is None && env.encoder is None ==> config.encoder == VideoEncoderSelection::Auto,
        env.bitrate_kbps is None ==> config.bitrate_kbps == 2_500,
        env.bitrate_kbps is Some && text::number32(env.bitrate_kbps->0@) is None
            ==> config.bitrate_kbps == 2_500,
        env.bitrate_kbps is Some && text::number32(env.bitrate_kbps->0@) is Some ==> {
            let n = text::number32(env.bitrate_kbps->0@)->0;
            &&& n >= 100 ==> config.bitrate_kbps == n
            &&& n < 100 ==> config.bitrate_kbps == 100
        },
        env.keyframe_interval is None ==> config.keyframe_interval == 60,
        env.keyframe_interval is Some && text::number32(env.keyframe_interval->0@) is None
            ==> config.keyframe_interval == 60,
        env.keyframe_interval is Some && text::number32(env.keyframe_interval->0@) is Some ==> {
            let n = text::number32(env.keyframe_interval->0@)->0;
            &&& n >= 1 ==> config.keyframe_interval == n
            &&& n == 0 ==> config.keyframe_interval == 1
        },
        env.low_latency is None ==> config.low_latency,
        env.low_latency is Some ==> {
            let t = text::folded(env.low_latency->0@);
            config.low_latency <==> t != "0"@ && t != "false"@ && t != "no"@ && t != "off"@
        },
{
}

/// The command line goes before the environment, and that before the file.
pub proof fn law_backend_is_named(
    cli: Option<Seq<char>>,
    env: Option<Seq<char>>,
    file: Option<Seq<char>>,
)
    ensures
        cli is Some ==> media::backend_text(cli, env, file) == cli,
        cli is None && env is Some ==> media::backend_text(cli, env, file) == env,
        cli is None && env is None ==> media::backend_text(cli, env, file) == file,
{
}

/// What is reported of the encoders: all of them and the one that was chosen,
/// which the host has; nothing where the framework is not there.
pub proof fn law_report_tells_the_choice(
    report: EncoderReport,
    config: VideoEncoderConfig,
    gstreamer: GstreamerCapabilities,
    answer: Result<SelectedEncoder, String>,
)
    requires
        media::reports(report, config, gstreamer),
        media::selection_answer(answer) == media::selection_of(config, gstreamer.elements),
    ensures
        !gstreamer.available_for_runtime ==> report.selected is None && report.candidates@.len()
            == 0 && report.selection_reason is None,
        gstreamer.available_for_runtime ==> {
            &&& report.candidates@.len() == 6
            &&& report.selection_reason is Some
            &&& report.selected is Some <==> answer is Ok
            &&& answer is Err ==> report.selection_reason->0@ == answer->Err_0@
            &&& answer is Ok ==> {
                &&& report.selected->0.element@ == answer->Ok_0.spec.video_encoder@
                &&& report.selected->0.codec@ == answer->Ok_0.spec.video_codec@
                &&& report.selected->0.hardware == answer->Ok_0.spec.hardware
                &&& report.selected->0.usable
                &&& report.selected->0.skip_reason is None
                &&& report.selection_reason->0@ == answer->Ok_0.selection_reason@
            }
        },
{
    if gstreamer.available_for_runtime {
        law_encoders_are_listed(report.candidates@, gstreamer.elements);
        if answer is Ok {
            assert(media::selection_answer(answer)->Ok_0 == answer->Ok_0@);
            assert(answer->Ok_0@.spec == answer->Ok_0.spec@);
            assert(report.selected->0@.usable);
            assert(report.selected->0@.skip_reason is None);
        }
    }
}

/// Pipelines start out with what was chosen for them and no picture lost. Lost
/// pictures are counted and change nothing else; and a packet that could not be handled
/// puts the pipelines in error, with all the rest as it was.
pub proof fn law_pipelines_run(
    spec: media::GstreamerPipelineSpec,
    status: media::MediaRuntimeStatus,
    a: u64,
    b: u64,
    fine: bool,
    after: media::MediaRuntimeStatus,
)
    requires
        gstreamer_backend::is_starting(spec, status),
        a + b <= u64::MAX,
        gstreamer_backend::drained(gstreamer_backend::with_dropped(status, a), fine, after),
    ensures
        status.video_codec == Some(spec.video_codec),
        status.video_encoder == Some(spec.video_encoder),
        status.audio_codec == Some(spec.audio_codec),
        status.audio_encoder == Some(spec.audio_encoder),
        status.video_pipeline->0@ == spec.video_pipeline@,
        status.audio_pipeline->0@ == spec.audio_pipeline@,
        status.backend@ == "gstreamer"@,
        status.transport@ == "media-tracks"@,
        status.pipeline_state@ == "starting"@,
        after.dropped_video_frames == a,
        gstreamer_backend::with_dropped(after, b).dropped_video_frames == a + b,
        after.pipeline_state@ == (if fine {
            "starting"@
        } else {
            "error"@
        }),
        after.video_codec == status.video_codec,
        after.video_encoder == status.video_encoder,
        after.audio_codec == status.audio_codec,
        after.audio_encoder == status.audio_encoder,
        after.video_pipeline == status.video_pipeline,
        after.audio_pipeline == status.audio_pipeline,
{
}

/// The count of lost pictures never runs over.
pub proof fn law_lost_pictures_are_counted(status: media::MediaRuntimeStatus, count: u64)
    ensures
        gstreamer_backend::with_dropped(status, count).dropped_video_frames >= count,
        gstreamer_backend::with_dropped(status, count).dropped_video_frames
            >= status.dropped_video_frames,
        gstreamer_backend::with_dropped(status, count).pipeline_state == status.pipeline_state,
{
}

/// Pictures are announced with a clock of 90 kHz, as H.264 exactly where they are made
/// so and else as VP8; sound as Opus with 48 kHz and two channels.
pub proof fn law_tracks_are_announced(
    codec: Seq<char>,
    video: gstreamer_backend::TrackCodec,
    audio: gstreamer_backend::TrackCodec,
)
    requires
        gstreamer_backend::is_video_track(codec, video),
        gstreamer_backend::is_audio_track(audio),
    ensures
        video.mime == gstreamer_backend::TrackMime::H264 <==> codec == "h264"@,
        video.mime == gstreamer_backend::TrackMime::Vp8 <==> codec != "h264"@,
        video.clock_rate == 90_000,
        video.channels == 0,
        audio.mime == gstreamer_backend::TrackMime::Opus,
        audio.clock_rate == 48_000,
        audio.channels == 2,
        audio.sdp_fmtp_line@ == "minptime=10;useinbandfec=1;sprop-maxcapturerate=48000"@,
{
}

/// A host that could not be looked over has no encoder, and says why; one that could
/// has what was found there.
pub proof fn law_host_is_looked_over(
    probe: Result<media::GstreamerProbe, String>,
    found: GstreamerCapabilities,
    encoder: Encoder,
)
    requires
        media::probed(probe, found),
    ensures
        found.available_for_runtime <==> probe is Ok,
        found.init_ok <==> probe is Ok,
        found.compiled_in,
        probe is Ok ==> found.elements == probe->Ok_0.elements && found.version is Some
            && found.version->0@ == probe->Ok_0.version@ && found.missing_reason is None,
        probe is Err ==> found.missing_reason is Some && found.missing_reason->0@
            == probe->Err_0@ && found.version is None,
        probe is Err ==> !media::has_encoder(found.elements, encoder) && !found.elements.appsrc
            && !found.elements.webrtcbin && !found.elements.opusenc && !found.elements.rtpopuspay,
{
}

/// Before anything runs nothing is said to run.
pub proof fn law_nothing_runs_at_first(status: media::MediaRuntimeStatus)
    requires
        media::inactive(status),
    ensures
        status.pipeline_state@ == "inactive"@,
        status.backend@ == "gstreamer"@,
        status.transport@ == "media-tracks"@,
        status.video_codec is None && status.video_encoder is None && status.video_pipeline is None,
        status.audio_codec is None && status.audio_encoder is None && status.audio_pipeline is None,
        status.dropped_video_frames == 0,
{
}

/// What is told of the media: how the pipelines are doing where there are any, and
/// else what the host has at rest; of the host what it can do.
pub proof fn law_media_are_told(
    host: media::MediaCapabilities,
    running: Option<media::MediaRuntimeStatus>,
    told: media::MediaCapabilities,
)
    requires
        streaming::tells_media(host, running, told),
    ensures
        running is Some ==> told.runtime == running->0,
        running is None ==> told.runtime.backend@ == "gstreamer"@ && told.runtime.pipeline_state
            == host.runtime.pipeline_state && told.runtime.video_encoder
            == host.runtime.video_encoder && told.runtime.dropped_video_frames
            == host.runtime.dropped_video_frames,
        told.encoders == host.encoders,
        told.gstreamer == host.gstreamer,
        told.selected_backend == host.selected_backend,
{
}

/// The encoders in hardware are NVENC, Quick Sync, VA-API and V4L2; the others are in
/// software, or left open.
pub proof fn law_hardware_is_known(selection: VideoEncoderSelection)
    ensures
        media::selects_hardware(selection) <==> !(selection == VideoEncoderSelection::Auto
            || selection == VideoEncoderSelection::Software || selection
            == VideoEncoderSelection::X264 || selection == VideoEncoderSelection::Vp8),
{
}


/// A backend is named gstreamer or gst, or not at all. A name that is none is what is
/// wrong first; then what is wrong with the encoder.
pub proof fn law_backends_are_known(
    name: Option<Seq<char>>,
    encoder: Result<VideoEncoderConfig, Seq<char>>,
    config: Result<media::MediaConfig, String>,
)
    requires
        media::media_outcome(name, encoder, config),
    ensures
        ({
            let known = name is None || text::folded(name->0) == "gstreamer"@ || text::folded(
                name->0,
            ) == "gst"@;
            &&& config is Ok <==> known && encoder is Ok
            &&& config is Ok ==> config->Ok_0.video_encoder == encoder->Ok_0
            &&& !known ==> config->Err_0@ == "unsupported media backend '"@ + text::folded(name->0)
                + "' (expected gstreamer)"@
            &&& known && encoder is Err ==> config->Err_0@ == encoder->Err_0
        }),
{
}

/// An encoder that nobody knows is named in the refusal.
pub proof fn law_unknown_encoder_is_named(raw: Seq<char>)
    ensures
        media::unknown_encoder(raw) == "unsupported video encoder '"@ + text::folded(raw) + "'"@,
{
}

/// The list of the encoders that a host has: each that is there stands in quotes
/// behind those before it, with a comma between.
pub proof fn law_usable_encoders_are_listed(elements: GstreamerElements, n: int)
    requires
        0 <= n < 6,
    ensures
        ({
            let front = media::usable_list(elements, n);
            let list = media::usable_list(elements, n + 1);
            let encoder = media::preference()[n];
            let name = "\""@ + media::element_name(encoder) + "\""@;
            &&& n == 0 ==> front.len() == 0
            &&& !media::has_encoder(elements, encoder) ==> list == front
            &&& media::has_encoder(elements, encoder) && front.len() == 0 ==> list == name
            &&& media::has_encoder(elements, encoder) && front.len() > 0 ==> list == front + ", "@
                + name
        }),
{
    reveal_strlit(", \"");
    reveal_strlit(", ");
    reveal_strlit("\"");
    let front = media::usable_list(elements, n);
    let name = media::element_name(media::preference()[n]);
    assert(front + ", \""@ + name + "\""@ =~= front + ", "@ + ("\""@ + name + "\""@));
}

/// The names under which encoders are chosen.
pub proof fn law_selections_have_names()
    ensures
        media::selection_name(VideoEncoderSelection::Auto) == "auto"@,
        media::selection_name(VideoEncoderSelection::Software) == "software"@,
        media::selection_name(VideoEncoderSelection::Nvenc) == "nvenc"@,
        media::selection_name(VideoEncoderSelection::Qsv) == "qsv"@,
        media::selection_name(VideoEncoderSelection::Vaapi) == "vaapi"@,
        media::selection_name(VideoEncoderSelection::V4l2) == "v4l2"@,
        media::selection_name(VideoEncoderSelection::X264) == "x264"@,
        media::selection_name(VideoEncoderSelection::Vp8) == "vp8"@,
{
}


} // verus!
