//! Pixels and bytes on their way to and from a screen.

use vstd::prelude::*;

use crate::bounce;
use crate::bounce::Ball;
use crate::gstreamer_backend::RawFramePacket;
use crate::hw_render;
use crate::hw_render::CreateStep;
use crate::packet_rules;
use crate::server::Refusal;
use crate::snapshot;
use crate::wire;
use crate::x11;
use crate::x11::{ByteOrder, SetupRequest};

verus! {

/// The ball goes on by its speed in each frame. Where that would take it, 30 pixels
/// large, over the edge it stops there and goes back at the same speed.
pub proof fn law_ball_bounces(place: int, speed: int, size: int)
    requires
        size > 60,
    ensures
        ({
            let (p, v) = bounce::bounced(place, speed, size);
            &&& 30 <= place + speed < size - 30 ==> p == place + speed && v == speed
            &&& place + speed < 30 ==> p == 30 && v == -speed
            &&& place + speed >= size - 30 ==> p == size - 31 && v == -speed
        }),
{
}

/// The picture of the ball: 320 by 240 pixels of four bytes, row by row. The pixels
/// within 30 of its middle have the colour of the ball, all others that of the
/// background.
pub proof fn law_ball_is_drawn(ball: Ball, x: int, y: int, c: int)
    requires
        0 <= x < 320,
        0 <= y < 240,
        0 <= c < 4,
    ensures
        ({
            let picture = bounce::ball_picture(ball);
            let at = 4 * (y * 320 + x) + c;
            let near = (x - ball.x) * (x - ball.x) + (y - ball.y) * (y - ball.y) <= 900;
            &&& picture.len() == 4 * 320 * 240
            &&& 0 <= at < picture.len()
            &&& near ==> picture[at] == seq![0x3au8, 0xc6u8, 0x5cu8, 0xffu8][c]
            &&& !near ==> picture[at] == seq![0x10u8, 0x10u8, 0x18u8, 0xffu8][c]
        }),
{
    let at = 4 * (y * 320 + x) + c;
    assert(at / 4 == y * 320 + x && at % 4 == c);
    assert((y * 320 + x) % 320 == x && (y * 320 + x) / 320 == y);
    assert(bounce::RADIUS * bounce::RADIUS == 900) by (nonlinear_arith);
    assert(bounce::BALL@ =~= seq![0x3au8, 0xc6u8, 0x5cu8, 0xffu8]);
    assert(bounce::BACKGROUND@ =~= seq![0x10u8, 0x10u8, 0x18u8, 0xffu8]);
}

/// The request that puts a picture on the screen: PutImage, number 72, of whole
/// pixels; its length in words; the root window; width and height; and where it
/// goes.
pub proof fn law_put_image(dst_x: i16, dst_y: i16, width: u16, height: u16, len: int)
    requires
        0 <= len,
        dst_x >= 0,
        dst_y >= 0,
        (len + 27) / 4 < 0x1_0000,
    ensures
        ({
            let b = bounce::put_image_head(dst_x, dst_y, width, height, len);
            &&& b.len() == 24
            &&& b[0] == 72
            &&& b[1] == 2
            &&& b[2] + 256 * b[3] == (24 + len + 3) / 4
            &&& packet_rules::number32(b, 4) == 0x2000_0000
            &&& b[12] + 256 * b[13] == width
            &&& b[14] + 256 * b[15] == height
            &&& b[16] + 256 * b[17] == dst_x
            &&& b[18] + 256 * b[19] == dst_y
            &&& b[21] == 24
        }),
{
    reveal(wire::le32);
    let b = bounce::put_image_head(dst_x, dst_y, width, height, len);
    wire::lemma_widths(bounce::ROOT_DRAWABLE, 0);
    wire::lemma_widths(0, 0);
}

/// A number of two bytes in a byte order.
pub open spec fn word(order: ByteOrder, b: Seq<u8>, at: int) -> int {
    if order == ByteOrder::LsbFirst {
        b[at] + 256 * b[at + 1]
    } else {
        256 * b[at] + b[at + 1]
    }
}

/// How many bytes a field takes that is filled up to whole words.
pub open spec fn filled(len: int) -> int {
    (len + 3) / 4 * 4
}

/// What a client's first request says: the byte order, l for the low byte first and
/// B for the high one, the version, and two fields that are filled up to whole words.
/// It is taken exactly where all of it is there.
#[verifier::spinoff_prover]
#[verifier::rlimit(60)]
pub proof fn law_setup_is_read(b: Seq<u8>, answer: Result<(SetupRequest, usize), String>)
    requires
        x11::setup_outcome(b, answer),
    ensures
        ({
            let order = if b[0] == 0x6c {
                ByteOrder::LsbFirst
            } else {
                ByteOrder::MsbFirst
            };
            let name = word(order, b, 6);
            let data = word(order, b, 8);
            let request = answer->Ok_0.0;
            &&& answer is Ok <==> b.len() >= 12 && (b[0] == 0x6c || b[0] == 0x42) && 12 + filled(
                name,
            ) + filled(data) <= b.len()
            &&& answer is Ok ==> {
                &&& request.byte_order == order
                &&& request.protocol_major == word(order, b, 2)
                &&& request.protocol_minor == word(order, b, 4)
                &&& request.auth_name@ == b.subrange(12, 12 + name)
                &&& request.auth_data@ == b.subrange(12 + filled(name), 12 + filled(name) + data)
                &&& answer->Ok_0.1 == 12 + filled(name) + filled(data)
            }
        }),
{
    let order = if b[0] == 0x6c {
        ByteOrder::LsbFirst
    } else {
        ByteOrder::MsbFirst
    };
    packet_rules::law_ends_of_numbers(b, 2);
    packet_rules::law_ends_of_numbers(b, 4);
    packet_rules::law_ends_of_numbers(b, 6);
    packet_rules::law_ends_of_numbers(b, 8);
    let name = order.get16(b, 6) as int;
    let data = order.get16(b, 8) as int;
    assert(name + x11::gap(name) == filled(name));
    assert(data + x11::gap(data) == filled(data));
}

proof fn lemma_number(order: ByteOrder, x: u32)
    ensures
        order.bytes32(x).len() == 4,
{
    wire::lemma_widths(x, 0);
}

/// The reply to a client: a success, for version 11.0, that names the server, three
/// formats of pixels, and one screen of 800 by 600 pixels, 24 bits deep.
pub proof fn law_reply_names_the_screen(order: ByteOrder)
    ensures
        ({
            let b = x11::setup_reply(order);
            &&& b.len() == 136
            &&& b[0] == 1
            &&& word(order, b, 2) == 11
            &&& word(order, b, 4) == 0
            &&& word(order, b, 6) == 32
            &&& word(order, b, 24) == 9
            &&& b[28] == 1
            &&& b[29] == 3
            &&& b[40] == 110 && b[41] == 111 && b[42] == 115
            &&& b[52] == 1 && b[53] == 1 && b[54] == 32
            &&& b[56] == 24 && b[57] == 32 && b[58] == 32
            &&& b[60] == 32 && b[61] == 32 && b[62] == 32
            &&& word(order, b, 84) == 800
            &&& word(order, b, 86) == 600
            &&& b[102] == 24
            &&& b[103] == 1
        }),
{
    assert forall|x: u32| (#[trigger] order.bytes32(x)).len() == 4 by {
        lemma_number(order, x);
    }
    let server = x11::reply_server(order);
    let screen = x11::reply_screen(order);
    let formats = x11::reply_formats();
    let visual = x11::reply_visual(order);
    assert(server.len() == 44);
    assert(formats.len() == 12);
    assert(screen.len() == 40);
    assert(visual.len() == 30);
    let body = server + formats + screen + visual;
    let whole = x11::reply_body(order);
    assert(whole.len() == 128);
    let b = x11::setup_reply(order);
    assert forall|i: int| 0 <= i < 126 implies #[trigger] b[8 + i] == body[i] by {
        assert(b[8 + i] == whole[i]);
    }
    assert forall|i: int| 0 <= i < 44 implies #[trigger] server[i] == b[8 + i] by {
        assert(body[i] == server[i]);
    }
    assert forall|i: int| 0 <= i < 12 implies #[trigger] formats[i] == b[52 + i] by {
        assert(body[44 + i] == formats[i]);
        assert(b[8 + (44 + i)] == body[44 + i]);
    }
    assert forall|i: int| 0 <= i < 40 implies #[trigger] screen[i] == b[64 + i] by {
        assert(body[56 + i] == screen[i]);
        assert(b[8 + (56 + i)] == body[56 + i]);
    }
    assert(order.bytes16(800).len() == 2);
    assert(screen[20] == order.bytes16(800)[0] && screen[21] == order.bytes16(800)[1]);
    assert(screen[22] == order.bytes16(600)[0] && screen[23] == order.bytes16(600)[1]);
    assert(screen[38] == 24 && screen[39] == 1);
    assert(server[16] == order.bytes16(9)[0] && server[17] == order.bytes16(9)[1]);
    assert(server[20] == 1 && server[21] == 3);
    assert(server[32] == 110 && server[33] == 111 && server[34] == 115);
    assert(formats[0] == 1 && formats[1] == 1 && formats[2] == 32);
    assert(formats[4] == 24 && formats[5] == 32 && formats[6] == 32);
    assert(formats[8] == 32 && formats[9] == 32 && formats[10] == 32);
}

/// How many bytes a pixel takes in memory.
pub open spec fn depth(format: u8) -> int {
    if format == 0 {
        4
    } else {
        2
    }
}

/// Red, green and blue of a pixel as it stands in memory: in format 0 behind each
/// other from blue on; in format 1 as the upper 5, the middle 6 and the lower 5 bits
/// of two bytes, and in format 2 as 5 bits each; the lower bits that are missing are
/// zero.
pub proof fn law_colours(format: u8, p: Seq<u8>, off: int)
    requires
        format <= 2,
        0 <= off,
        off + depth(format) <= p.len(),
    ensures
        ({
            let rgb = snapshot::pixel_rgb(format, p, off);
            let n = p[off] + 256 * p[off + 1];
            &&& rgb.len() == 3
            &&& format == 0 ==> rgb[0] == p[off + 2] && rgb[1] == p[off + 1] && rgb[2] == p[off]
            &&& format == 1 ==> rgb[0] == n / 2_048 * 8 && rgb[1] == n / 32 % 64 * 4 && rgb[2] == n
                % 32 * 8
            &&& format == 2 ==> rgb[0] == n / 1_024 % 32 * 8 && rgb[1] == n / 32 % 32 * 8 && rgb[2]
                == n % 32 * 8
        }),
{
}

proof fn lemma_row_at(f: RawFramePacket, y: int, n: int, x: int)
    requires
        f.pixel_format <= 2,
        f.width * depth(f.pixel_format) <= f.pitch,
        f.height * f.pitch <= f.payload@.len(),
        0 <= y < f.height,
        0 <= x < n <= f.width,
    ensures
        snapshot::row_rgb(f, y, n).len() == 3 * n,
        snapshot::row_rgb(f, y, n).subrange(3 * x, 3 * x + 3) == snapshot::pixel_rgb(
            f.pixel_format,
            f.payload@,
            y * f.pitch + x * depth(f.pixel_format),
        ),
    decreases n,
{
    snapshot::lemma_whole_row(f, y, n);
    snapshot::lemma_whole_row(f, y, n - 1);
    let size = depth(f.pixel_format);
    let off = y * f.pitch + (n - 1) * size;
    assert(off + size <= f.payload@.len()) by (nonlinear_arith)
        requires
            off == y * f.pitch + (n - 1) * size,
            1 <= n <= f.width,
            0 <= y < f.height,
            2 <= size,
            f.width * size <= f.pitch,
            f.height * f.pitch <= f.payload@.len(),
    ;
    let front = snapshot::row_rgb(f, y, n - 1);
    let row = snapshot::row_rgb(f, y, n);
    if x == n - 1 {
        assert(row.subrange(3 * x, 3 * x + 3) =~= snapshot::pixel_rgb(
            f.pixel_format,
            f.payload@,
            off,
        ));
    } else {
        lemma_row_at(f, y, n - 1, x);
        assert(row.subrange(3 * x, 3 * x + 3) =~= front.subrange(3 * x, 3 * x + 3));
    }
}

proof fn lemma_rows_at(f: RawFramePacket, n: int, y: int, k: int)
    requires
        f.pixel_format <= 2,
        f.width * depth(f.pixel_format) <= f.pitch,
        f.height * f.pitch <= f.payload@.len(),
        0 <= y < n <= f.height,
        0 <= k < 3 * f.width,
    ensures
        snapshot::rows_rgb(f, n).len() == n * (3 * f.width),
        0 <= y * (3 * f.width) + k < n * (3 * f.width),
        snapshot::rows_rgb(f, n)[y * (3 * f.width) + k] == snapshot::row_rgb(
            f,
            y,
            f.width as int,
        )[k],
    decreases n,
{
    snapshot::lemma_whole_rows(f, n);
    snapshot::lemma_whole_rows(f, n - 1);
    snapshot::lemma_whole_row(f, n - 1, f.width as int);
    let w = 3 * f.width;
    assert(0 <= y * w + k < n * w) by (nonlinear_arith)
        requires
            0 <= y < n,
            0 <= k < w,
    ;
    if y < n - 1 {
        lemma_rows_at(f, n - 1, y, k);
    }
}

/// The image that is made of a picture has its pixels row by row, three bytes each,
/// red, green and blue, each pixel where it stands in memory; the rows there may be
/// further apart than they are long.
pub proof fn law_every_pixel_is_shown(f: RawFramePacket, x: int, y: int, c: int)
    requires
        f.pixel_format <= 2,
        f.width * depth(f.pixel_format) <= f.pitch,
        f.height * f.pitch <= f.payload@.len(),
        0 <= x < f.width,
        0 <= y < f.height,
        0 <= c < 3,
    ensures
        snapshot::picture_rgb(f).len() == 3 * (f.width * f.height),
        0 <= 3 * (y * f.width + x) + c < snapshot::picture_rgb(f).len(),
        snapshot::picture_rgb(f)[3 * (y * f.width + x) + c] == snapshot::pixel_rgb(
            f.pixel_format,
            f.payload@,
            y * f.pitch + x * depth(f.pixel_format),
        )[c],
{
    let w = 3 * f.width;
    lemma_rows_at(f, f.height as int, y, 3 * x + c);
    lemma_row_at(f, y, f.width as int, x);
    let row = snapshot::row_rgb(f, y, f.width as int);
    assert(row.subrange(3 * x, 3 * x + 3)[c] == row[3 * x + c]);
    assert(y * w + (3 * x + c) == 3 * (y * f.width + x) + c) by (nonlinear_arith)
        requires
            w == 3 * f.width,
    ;
    assert(f.height * w == 3 * (f.width * f.height)) by (nonlinear_arith)
        requires
            w == 3 * f.width,
    ;
}

/// What is answered where there is no image: why not, as an error of the server.
pub proof fn law_no_image(f: RawFramePacket, answer: Result<Vec<u8>, Refusal>)
    requires
        snapshot::picture_outcome(f, answer),
    ensures
        answer is Err ==> answer->Err_0.status == 500,
        f.pixel_format > 2 ==> answer is Err && answer->Err_0.message@
            == "unsupported pixel format"@,
        f.pixel_format <= 2 && snapshot::picture_rgb(f).len() < 3 * f.width * f.height
            ==> answer is Err && answer->Err_0.message@ == "invalid frame dimensions"@,
        answer is Ok ==> Some(answer->Ok_0@) == snapshot::png_image(
            f.width,
            f.height,
            snapshot::picture_rgb(f).take(3 * f.width * f.height),
        ),
{
}

/// The steps to a rendering context, in their order.
pub proof fn law_steps_in_order(step: CreateStep)
    ensures
        step == CreateStep::GbmDevice <==> hw_render::step_place(step) == 0,
        step == CreateStep::GbmSurface <==> hw_render::step_place(step) == 1,
        step == CreateStep::Display <==> hw_render::step_place(step) == 2,
        step == CreateStep::Initialize <==> hw_render::step_place(step) == 3,
        step == CreateStep::BindApi <==> hw_render::step_place(step) == 4,
        step == CreateStep::ChooseConfig <==> hw_render::step_place(step) == 5,
        step == CreateStep::CreateContext <==> hw_render::step_place(step) == 6,
        step == CreateStep::CreateSurface <==> hw_render::step_place(step) == 7,
        step == CreateStep::MakeCurrent <==> hw_render::step_place(step) == 8,
        step == CreateStep::Ready <==> hw_render::step_place(step) == 9,
{
}

/// What is said of a step that failed.
pub proof fn law_failed_steps(step: CreateStep)
    ensures
        step == CreateStep::GbmDevice ==> hw_render::step_failure(step)
            == "gbm_create_device failed"@,
        step == CreateStep::GbmSurface ==> hw_render::step_failure(step)
            == "gbm_surface_create failed"@,
        step == CreateStep::Display ==> hw_render::step_failure(step) == "eglGetDisplay failed"@,
        step == CreateStep::Initialize ==> hw_render::step_failure(step) == "eglInitialize failed"@,
        step == CreateStep::BindApi ==> hw_render::step_failure(step) == "eglBindAPI failed"@,
        step == CreateStep::ChooseConfig ==> hw_render::step_failure(step)
            == "eglChooseConfig failed"@,
        step == CreateStep::CreateContext ==> hw_render::step_failure(step)
            == "eglCreateContext failed"@,
        step == CreateStep::CreateSurface ==> hw_render::step_failure(step)
            == "eglCreatePbufferSurface failed"@,
        step == CreateStep::MakeCurrent ==> hw_render::step_failure(step)
            == "eglMakeCurrent failed"@,
{
}

/// What a configuration has to have, by the numbers that EGL knows: drawing to
/// memory, OpenGL for a context of type 1 and OpenGL ES for any other, 8 bits of each
/// colour and 24 of depth.
pub proof fn law_configuration(context_type: u32)
    ensures
        ({
            let list = hw_render::config_list(context_type);
            &&& list.len() == 15
            &&& list[0] == 0x3033 && list[1] == 1
            &&& list[2] == 0x3040 && list[3] == if context_type == 1 {
                8int
            } else {
                4int
            }
            &&& list[4] == 0x3024 && list[5] == 8
            &&& list[6] == 0x3023 && list[7] == 8
            &&& list[8] == 0x3022 && list[9] == 8
            &&& list[10] == 0x3021 && list[11] == 8
            &&& list[12] == 0x3025 && list[13] == 24
            &&& list[14] == 0x3038
        }),
        hw_render::EGL_OPENGL_API == 0x30a2,
        hw_render::EGL_OPENGL_ES_API == 0x30a0,
        hw_render::EGL_WIDTH == 0x3057,
        hw_render::EGL_HEIGHT == 0x3056,
        hw_render::EGL_CONTEXT_CLIENT_VERSION == 0x3098,
{
}

/// A context of type 1 is one of OpenGL, any other one of OpenGL ES: of version 3 for
/// type 4, of version 2 for types 2 and 5, and else as it comes. The surface has the
/// size that is asked for.
pub proof fn law_context_is_asked_for(context_type: u32, width: i32, height: i32)
    ensures
        hw_render::api_of(context_type) == (if context_type == 1 {
            0x30a2u32
        } else {
            0x30a0u32
        }),
        context_type == 4 ==> hw_render::context_list(context_type) =~= seq![0x3098i32, 3, 0x3038],
        context_type == 2 || context_type == 5 ==> hw_render::context_list(context_type) =~= seq![
            0x3098i32,
            2,
            0x3038,
        ],
        context_type != 2 && context_type != 4 && context_type != 5 ==> hw_render::context_list(
            context_type,
        ) =~= seq![0x3038i32],
        hw_render::surface_list(width, height) =~= seq![0x3057i32, width, 0x3056, height, 0x3038],
{
}

/// A number of four bytes with the low one first, or with the high one first.
pub proof fn law_order_of_four_bytes(b: Seq<u8>)
    ensures
        ByteOrder::LsbFirst.get32(b, 0) == b[0] + 256 * b[1] + 65_536 * b[2] + 16_777_216 * b[3],
        ByteOrder::MsbFirst.get32(b, 0) == b[3] + 256 * b[2] + 65_536 * b[1] + 16_777_216 * b[0],
{
    packet_rules::law_ends_of_numbers(b, 0);
}


/// Who asks for the picture before there is one is told that there is none yet.
pub proof fn law_no_picture_yet(answer: Result<Vec<u8>, Refusal>)
    requires
        snapshot::none_answered(answer),
    ensures
        answer is Err,
        answer->Err_0.status == 503,
        answer->Err_0.message@ == "no frame available"@,
{
}

/// Bytes that are no picture are a fault of the server, and so is a picture of a
/// format that is not known.
pub proof fn law_no_picture_in_a_packet(
    packet: Seq<u8>,
    frame: Option<RawFramePacket>,
    answer: Result<Vec<u8>, Refusal>,
)
    requires
        snapshot::frame_answered(packet, frame, answer),
    ensures
        crate::gstreamer_backend::frame_decoded(packet, frame),
        frame is None ==> answer is Err && answer->Err_0.status == 500 && answer->Err_0.message@
            == "failed to decode frame"@,
        frame is Some && frame->0.pixel_format > 2 ==> answer is Err && answer->Err_0.status == 500
            && answer->Err_0.message@ == "unsupported pixel format"@,
        frame is Some ==> snapshot::picture_outcome(frame->0, answer),
{
}

/// A ball of any size has its centre on it, and none below nothing; it leaves what is
/// behind the picture alone.
pub proof fn law_ball_has_a_centre(before: Seq<u8>, cx: int, cy: int, r: int, at: int)
    ensures
        r >= 0 ==> bounce::on_ball(0, 0, r),
        r < 0 ==> !bounce::on_ball(cx, cy, r),
        at >= 4 * (320 * 240) ==> bounce::drawn_byte(before, cx, cy, r, 320, 240, at) == before[at],
{
    assert(r * r >= 0) by (nonlinear_arith);
}

/// A field is filled up with zeros to whole words. A field that does not fit is
/// refused, and so is one whose filling does not.
pub proof fn law_fields_are_filled(total: int, at: int, len: int, i: int)
    requires
        len >= 0,
    ensures
        (len + x11::filling(len).len()) % 4 == 0,
        x11::filling(len).len() < 4,
        0 <= i < x11::filling(len).len() ==> x11::filling(len)[i] == 0,
        at + len > total ==> x11::field_refusal(total, at, len) == Some(
            "padded read out of range"@,
        ),
        at + len <= total < at + filled(len) ==> x11::field_refusal(total, at, len) == Some(
            "padding read out of range"@,
        ),
        at + filled(len) <= total ==> x11::field_refusal(total, at, len) is None,
{
}

/// The server's part of the reply: its release, the identifiers that are a client's to
/// use, and its limits.
pub proof fn law_reply_names_the_server(order: ByteOrder)
    ensures
        ({
            let server = x11::reply_server(order);
            &&& server.subrange(0, 4) == order.bytes32(0x0004_0000)
            &&& server.subrange(4, 8) == order.bytes32(0x1000_0000)
            &&& server.subrange(8, 12) == order.bytes32(0x0fff_f000)
            &&& server.subrange(12, 16) == order.bytes32(0)
            &&& server.subrange(18, 20) == order.bytes16(0xffff)
            &&& server[22] == 0 && server[23] == 0 && server[24] == 32 && server[25] == 32
            &&& server[26] == 8 && server[27] == 255
        }),
{
    lemma_number(order, 0x0004_0000);
    lemma_number(order, 0x1000_0000);
    lemma_number(order, 0x0fff_f000);
    lemma_number(order, 0);
    assert(order.bytes16(9).len() == 2);
    assert(order.bytes16(0xffff).len() == 2);
    let server = x11::reply_server(order);
    assert(server.subrange(0, 4) =~= order.bytes32(0x0004_0000));
    assert(server.subrange(4, 8) =~= order.bytes32(0x1000_0000));
    assert(server.subrange(8, 12) =~= order.bytes32(0x0fff_f000));
    assert(server.subrange(12, 16) =~= order.bytes32(0));
    assert(server.subrange(18, 20) =~= order.bytes16(0xffff));
}


} // verus!
