//! A ball that bounces about the screen of an X11 client, and what the client
//! sends.

use vstd::prelude::*;

use crate::wire;
use crate::x11;
use crate::x11::ByteOrder;

verus! {

pub const WIDTH: u16 = 320;

pub const HEIGHT: u16 = 240;

pub const RADIUS: i32 = 30;

/// The window that a server's reply speaks of.
pub const ROOT_DRAWABLE: u32 = 0x2000_0000;

pub const BACKGROUND: [u8; 4] = [0x10, 0x10, 0x18, 0xff];

pub const BALL: [u8; 4] = [0x3a, 0xc6, 0x5c, 0xff];

/// Where the ball is, and how far it goes in a frame.
#[derive(Debug, Clone, Copy, PartialEq, Eq, Structural)]
pub struct Ball {
    pub x: i32,
    pub y: i32,
    pub vx: i32,
    pub vy: i32,
}

/// The place and the speed on one axis after a frame: a ball that would leave is
/// put to the edge and sent back.
pub open spec fn bounced(place: int, speed: int, size: int) -> (int, int) {
    let p = place + speed;
    let (p1, v1) = if p - RADIUS < 0 {
        (RADIUS as int, -speed)
    } else {
        (p, speed)
    };
    if p1 + RADIUS >= size {
        (size - RADIUS - 1, -v1)
    } else {
        (p1, v1)
    }
}

/// Whether a step can be counted.
pub open spec fn steady(place: i32, speed: i32) -> bool {
    &&& speed > i32::MIN
    &&& i32::MIN + RADIUS <= place + speed <= i32::MAX - RADIUS
}

fn bounce_axis(place: i32, speed: i32, size: u16) -> (moved: (i32, i32))
    requires
        steady(place, speed),
    ensures
        moved.0 == bounced(place as int, speed as int, size as int).0,
        moved.1 == bounced(place as int, speed as int, size as int).1,
{
    let mut p: i32 = place + speed;
    let mut v: i32 = speed;
    if p - RADIUS < 0 {
        p = RADIUS;
        v = -v;
    }
    if p + RADIUS >= size as i32 {
        p = size as i32 - RADIUS - 1;
        v = -v;
    }
    (p, v)
}

impl Ball {
    pub fn start() -> (ball: Self)
        ensures
            ball == (Ball { x: 50, y: 50, vx: 2, vy: 2 }),
    {
        Ball { x: 50, y: 50, vx: 2, vy: 2 }
    }

    /// Moves the ball by a frame.
    pub fn step(&mut self)
        requires
            steady(old(self).x, old(self).vx),
            steady(old(self).y, old(self).vy),
        ensures
            (final(self).x as int, final(self).vx as int) == bounced(
                old(self).x as int,
                old(self).vx as int,
                WIDTH as int,
            ),
            (final(self).y as int, final(self).vy as int) == bounced(
                old(self).y as int,
                old(self).vy as int,
                HEIGHT as int,
            ),
    {
        let (x, vx) = bounce_axis(self.x, self.vx, WIDTH);
        let (y, vy) = bounce_axis(self.y, self.vy, HEIGHT);
        self.x = x;
        self.y = y;
        self.vx = vx;
        self.vy = vy;
    }
}

/// The ball never leaves the screen, and keeps its speed.
pub proof fn law_stays_on_screen(place: int, speed: int, size: int)
    requires
        size > 2 * RADIUS,
    ensures
        RADIUS <= bounced(place, speed, size).0,
        bounced(place, speed, size).0 + RADIUS < size,
        bounced(place, speed, size).1 == speed || bounced(place, speed, size).1 == -speed,
{
}

/// Whether a place is on the ball. Nothing is on a ball of a negative radius.
pub open spec fn on_ball(dx: int, dy: int, r: int) -> bool {
    r >= 0 && dx * dx + dy * dy <= r * r
}

/// Whether the places round a centre can be counted.
pub open spec fn reachable(centre: i32, r: i32) -> bool {
    r >= 0 ==> i32::MIN + r <= centre <= i32::MAX - r
}

/// The byte at a place of a picture with a ball drawn on it.
pub open spec fn drawn_byte(
    before: Seq<u8>,
    cx: int,
    cy: int,
    r: int,
    width: int,
    height: int,
    at: int,
) -> u8 {
    if at < 4 * (width * height) && on_ball(at / 4 % width - cx, at / 4 / width - cy, r) {
        BALL@[at % 4]
    } else {
        before[at]
    }
}

/// Whether a byte belongs to a pixel that has been drawn when the drawing has
/// come to `(dx, dy)`.
spec fn drawn_before(cx: int, cy: int, r: int, width: int, height: int, dx: int, dy: int, at: int) -> bool {
    let px = at / 4 % width - cx;
    let py = at / 4 / width - cy;
    &&& at < 4 * (width * height)
    &&& on_ball(px, py, r)
    &&& (py < dy || (py == dy && px < dx))
}

proof fn lemma_pixel(width: int, height: int, px: int, py: int, at: int)
    requires
        0 <= px < width,
        0 <= py < height,
        0 <= at,
    ensures
        0 <= py * width + px < width * height,
        at / 4 == py * width + px <==> (at < 4 * (width * height) && at / 4 % width == px && at / 4
            / width == py),
{
    let pixel = py * width + px;
    assert(0 <= pixel < width * height && pixel % width == px && pixel / width == py)
        by (nonlinear_arith)
        requires
            pixel == py * width + px,
            0 <= px < width,
            0 <= py < height,
    ;
    let q = at / 4;
    if q % width == px && q / width == py {
        assert(q == pixel) by (nonlinear_arith)
            requires
                q % width == px,
                q / width == py,
                pixel == py * width + px,
                width > 0,
        ;
    }
}

proof fn lemma_on_screen(width: int, height: int, at: int)
    requires
        0 <= at < 4 * (width * height),
        0 <= width,
        0 <= height,
    ensures
        0 <= at / 4 % width < width,
        0 <= at / 4 / width < height,
{
    let q = at / 4;
    assert(0 <= q < width * height);
    assert(width > 0 && 0 <= q % width < width && 0 <= q / width < height) by (nonlinear_arith)
        requires
            0 <= q < width * height,
            0 <= width,
            0 <= height,
    ;
}

proof fn lemma_reach(dx: int, dy: int, r: int)
    requires
        on_ball(dx, dy, r),
        r >= 0,
    ensures
        -r <= dx <= r,
        -r <= dy <= r,
{
    assert(-r <= dx <= r && -r <= dy <= r) by (nonlinear_arith)
        requires
            dx * dx + dy * dy <= r * r,
            r >= 0,
    ;
}

/// Draws a ball on a picture. What lies outside the picture is left out, and a
/// negative radius draws nothing.
pub fn draw_ball(buf: &mut Vec<u8>, cx: i32, cy: i32, r: i32, width: u16, height: u16)
    requires
        4 * (width * height) <= old(buf)@.len(),
        r <= 0x7fff,
        reachable(cx, r),
        reachable(cy, r),
    ensures
        final(buf)@.len() == old(buf)@.len(),
        forall|at: int|
            0 <= at < final(buf)@.len() ==> #[trigger] final(buf)@[at] == drawn_byte(
                old(buf)@,
                cx as int,
                cy as int,
                r as int,
                width as int,
                height as int,
                at,
            ),
{
    if r < 0 {
        return;
    }
    let ghost before = buf@;
    assert(0 <= r * r <= 0x7fff * 0x7fff) by (nonlinear_arith)
        requires
            0 <= r <= 0x7fff,
    ;
    let r2: i32 = r * r;
    let mut dy: i32 = -r;
    proof {
        assert forall|at: int|
            0 <= at < buf@.len() implies !#[trigger] drawn_before(
            cx as int,
            cy as int,
            r as int,
            width as int,
            height as int,
            -r,
            dy as int,
            at,
        ) by {
            let px = at / 4 % (width as int) - cx;
            let py = at / 4 / (width as int) - cy;
            if on_ball(px, py, r as int) {
                lemma_reach(px, py, r as int);
            }
        }
    }
    while dy <= r
        invariant
            -r <= dy <= r + 1,
            0 <= r <= 0x7fff,
            r2 == r * r,
            r2 <= 0x7fff * 0x7fff,
            reachable(cx, r),
            reachable(cy, r),
            before == old(buf)@,
            buf@.len() == before.len(),
            4 * (width * height) <= before.len(),
            forall|at: int|
                0 <= at < buf@.len() ==> #[trigger] buf@[at] == if drawn_before(
                    cx as int,
                    cy as int,
                    r as int,
                    width as int,
                    height as int,
                    -r,
                    dy as int,
                    at,
                ) {
                    BALL@[at % 4]
                } else {
                    before[at]
                },
        decreases r + 1 - dy,
    {
        let mut dx: i32 = -r;
        while dx <= r
            invariant
                -r <= dy <= r,
                -r <= dx <= r + 1,
                0 <= r <= 0x7fff,
                r2 == r * r,
                r2 <= 0x7fff * 0x7fff,
                reachable(cx, r),
                reachable(cy, r),
                buf@.len() == before.len(),
                4 * (width * height) <= before.len(),
                forall|at: int|
                    0 <= at < buf@.len() ==> #[trigger] buf@[at] == if drawn_before(
                        cx as int,
                        cy as int,
                        r as int,
                        width as int,
                        height as int,
                        dx as int,
                        dy as int,
                        at,
                    ) {
                        BALL@[at % 4]
                    } else {
                        before[at]
                    },
            decreases r + 1 - dx,
        {
            let ghost so_far = buf@;
            assert(0 <= dx * dx <= 0x7fff * 0x7fff && 0 <= dy * dy <= 0x7fff * 0x7fff)
                by (nonlinear_arith)
                requires
                    -0x7fff <= dx <= 0x7fff,
                    -0x7fff <= dy <= 0x7fff,
            ;
            let px: i32 = cx + dx;
            let py: i32 = cy + dy;
            if dx * dx + dy * dy <= r2 && px >= 0 && py >= 0 && px < width as i32 && py
                < height as i32 {
                proof {
                    lemma_pixel(width as int, height as int, px as int, py as int, 0);
                    assert(4 * (width * height) <= buf.len());
                    assert(py * width <= 0xffff * 0xffff) by (nonlinear_arith)
                        requires
                            0 <= py <= 0xffff,
                            width <= 0xffff,
                    ;
                }
                let idx: usize = (py as usize * width as usize + px as usize) * 4;
                buf.set(idx, BALL[0]);
                buf.set(idx + 1, BALL[1]);
                buf.set(idx + 2, BALL[2]);
                buf.set(idx + 3, BALL[3]);
                assert forall|at: int| 0 <= at < buf@.len() implies #[trigger] buf@[at]
                    == if drawn_before(
                    cx as int,
                    cy as int,
                    r as int,
                    width as int,
                    height as int,
                    dx + 1,
                    dy as int,
                    at,
                ) {
                    BALL@[at % 4]
                } else {
                    before[at]
                } by {
                    lemma_pixel(width as int, height as int, px as int, py as int, at);
                    if at / 4 != py * width + px {
                        assert(buf@[at] == so_far[at]);
                    }
                }
            } else {
                assert forall|at: int| 0 <= at < buf@.len() implies #[trigger] buf@[at]
                    == if drawn_before(
                    cx as int,
                    cy as int,
                    r as int,
                    width as int,
                    height as int,
                    dx + 1,
                    dy as int,
                    at,
                ) {
                    BALL@[at % 4]
                } else {
                    before[at]
                } by {
                    assert(buf@[at] == so_far[at]);
                    if at < 4 * (width * height) {
                        lemma_on_screen(width as int, height as int, at);
                    }
                }
            }
            dx += 1;
        }
        proof {
            assert forall|at: int| 0 <= at < buf@.len() implies #[trigger] buf@[at]
                == if drawn_before(
                cx as int,
                cy as int,
                r as int,
                width as int,
                height as int,
                -r,
                dy + 1,
                at,
            ) {
                BALL@[at % 4]
            } else {
                before[at]
            } by {
                let qx = at / 4 % (width as int) - cx;
                let qy = at / 4 / (width as int) - cy;
                if on_ball(qx, qy, r as int) {
                    lemma_reach(qx, qy, r as int);
                }
            }
        }
        dy += 1;
    }
    proof {
        assert forall|at: int| 0 <= at < buf@.len() implies #[trigger] buf@[at] == drawn_byte(
            before,
            cx as int,
            cy as int,
            r as int,
            width as int,
            height as int,
            at,
        ) by {
            let qx = at / 4 % (width as int) - cx;
            let qy = at / 4 / (width as int) - cy;
            if on_ball(qx, qy, r as int) {
                lemma_reach(qx, qy, r as int);
            }
        }
    }
}

/// The request that a client opens with: protocol 11.0, low bytes first, and no
/// word of who it is.
pub fn setup_request() -> (out: Vec<u8>)
    ensures
        out@ == x11::setup_request(ByteOrder::LsbFirst, 11, 0, Seq::empty(), Seq::empty()),
{
    let mut out: Vec<u8> = Vec::new();
    out.push(0x6c);
    out.push(0);
    wire::push_le16(&mut out, 11);
    wire::push_le16(&mut out, 0);
    wire::push_le16(&mut out, 0);
    wire::push_le16(&mut out, 0);
    out.push(0);
    out.push(0);
    assert(x11::filling(0) =~= Seq::<u8>::empty());
    assert(out@ =~= x11::setup_request(
        ByteOrder::LsbFirst,
        11,
        0,
        Seq::empty(),
        Seq::empty(),
    ));
    out
}

/// How many bytes follow the first eight of a reply.
pub fn reply_rest(header: &[u8]) -> (rest: usize)
    requires
        header@.len() >= 8,
    ensures
        rest == 4 * wire::get_le16(header@, 6),
{
    wire::read_le16(header, 6) as usize * 4
}

/// The head of a request to put a picture on the screen. The length is counted in
/// words, of which the field holds the low 16 bits.
pub open spec fn put_image_head(dst_x: i16, dst_y: i16, width: u16, height: u16, len: int) -> Seq<
    u8,
> {
    seq![72u8, 2u8] + wire::le16(((24 + len + 3) / 4 % 0x1_0000) as u16) + wire::le32(
        ROOT_DRAWABLE,
    ) + wire::le32(0) + wire::le16(width) + wire::le16(height) + wire::le16(wire::bits16(dst_x))
        + wire::le16(wire::bits16(dst_y)) + seq![0u8, 24u8, 0u8, 0u8]
}

/// The request to put a picture on the screen.
pub fn put_image(dst_x: i16, dst_y: i16, width: u16, height: u16, data: &[u8]) -> (out: Vec<u8>)
    ensures
        out@ == put_image_head(dst_x, dst_y, width, height, data@.len() as int) + data@,
{
    let mut out: Vec<u8> = Vec::new();
    out.push(72);
    out.push(2);
    assert(out@ =~= seq![72u8, 2u8]);
    let words: u128 = (data.len() as u128 + 27) / 4;
    wire::push_le16(&mut out, (words % 0x1_0000) as u16);
    wire::push_le32(&mut out, ROOT_DRAWABLE);
    wire::push_le32(&mut out, 0);
    wire::push_le16(&mut out, width);
    wire::push_le16(&mut out, height);
    wire::push_le16(&mut out, wire::to_bits16(dst_x));
    wire::push_le16(&mut out, wire::to_bits16(dst_y));
    let ghost head = out@;
    out.push(0);
    out.push(24);
    out.push(0);
    out.push(0);
    assert(out@ =~= head + seq![0u8, 24u8, 0u8, 0u8]);
    wire::push_all(&mut out, data);
    out
}

/// The picture of a frame: the background, and the ball on it.
pub open spec fn ball_picture(ball: Ball) -> Seq<u8> {
    Seq::new(
        (4 * (WIDTH * HEIGHT)) as nat,
        |at: int|
            drawn_byte(
                Seq::new((4 * (WIDTH * HEIGHT)) as nat, |i: int| BACKGROUND@[i % 4]),
                ball.x as int,
                ball.y as int,
                RADIUS as int,
                WIDTH as int,
                HEIGHT as int,
                at,
            ),
    )
}

/// Draws the picture of a frame.
pub fn draw_frame(ball: Ball) -> (buf: Vec<u8>)
    requires
        reachable(ball.x, RADIUS),
        reachable(ball.y, RADIUS),
    ensures
        buf@ == ball_picture(ball),
{
    let total: usize = WIDTH as usize * HEIGHT as usize * 4;
    let mut buf: Vec<u8> = Vec::new();
    let mut i: usize = 0;
    while i < total
        invariant
            i <= total,
            buf@.len() == i,
            forall|k: int| 0 <= k < i ==> #[trigger] buf@[k] == BACKGROUND@[k % 4],
        decreases total - i,
    {
        buf.push(BACKGROUND[i % 4]);
        i += 1;
    }
    let ghost plain = Seq::new((4 * (WIDTH * HEIGHT)) as nat, |i: int| BACKGROUND@[i % 4]);
    assert(buf@ =~= plain);
    draw_ball(&mut buf, ball.x, ball.y, RADIUS, WIDTH, HEIGHT);
    assert(buf@ =~= ball_picture(ball));
    buf
}

} // verus!
