use nosebleed::bounce::{
    draw_ball, draw_frame, put_image, reply_rest, setup_request, Ball, BACKGROUND, BALL, HEIGHT,
    WIDTH,
};
use nosebleed::x11::{build_setup_success, parse_setup_request, ByteOrder};

#[test]
fn parse_setup_request_roundtrip() {
    // Little endian request with auth strings.
    let mut buf = Vec::new();
    buf.extend_from_slice(&[
        b'l', 0, // byte order + pad
    ]);
    buf.extend_from_slice(&11u16.to_le_bytes()); // major
    buf.extend_from_slice(&0u16.to_le_bytes()); // minor
    buf.extend_from_slice(&4u16.to_le_bytes()); // auth name len
    buf.extend_from_slice(&3u16.to_le_bytes()); // auth data len
    buf.extend_from_slice(&[0, 0]); // pad
    buf.extend_from_slice(b"MIT1"); // already aligned, no pad
    buf.extend_from_slice(b"abc");
    buf.extend_from_slice(&[0]); // pad to 4

    let (req, used) = parse_setup_request(&buf).unwrap();
    assert_eq!(used, buf.len());
    assert_eq!(req.byte_order, ByteOrder::LsbFirst);
    assert_eq!(req.protocol_major, 11);
    assert_eq!(req.protocol_minor, 0);
    assert_eq!(req.auth_name, b"MIT1");
    assert_eq!(req.auth_data, b"abc");
}

#[test]
fn build_setup_success_length_matches() {
    let reply = build_setup_success(ByteOrder::LsbFirst);
    // Length field equals (total - 8) / 4
    let len_field = u16::from_le_bytes([reply[6], reply[7]]);
    assert_eq!(len_field as usize * 4 + 8, reply.len());
    assert_eq!(reply[0], 1);
}

#[test]
fn both_byte_orders_say_the_same() {
    let little = build_setup_success(ByteOrder::LsbFirst);
    let big = build_setup_success(ByteOrder::MsbFirst);
    assert_eq!(little.len(), 136);
    assert_eq!(big.len(), 136);
    assert_eq!(&little[40..49], b"nosebleed");
    assert_eq!(&little[64..68], &[0, 0, 0, 0x20]);
    assert_eq!(&big[64..68], &[0x20, 0, 0, 0]);
    assert_eq!(u16::from_be_bytes([big[6], big[7]]), 32);
}

#[test]
fn numbers_are_read_in_both_orders() {
    assert_eq!(ByteOrder::LsbFirst.read_u16(&[1, 2]), Ok(0x0201));
    assert_eq!(ByteOrder::MsbFirst.read_u16(&[1, 2]), Ok(0x0102));
    assert_eq!(ByteOrder::LsbFirst.read_u32(&[1, 2, 3, 4]), Ok(0x0403_0201));
    assert_eq!(ByteOrder::MsbFirst.read_u32(&[1, 2, 3, 4]), Ok(0x0102_0304));
    assert_eq!(ByteOrder::MsbFirst.read_i16(&[0xff, 0xfe]), Ok(-2));
    assert_eq!(
        ByteOrder::LsbFirst.read_u16(&[1]).unwrap_err(),
        "not enough bytes for u16"
    );
    assert_eq!(
        ByteOrder::LsbFirst.read_u32(&[1, 2, 3]).unwrap_err(),
        "not enough bytes for u32"
    );
}

#[test]
fn broken_requests_are_told_apart() {
    let why = |bytes: &[u8]| parse_setup_request(bytes).unwrap_err();
    assert_eq!(why(&[0; 11]), "setup request too short");
    assert_eq!(why(&[0x41; 12]), "invalid byte order byte 65");
    let mut name = vec![b'l', 0, 11, 0, 0, 0, 5, 0, 0, 0, 0, 0];
    assert_eq!(why(&name), "reading auth name: padded read out of range");
    name.extend_from_slice(b"hello");
    assert_eq!(why(&name), "reading auth name: padding read out of range");
    let data = vec![b'l', 0, 11, 0, 0, 0, 0, 0, 1, 0, 0, 0];
    assert_eq!(why(&data), "reading auth data: padded read out of range");
}

#[test]
fn what_the_ball_client_sends_is_understood() {
    let (request, used) = parse_setup_request(&setup_request()).unwrap();
    assert_eq!(used, 12);
    assert_eq!((request.protocol_major, request.protocol_minor), (11, 0));
    let reply = build_setup_success(ByteOrder::LsbFirst);
    assert_eq!(reply_rest(&reply), reply.len() - 8);
}

#[test]
fn the_ball_bounces() {
    let mut ball = Ball::start();
    assert_eq!(ball, Ball { x: 50, y: 50, vx: 2, vy: 2 });
    for _ in 0..1_000 {
        ball.step();
        assert!(ball.x >= 30 && ball.x + 30 < WIDTH as i32);
        assert!(ball.y >= 30 && ball.y + 30 < HEIGHT as i32);
    }
    let mut edge = Ball { x: 31, y: 100, vx: -5, vy: 0 };
    edge.step();
    assert_eq!(edge, Ball { x: 30, y: 100, vx: 5, vy: 0 });
}

#[test]
fn a_ball_is_drawn() {
    let mut buf = vec![0u8; 5 * 5 * 4];
    draw_ball(&mut buf, 2, 2, 1, 5, 5);
    let painted: Vec<usize> = (0..25).filter(|p| buf[p * 4..p * 4 + 4] == BALL).collect();
    assert_eq!(painted, vec![7, 11, 12, 13, 17]);
    let mut corner = vec![0u8; 4];
    draw_ball(&mut corner, 0, 0, 3, 1, 1);
    assert_eq!(corner, BALL.to_vec());
    let mut untouched = vec![9u8; 4];
    draw_ball(&mut untouched, 0, 0, -1, 1, 1);
    draw_ball(&mut untouched, i32::MAX - 2, i32::MIN + 2, 2, 1, 1);
    assert_eq!(untouched, vec![9u8; 4]);
}

#[test]
fn a_frame_is_put_on_the_screen() {
    let frame = draw_frame(Ball { x: 50, y: 50, vx: 2, vy: 2 });
    assert_eq!(frame.len(), 320 * 240 * 4);
    assert_eq!(frame[..4].to_vec(), BACKGROUND.to_vec());
    let middle = (50 * 320 + 50) * 4;
    assert_eq!(frame[middle..middle + 4].to_vec(), BALL.to_vec());
    let request = put_image(0, -1, WIDTH, HEIGHT, &frame);
    assert_eq!(request.len(), 24 + frame.len());
    assert_eq!(request[0], 72);
    let words = (request.len() / 4) % 65_536;
    assert_eq!(u16::from_le_bytes([request[2], request[3]]) as usize, words);
    assert_eq!(request[18..20].to_vec(), vec![0xff, 0xff]);
}
