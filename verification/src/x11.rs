//! The X11 connection setup: what a client asks for, and the reply that lets it
//! in.

use vstd::prelude::*;

use crate::text;
use crate::wire;

verus! {

/// Which byte of a number comes first.
#[derive(Debug, Clone, Copy, PartialEq, Eq, Structural)]
pub enum ByteOrder {
    LsbFirst,
    MsbFirst,
}

impl ByteOrder {
    /// The bytes of a number of 16 bits.
    pub open spec fn bytes16(self, x: u16) -> Seq<u8> {
        match self {
            ByteOrder::LsbFirst => wire::le16(x),
            ByteOrder::MsbFirst => wire::be16(x),
        }
    }

    /// The bytes of a number of 32 bits.
    pub open spec fn bytes32(self, x: u32) -> Seq<u8> {
        match self {
            ByteOrder::LsbFirst => wire::le32(x),
            ByteOrder::MsbFirst => wire::be32(x),
        }
    }

    /// The number that the bytes at `at` hold.
    pub open spec fn get16(self, b: Seq<u8>, at: int) -> u16 {
        match self {
            ByteOrder::LsbFirst => wire::get_le16(b, at),
            ByteOrder::MsbFirst => wire::get_be16(b, at),
        }
    }

    pub open spec fn get32(self, b: Seq<u8>, at: int) -> u32 {
        match self {
            ByteOrder::LsbFirst => wire::get_le32(b, at),
            ByteOrder::MsbFirst => wire::get_be32(b, at),
        }
    }

    fn u16_at(self, b: &[u8], at: usize) -> (x: u16)
        requires
            at + 2 <= b@.len(),
        ensures
            x == self.get16(b@, at as int),
    {
        match self {
            ByteOrder::LsbFirst => wire::read_le16(b, at),
            ByteOrder::MsbFirst => wire::read_be16(b, at),
        }
    }

    /// The number that the first two bytes hold.
    pub fn read_u16(self, bytes: &[u8]) -> (x: Result<u16, String>)
        ensures
            match x {
                Ok(n) => bytes@.len() >= 2 && n == self.get16(bytes@, 0),
                Err(why) => bytes@.len() < 2 && why@ == "not enough bytes for u16"@,
            },
    {
        if bytes.len() < 2 {
            return Err("not enough bytes for u16".to_owned());
        }
        Ok(self.u16_at(bytes, 0))
    }

    /// The number that the first four bytes hold.
    pub fn read_u32(self, bytes: &[u8]) -> (x: Result<u32, String>)
        ensures
            match x {
                Ok(n) => bytes@.len() >= 4 && n == self.get32(bytes@, 0),
                Err(why) => bytes@.len() < 4 && why@ == "not enough bytes for u32"@,
            },
    {
        if bytes.len() < 4 {
            return Err("not enough bytes for u32".to_owned());
        }
        Ok(
            match self {
                ByteOrder::LsbFirst => wire::read_le32(bytes, 0),
                ByteOrder::MsbFirst => wire::read_be32(bytes, 0),
            },
        )
    }

    /// The signed number that the first two bytes hold.
    pub fn read_i16(self, bytes: &[u8]) -> (x: Result<i16, String>)
        ensures
            match x {
                Ok(n) => bytes@.len() >= 2 && n == wire::signed16(self.get16(bytes@, 0)),
                Err(why) => bytes@.len() < 2 && why@ == "not enough bytes for u16"@,
            },
    {
        match self.read_u16(bytes) {
            Ok(n) => Ok(wire::from_bits16(n)),
            Err(why) => Err(why),
        }
    }

    pub fn write_u16(self, val: u16, out: &mut Vec<u8>)
        ensures
            final(out)@ == old(out)@ + self.bytes16(val),
    {
        match self {
            ByteOrder::LsbFirst => wire::push_le16(out, val),
            ByteOrder::MsbFirst => wire::push_be16(out, val),
        }
    }

    pub fn write_u32(self, val: u32, out: &mut Vec<u8>)
        ensures
            final(out)@ == old(out)@ + self.bytes32(val),
    {
        match self {
            ByteOrder::LsbFirst => wire::push_le32(out, val),
            ByteOrder::MsbFirst => wire::push_be32(out, val),
        }
    }
}

/// What a client asks for.
#[derive(Debug, Clone)]
pub struct SetupRequest {
    pub byte_order: ByteOrder,
    pub protocol_major: u16,
    pub protocol_minor: u16,
    pub auth_name: Vec<u8>,
    pub auth_data: Vec<u8>,
}

/// How many bytes are missing to a multiple of four.
pub open spec fn gap(len: int) -> int {
    (4 - len % 4) % 4
}

/// The zeros that fill up to a multiple of four.
pub open spec fn filling(len: int) -> Seq<u8> {
    Seq::new(gap(len) as nat, |i: int| 0u8)
}

/// The byte order that a byte stands for.
pub open spec fn order_of(b: u8) -> Option<ByteOrder> {
    if b == 0x6c {
        Some(ByteOrder::LsbFirst)
    } else if b == 0x42 {
        Some(ByteOrder::MsbFirst)
    } else {
        None
    }
}

/// Why a field of `len` bytes at `at`, filled up, cannot be read, if so.
pub open spec fn field_refusal(total: int, at: int, len: int) -> Option<Seq<char>> {
    if at + len > total {
        Some("padded read out of range"@)
    } else if at + len + gap(len) > total {
        Some("padding read out of range"@)
    } else {
        None
    }
}

/// What reading a setup request gives: the request and how many bytes it took, or
/// what is wrong with it first.
pub open spec fn setup_outcome(b: Seq<u8>, answer: Result<(SetupRequest, usize), String>) -> bool {
    if b.len() < 12 {
        answer is Err && answer->Err_0@ == "setup request too short"@
    } else if order_of(b[0]) is None {
        answer is Err && answer->Err_0@ == "invalid byte order byte "@ + text::decimal(b[0] as nat)
    } else {
        let order = order_of(b[0])->0;
        let name_len = order.get16(b, 6) as int;
        let data_len = order.get16(b, 8) as int;
        let data_at = 12 + name_len + gap(name_len);
        match field_refusal(b.len() as int, 12, name_len) {
            Some(why) => answer is Err && answer->Err_0@ == "reading auth name: "@ + why,
            None => match field_refusal(b.len() as int, data_at, data_len) {
                Some(why) => answer is Err && answer->Err_0@ == "reading auth data: "@ + why,
                None => {
                    &&& answer is Ok
                    &&& answer->Ok_0.0.byte_order == order
                    &&& answer->Ok_0.0.protocol_major == order.get16(b, 2)
                    &&& answer->Ok_0.0.protocol_minor == order.get16(b, 4)
                    &&& answer->Ok_0.0.auth_name@ == b.subrange(12, 12 + name_len)
                    &&& answer->Ok_0.0.auth_data@ == b.subrange(data_at, data_at + data_len)
                    &&& answer->Ok_0.1 == data_at + data_len + gap(data_len)
                },
            },
        }
    }
}

fn read_padded(buf: &[u8], offset: &mut usize, len: usize, context: &str) -> (field: Result<
    Vec<u8>,
    String,
>)
    requires
        *old(offset) <= buf@.len(),
        len <= 0xffff,
    ensures
        match field_refusal(buf@.len() as int, *old(offset) as int, len as int) {
            Some(why) => {
                &&& field is Err
                &&& field->Err_0@ == context@ + why
                &&& *final(offset) == *old(offset)
            },
            None => {
                &&& field is Ok
                &&& field->Ok_0@ == buf@.subrange(
                    *old(offset) as int,
                    *old(offset) as int + len as int,
                )
                &&& *final(offset) == *old(offset) + len + gap(len as int)
                &&& *final(offset) <= buf@.len()
            },
        },
{
    let start: usize = *offset;
    let left: usize = buf.len() - start;
    if len > left {
        let mut why = context.to_owned();
        why.append("padded read out of range");
        return Err(why);
    }
    let pad: usize = (4 - (len % 4)) % 4;
    if pad > left - len {
        let mut why = context.to_owned();
        why.append("padding read out of range");
        return Err(why);
    }
    let mut field: Vec<u8> = Vec::new();
    wire::push_all(&mut field, vstd::slice::slice_subrange(buf, start, start + len));
    assert(field@ =~= buf@.subrange(start as int, start + len));
    *offset = start + len + pad;
    Ok(field)
}

/// Reads a setup request, and tells how many bytes it took.
pub fn parse_setup_request(buf: &[u8]) -> (answer: Result<(SetupRequest, usize), String>)
    ensures
        setup_outcome(buf@, answer),
{
    if buf.len() < 12 {
        return Err("setup request too short".to_owned());
    }
    let byte_order = if buf[0] == 0x6c {
        ByteOrder::LsbFirst
    } else if buf[0] == 0x42 {
        ByteOrder::MsbFirst
    } else {
        let mut why = "invalid byte order byte ".to_owned();
        text::push_decimal(&mut why, buf[0] as u64);
        return Err(why);
    };
    let protocol_major: u16 = byte_order.u16_at(buf, 2);
    let protocol_minor: u16 = byte_order.u16_at(buf, 4);
    let auth_name_len: usize = byte_order.u16_at(buf, 6) as usize;
    let auth_data_len: usize = byte_order.u16_at(buf, 8) as usize;
    let mut offset: usize = 12;
    let auth_name = match read_padded(buf, &mut offset, auth_name_len, "reading auth name: ") {
        Ok(name) => name,
        Err(why) => return Err(why),
    };
    let auth_data = match read_padded(buf, &mut offset, auth_data_len, "reading auth data: ") {
        Ok(data) => data,
        Err(why) => return Err(why),
    };
    Ok((SetupRequest { byte_order, protocol_major, protocol_minor, auth_name, auth_data }, offset))
}

/// The bytes of a setup request.
pub open spec fn setup_request(
    order: ByteOrder,
    major: u16,
    minor: u16,
    name: Seq<u8>,
    data: Seq<u8>,
) -> Seq<u8> {
    seq![
        if order == ByteOrder::LsbFirst {
            0x6cu8
        } else {
            0x42u8
        },
        0u8,
    ] + order.bytes16(major) + order.bytes16(minor) + order.bytes16(name.len() as u16)
        + order.bytes16(data.len() as u16) + seq![0u8, 0u8] + name + filling(name.len() as int)
        + data + filling(data.len() as int)
}

proof fn lemma_field16(order: ByteOrder, b: Seq<u8>, at: int, x: u16)
    requires
        0 <= at,
        at + 2 <= b.len(),
        b.subrange(at, at + 2) == order.bytes16(x),
    ensures
        order.get16(b, at) == x,
{
    let field = b.subrange(at, at + 2);
    assert(field[0] == b[at] && field[1] == b[at + 1]);
}

/// Where the fields of a setup request stand.
proof fn lemma_setup_layout(
    order: ByteOrder,
    major: u16,
    minor: u16,
    name: Seq<u8>,
    data: Seq<u8>,
)
    ensures
        ({
            let b = setup_request(order, major, minor, name, data);
            let at = 12 + name.len() + gap(name.len() as int);
            &&& b.len() == at + data.len() + gap(data.len() as int)
            &&& b[0] == if order == ByteOrder::LsbFirst {
                0x6cu8
            } else {
                0x42u8
            }
            &&& b.subrange(2, 4) == order.bytes16(major)
            &&& b.subrange(4, 6) == order.bytes16(minor)
            &&& b.subrange(6, 8) == order.bytes16(name.len() as u16)
            &&& b.subrange(8, 10) == order.bytes16(data.len() as u16)
            &&& b.subrange(12, (12 + name.len()) as int) == name
            &&& b.subrange(at, at + data.len()) == data
        }),
{
    let b = setup_request(order, major, minor, name, data);
    let f1 = order.bytes16(major);
    let f2 = order.bytes16(minor);
    let f3 = order.bytes16(name.len() as u16);
    let f4 = order.bytes16(data.len() as u16);
    assert(f1.len() == 2 && f2.len() == 2 && f3.len() == 2 && f4.len() == 2);
    let at = 12 + name.len() + gap(name.len() as int);
    assert(b.subrange(2, 4) =~= f1);
    assert(b.subrange(4, 6) =~= f2);
    assert(b.subrange(6, 8) =~= f3);
    assert(b.subrange(8, 10) =~= f4);
    assert(b.subrange(12, (12 + name.len()) as int) =~= name);
    assert(b.subrange(at, at + data.len()) =~= data);
}

/// Reading a setup request that a client wrote gives back what it asked for, and
/// takes all of its bytes.
pub proof fn law_setup_round_trip(
    order: ByteOrder,
    major: u16,
    minor: u16,
    name: Seq<u8>,
    data: Seq<u8>,
    answer: Result<(SetupRequest, usize), String>,
)
    requires
        name.len() <= u16::MAX,
        data.len() <= u16::MAX,
        setup_outcome(setup_request(order, major, minor, name, data), answer),
    ensures
        answer is Ok,
        answer->Ok_0.0.byte_order == order,
        answer->Ok_0.0.protocol_major == major,
        answer->Ok_0.0.protocol_minor == minor,
        answer->Ok_0.0.auth_name@ == name,
        answer->Ok_0.0.auth_data@ == data,
        answer->Ok_0.1 == setup_request(order, major, minor, name, data).len(),
{
    lemma_setup_layout(order, major, minor, name, data);
    let b = setup_request(order, major, minor, name, data);
    assert(order_of(b[0]) == Some(order));
    lemma_field16(order, b, 2, major);
    lemma_field16(order, b, 4, minor);
    lemma_field16(order, b, 6, name.len() as u16);
    lemma_field16(order, b, 8, data.len() as u16);
}

/// What a reply says of a format of pixel maps.
pub open spec fn format_bytes(depth: u8, bits_per_pixel: u8, scanline_pad: u8) -> Seq<u8> {
    seq![depth, bits_per_pixel, scanline_pad, 0u8]
}

/// The name that the server goes by.
pub const VENDOR: [u8; 9] = [110, 111, 115, 101, 98, 108, 101, 101, 100];

/// The release, the identifiers that a client may use, the limits and the
/// server's name.
pub open spec fn reply_server(order: ByteOrder) -> Seq<u8> {
    let fixed = order.bytes32(0x0004_0000) + order.bytes32(0x1000_0000) + order.bytes32(
        0x0fff_f000,
    ) + order.bytes32(0) + order.bytes16(9) + order.bytes16(0xffff) + seq![
        1u8,
        3u8,
        0u8,
        0u8,
        32u8,
        32u8,
        8u8,
        255u8,
    ] + seq![0u8, 0u8, 0u8, 0u8] + VENDOR@;
    fixed + filling(fixed.len() as int)
}

/// The three formats of pixel maps.
pub open spec fn reply_formats() -> Seq<u8> {
    format_bytes(1, 1, 32) + format_bytes(24, 32, 32) + format_bytes(32, 32, 32)
}

/// The one screen: 800 by 600 pixels, 212 by 159 millimetres, 24 bits deep.
pub open spec fn reply_screen(order: ByteOrder) -> Seq<u8> {
    order.bytes32(0x2000_0000) + order.bytes32(0) + order.bytes32(0x00ff_ffff) + order.bytes32(0)
        + order.bytes32(0) + order.bytes16(800) + order.bytes16(600) + order.bytes16(212)
        + order.bytes16(159) + order.bytes16(1) + order.bytes16(1) + order.bytes32(0x21) + seq![
        1u8,
        1u8,
        24u8,
        1u8,
    ]
}

/// The one depth of the screen, and its one visual: red, green and blue, 8 bits
/// each.
pub open spec fn reply_visual(order: ByteOrder) -> Seq<u8> {
    seq![24u8, 0u8] + order.bytes16(1) + seq![0u8, 0u8] + order.bytes32(0x21) + seq![4u8, 24u8]
        + order.bytes16(256) + order.bytes32(0x00ff_0000) + order.bytes32(0x0000_ff00)
        + order.bytes32(0x0000_00ff) + seq![0u8, 0u8, 0u8, 0u8]
}

/// All that follows the head of the reply, filled up to whole words.
pub open spec fn reply_body(order: ByteOrder) -> Seq<u8> {
    let body = reply_server(order) + reply_formats() + reply_screen(order) + reply_visual(order);
    body + filling(body.len() as int)
}

/// The reply: a success, for protocol 11.0, and how many words follow.
pub open spec fn setup_reply(order: ByteOrder) -> Seq<u8> {
    seq![1u8, 0u8] + order.bytes16(11) + order.bytes16(0) + order.bytes16(
        (reply_body(order).len() / 4) as u16,
    ) + reply_body(order)
}

fn push_two(out: &mut Vec<u8>, a: u8, b: u8)
    ensures
        final(out)@ == old(out)@ + seq![a, b],
{
    out.push(a);
    out.push(b);
    assert(out@ =~= old(out)@ + seq![a, b]);
}

fn push_four(out: &mut Vec<u8>, a: u8, b: u8, c: u8, d: u8)
    ensures
        final(out)@ == old(out)@ + seq![a, b, c, d],
{
    out.push(a);
    out.push(b);
    out.push(c);
    out.push(d);
    assert(out@ =~= old(out)@ + seq![a, b, c, d]);
}

fn push_format(depth: u8, bits_per_pixel: u8, scanline_pad: u8, out: &mut Vec<u8>)
    ensures
        final(out)@ == old(out)@ + format_bytes(depth, bits_per_pixel, scanline_pad),
{
    push_four(out, depth, bits_per_pixel, scanline_pad, 0);
}

fn pad4(out: &mut Vec<u8>)
    ensures
        final(out)@ == old(out)@ + filling(old(out)@.len() as int),
{
    let pad: usize = (4 - (out.len() % 4)) % 4;
    let mut i: usize = 0;
    assert(out@ =~= old(out)@ + Seq::new(0, |k: int| 0u8));
    while i < pad
        invariant
            i <= pad,
            out@ == old(out)@ + Seq::new(i as nat, |k: int| 0u8),
        decreases pad - i,
    {
        out.push(0);
        i += 1;
        assert(out@ =~= old(out)@ + Seq::new(i as nat, |k: int| 0u8));
    }
}

fn build_server(byte_order: ByteOrder) -> (out: Vec<u8>)
    ensures
        out@ == reply_server(byte_order),
{
    let mut out: Vec<u8> = Vec::new();
    byte_order.write_u32(0x0004_0000, &mut out);
    assert(out@ =~= byte_order.bytes32(0x0004_0000));
    byte_order.write_u32(0x1000_0000, &mut out);
    byte_order.write_u32(0x0fff_f000, &mut out);
    byte_order.write_u32(0, &mut out);
    byte_order.write_u16(9, &mut out);
    byte_order.write_u16(0xffff, &mut out);
    let ghost limits = out@;
    push_four(&mut out, 1, 3, 0, 0);
    push_four(&mut out, 32, 32, 8, 255);
    assert(out@ =~= limits + seq![1u8, 3u8, 0u8, 0u8, 32u8, 32u8, 8u8, 255u8]);
    push_four(&mut out, 0, 0, 0, 0);
    wire::push_all(&mut out, &VENDOR);
    pad4(&mut out);
    out
}

fn push_screen(byte_order: ByteOrder, out: &mut Vec<u8>)
    ensures
        final(out)@ == old(out)@ + reply_screen(byte_order),
{
    byte_order.write_u32(0x2000_0000, out);
    byte_order.write_u32(0, out);
    byte_order.write_u32(0x00ff_ffff, out);
    byte_order.write_u32(0, out);
    byte_order.write_u32(0, out);
    byte_order.write_u16(800, out);
    byte_order.write_u16(600, out);
    byte_order.write_u16(212, out);
    byte_order.write_u16(159, out);
    byte_order.write_u16(1, out);
    byte_order.write_u16(1, out);
    byte_order.write_u32(0x21, out);
    push_four(out, 1, 1, 24, 1);
    assert(out@ =~= old(out)@ + reply_screen(byte_order));
}

fn push_visual(byte_order: ByteOrder, out: &mut Vec<u8>)
    ensures
        final(out)@ == old(out)@ + reply_visual(byte_order),
{
    push_two(out, 24, 0);
    byte_order.write_u16(1, out);
    push_two(out, 0, 0);
    byte_order.write_u32(0x21, out);
    push_two(out, 4, 24);
    byte_order.write_u16(256, out);
    byte_order.write_u32(0x00ff_0000, out);
    byte_order.write_u32(0x0000_ff00, out);
    byte_order.write_u32(0x0000_00ff, out);
    push_four(out, 0, 0, 0, 0);
    assert(out@ =~= old(out)@ + reply_visual(byte_order));
}

/// The reply that lets a client in: one screen, and one visual with true colour.
pub fn build_setup_success(byte_order: ByteOrder) -> (out: Vec<u8>)
    ensures
        out@ == setup_reply(byte_order),
{
    let mut body = build_server(byte_order);
    let ghost server = body@;
    push_format(1, 1, 32, &mut body);
    push_format(24, 32, 32, &mut body);
    push_format(32, 32, 32, &mut body);
    assert(body@ =~= server + reply_formats());
    push_screen(byte_order, &mut body);
    push_visual(byte_order, &mut body);
    pad4(&mut body);

    proof {
        lemma_reply_sizes(byte_order);
    }
    let mut out: Vec<u8> = Vec::new();
    push_two(&mut out, 1, 0);
    assert(out@ =~= seq![1u8, 0u8]);
    byte_order.write_u16(11, &mut out);
    byte_order.write_u16(0, &mut out);
    byte_order.write_u16((body.len() / 4) as u16, &mut out);
    wire::push_all(&mut out, body.as_slice());
    out
}

proof fn lemma_sizes(order: ByteOrder, x: u32)
    ensures
        order.bytes32(x).len() == 4,
{
    wire::lemma_widths(x, 0);
}

proof fn lemma_reply_sizes(order: ByteOrder)
    ensures
        reply_body(order).len() == 128,
{
    assert forall|x: u32| (#[trigger] order.bytes32(x)).len() == 4 by {
        lemma_sizes(order, x);
    }
    assert(reply_server(order).len() == 44);
    assert(reply_formats().len() == 12);
    assert(reply_screen(order).len() == 40);
    assert(reply_visual(order).len() == 30);
}

/// The reply begins with a success, and its length field tells how many words
/// follow the first eight bytes.
pub proof fn law_reply_length(order: ByteOrder)
    ensures
        setup_reply(order)[0] == 1,
        4 * order.get16(setup_reply(order), 6) + 8 == setup_reply(order).len(),
{
    lemma_reply_sizes(order);
    let b = setup_reply(order);
    assert(order.get16(b, 6) == 32);
}

} // verus!
