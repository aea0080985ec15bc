//! Low-level wire encoding: 32-bit little-endian words, 4-byte alignment,
//! length-prefixed strings and arrays, and message framing.
//!
//! A frame is `object id (4 bytes) | length << 16 | opcode (4 bytes) | payload`,
//! and every complete frame is a multiple of 4 bytes long.

use vstd::bytes::{spec_u32_from_le_bytes, spec_u32_to_le_bytes, u32_from_le_bytes, u32_to_le_bytes};
use vstd::prelude::*;
use vstd::utf8::encode_utf8;

verus! {

/// Size of the fixed frame header in bytes: object id plus the packed
/// length-and-opcode word.
pub const HEADER_SIZE: usize = 4 + 2 + 2;

/// Size in bytes rounded up to the next multiple of 4.
pub open spec fn spec_aligned_size(n: int) -> int {
    ((n + 3) / 4) * 4
}

/// Rounds a byte count up to the next multiple of 4, the wire alignment unit.
pub fn str_aligned_size(base_size: usize) -> (r: usize)
    requires
        base_size + 3 <= usize::MAX,
    ensures
        r == spec_aligned_size(base_size as int),
{
    proof {
        assert(((base_size + 3) / 4) * 4 <= base_size + 3) by (nonlinear_arith);
    }
    ((base_size + 3) / 4) * 4
}

/// The unsigned word carrying the two's-complement bits of a signed value,
/// which is how signed integers travel on the wire.
pub open spec fn u32_of_i32(v: i32) -> u32 {
    if v >= 0 {
        v as u32
    } else {
        (v + 0x1_0000_0000) as u32
    }
}

/// Reinterprets a signed 32-bit value as its wire word.
pub fn i32_bits(v: i32) -> (r: u32)
    ensures
        r == u32_of_i32(v),
{
    if v >= 0 {
        v as u32
    } else {
        let wide: i64 = v as i64 + 0x1_0000_0000i64;
        wide as u32
    }
}

/// Recovers the signed value from its wire word.
pub fn i32_from_bits(w: u32) -> (r: i32)
    ensures
        u32_of_i32(r) == w,
{
    if w <= 0x7FFF_FFFFu32 {
        w as i32
    } else {
        let wide: i64 = w as i64 - 0x1_0000_0000i64;
        wide as i32
    }
}

/// One argument of a request as it is serialised: plain words, a
/// length-prefixed string or byte array, or a file descriptor that travels
/// out of band and contributes no payload bytes.
pub enum WireValue {
    Uint32(u32),
    Int32(i32),
    Str(String),
    Array(Vec<u8>),
    FileDesc(i32),
}

/// Encoding of a string: its UTF-8 bytes and a null terminator behind a
/// 4-byte size prefix (the size counts the terminator), zero-padded to a
/// 4-byte boundary.
pub open spec fn spec_encode_str(s: Seq<char>) -> Seq<u8> {
    let b = encode_utf8(s);
    let sz = b.len() + 1;
    spec_u32_to_le_bytes(sz as u32) + b + seq![0u8] + Seq::new(
        (spec_aligned_size(sz as int) - sz) as nat,
        |i: int| 0u8,
    )
}

/// Encoding of a byte array: the raw bytes behind a 4-byte size prefix,
/// zero-padded to a 4-byte boundary.
pub open spec fn spec_encode_array(a: Seq<u8>) -> Seq<u8> {
    spec_u32_to_le_bytes(a.len() as u32) + a + Seq::new(
        (spec_aligned_size(a.len() as int) - a.len()) as nat,
        |i: int| 0u8,
    )
}

/// The payload bytes one wire value contributes.
pub open spec fn spec_encode_value(v: WireValue) -> Seq<u8> {
    match v {
        WireValue::Uint32(x) => spec_u32_to_le_bytes(x),
        WireValue::Int32(x) => spec_u32_to_le_bytes(u32_of_i32(x)),
        WireValue::Str(s) => spec_encode_str(s@),
        WireValue::Array(a) => spec_encode_array(a@),
        WireValue::FileDesc(_) => Seq::empty(),
    }
}

/// The payload bytes of a value sequence, in declaration order.
pub open spec fn spec_encode_values(vs: Seq<WireValue>) -> Seq<u8>
    decreases vs.len(),
{
    if vs.len() == 0 {
        Seq::empty()
    } else {
        spec_encode_value(vs[0]) + spec_encode_values(vs.skip(1))
    }
}

/// How many file descriptors a value sequence carries.
pub open spec fn spec_fd_count(vs: Seq<WireValue>) -> int
    decreases vs.len(),
{
    if vs.len() == 0 {
        0
    } else {
        (if vs[0] is FileDesc {
            1int
        } else {
            0int
        }) + spec_fd_count(vs.skip(1))
    }
}

/// The file descriptor a value sequence carries, when it carries one.
pub open spec fn spec_fd_of(vs: Seq<WireValue>) -> Option<i32>
    decreases vs.len(),
{
    if vs.len() == 0 {
        None
    } else if vs[0] is FileDesc {
        Some(vs[0]->FileDesc_0)
    } else {
        spec_fd_of(vs.skip(1))
    }
}

/// Whether a value's size field fits in the 32-bit prefix the wire uses.
pub open spec fn spec_value_fits(v: WireValue) -> bool {
    match v {
        WireValue::Str(s) => encode_utf8(s@).len() + 4 <= 0xFFFF_FFFF,
        WireValue::Array(a) => a@.len() + 4 <= 0xFFFF_FFFF,
        _ => true,
    }
}

pub open spec fn spec_values_fit(vs: Seq<WireValue>) -> bool {
    forall|i: int| 0 <= i < vs.len() ==> spec_value_fits(#[trigger] vs[i])
}

pub proof fn lemma_encode_values_push(vs: Seq<WireValue>, v: WireValue)
    ensures
        spec_encode_values(vs.push(v)) == spec_encode_values(vs) + spec_encode_value(v),
        spec_fd_count(vs.push(v)) == spec_fd_count(vs) + (if v is FileDesc {
            1int
        } else {
            0int
        }),
        spec_fd_of(vs.push(v)) == (if spec_fd_of(vs) is Some {
            spec_fd_of(vs)
        } else if v is FileDesc {
            Some(v->FileDesc_0)
        } else {
            None::<i32>
        }),
    decreases vs.len(),
{
    if vs.len() == 0 {
        let p = vs.push(v);
        assert(p.len() == 1);
        assert(p[0] == v);
        assert(p.skip(1) =~= Seq::<WireValue>::empty());
        reveal_with_fuel(spec_encode_values, 2);
        reveal_with_fuel(spec_fd_count, 2);
        reveal_with_fuel(spec_fd_of, 2);
        assert(spec_encode_values(p) == spec_encode_value(v) + spec_encode_values(p.skip(1)));
        assert(spec_encode_values(p.skip(1)) =~= Seq::<u8>::empty());
        assert(spec_encode_value(v) + Seq::<u8>::empty() =~= spec_encode_value(v));
        assert(spec_encode_values(vs) + spec_encode_value(v) =~= spec_encode_value(v));
    } else {
        assert(vs.push(v).skip(1) =~= vs.skip(1).push(v));
        lemma_encode_values_push(vs.skip(1), v);
        assert(spec_encode_values(vs.push(v)) =~= spec_encode_value(vs[0]) + (spec_encode_values(
            vs.skip(1),
        ) + spec_encode_value(v)));
        assert(spec_encode_value(vs[0]) + (spec_encode_values(vs.skip(1)) + spec_encode_value(v))
            =~= spec_encode_values(vs) + spec_encode_value(v));
    }
}

/// Appends the bytes of a slice.
pub fn push_bytes(out: &mut Vec<u8>, data: &[u8])
    ensures
        final(out)@ == old(out)@ + data@,
{
    let mut i: usize = 0;
    while i < data.len()
        invariant
            i <= data@.len(),
            out@ == old(out)@ + data@.take(i as int),
        decreases data@.len() - i,
    {
        out.push(data[i]);
        proof {
            assert(data@.take(i + 1) =~= data@.take(i as int).push(data@[i as int]));
            assert(old(out)@ + data@.take(i + 1) =~= (old(out)@ + data@.take(i as int)).push(
                data@[i as int],
            ));
        }
        i = i + 1;
    }
    proof {
        assert(data@.take(data@.len() as int) =~= data@);
    }
}

/// Appends `n` zero bytes.
pub fn push_zeros(out: &mut Vec<u8>, n: usize)
    ensures
        final(out)@ == old(out)@ + Seq::new(n as nat, |i: int| 0u8),
{
    let mut i: usize = 0;
    while i < n
        invariant
            i <= n,
            out@ == old(out)@ + Seq::new(i as nat, |j: int| 0u8),
        decreases n - i,
    {
        out.push(0u8);
        proof {
            assert(Seq::new((i + 1) as nat, |j: int| 0u8) =~= Seq::new(i as nat, |j: int| 0u8).push(
                0u8,
            ));
            assert(old(out)@ + Seq::new((i + 1) as nat, |j: int| 0u8) =~= (old(out)@ + Seq::new(
                i as nat,
                |j: int| 0u8,
            )).push(0u8));
        }
        i = i + 1;
    }
}

/// Appends one 32-bit word in wire byte order.
pub fn write_u32(out: &mut Vec<u8>, v: u32)
    ensures
        final(out)@ == old(out)@ + spec_u32_to_le_bytes(v),
{
    proof {
        vstd::bytes::lemma_auto_spec_u32_to_from_le_bytes();
    }
    let mut word = u32_to_le_bytes(v);
    out.append(&mut word);
}

/// Why a message could not be serialised.
#[derive(Clone, Copy, Debug, PartialEq, Eq, Structural)]
pub enum EncodeError {
    /// A string or array is too large for its 32-bit size prefix.
    ValueTooLarge,
    /// The framed message would not fit the 16-bit length field.
    MessageTooLarge,
    /// More than one file descriptor in a single message.
    TooManyFileDescriptors,
}

/// Serialises a value sequence into `out`, returning the file descriptor to
/// attach, if any.  Fails exactly when some value is too large for its size
/// prefix or two values carry file descriptors.
pub fn write_values(out: &mut Vec<u8>, values: &[WireValue]) -> (r: Result<
    Option<i32>,
    EncodeError,
>)
    ensures
        r is Ok <==> spec_values_fit(values@) && spec_fd_count(values@) <= 1,
        r matches Ok(fd) ==> final(out)@ == old(out)@ + spec_encode_values(values@) && fd == spec_fd_of(
            values@,
        ),
        r == Err::<Option<i32>, EncodeError>(EncodeError::ValueTooLarge) ==> exists|i: int|
            0 <= i < values@.len() && !spec_value_fits(#[trigger] values@[i]),
        r == Err::<Option<i32>, EncodeError>(EncodeError::TooManyFileDescriptors) ==> spec_fd_count(
            values@,
        ) >= 2,
        r is Err ==> r == Err::<Option<i32>, EncodeError>(EncodeError::ValueTooLarge) || r == Err::<
            Option<i32>,
            EncodeError,
        >(EncodeError::TooManyFileDescriptors),
{
    let mut fd: Option<i32> = None;
    let mut i: usize = 0;
    while i < values.len()
        invariant
            i <= values@.len(),
            out@ == old(out)@ + spec_encode_values(values@.take(i as int)),
            fd == spec_fd_of(values@.take(i as int)),
            spec_fd_count(values@.take(i as int)) == (if fd is Some {
                1int
            } else {
                0int
            }),
            spec_values_fit(values@.take(i as int)),
        decreases values@.len() - i,
    {
        proof {
            assert(values@.take(i + 1) =~= values@.take(i as int).push(values@[i as int]));
            lemma_encode_values_push(values@.take(i as int), values@[i as int]);
        }
        match &values[i] {
            WireValue::Uint32(x) => {
                write_u32(out, *x);
            },
            WireValue::Int32(x) => {
                write_u32(out, i32_bits(*x));
            },
            WireValue::Str(s) => {
                let bytes: &[u8] = s.as_str().as_bytes();
                if bytes.len() >= 0xFFFF_FFFCusize {
                    return Err(EncodeError::ValueTooLarge);
                }
                let sz: usize = bytes.len() + 1;
                write_u32(out, sz as u32);
                push_bytes(out, bytes);
                out.push(0u8);
                let padding: usize = str_aligned_size(sz) - sz;
                push_zeros(out, padding);
                proof {
                    assert(out@ =~= old(out)@ + spec_encode_values(values@.take(i + 1)));
                }
            },
            WireValue::Array(a) => {
                if a.len() >= 0xFFFF_FFFCusize {
                    return Err(EncodeError::ValueTooLarge);
                }
                write_u32(out, a.len() as u32);
                push_bytes(out, a.as_slice());
                let padding: usize = str_aligned_size(a.len()) - a.len();
                push_zeros(out, padding);
                proof {
                    assert(out@ =~= old(out)@ + spec_encode_values(values@.take(i + 1)));
                }
            },
            WireValue::FileDesc(new_fd) => {
                if fd.is_some() {
                    proof {
                        lemma_fd_count_le(values@, i as int);
                    }
                    return Err(EncodeError::TooManyFileDescriptors);
                }
                fd = Some(*new_fd);
            },
        }
        i = i + 1;
    }
    proof {
        assert(values@.take(values@.len() as int) =~= values@);
    }
    Ok(fd)
}

/// A prefix with two file descriptors bounds the whole sequence's count from
/// below.
proof fn lemma_fd_count_le(vs: Seq<WireValue>, i: int)
    requires
        0 <= i < vs.len(),
        spec_fd_count(vs.take(i)) == 1,
        vs[i] is FileDesc,
    ensures
        spec_fd_count(vs) >= 2,
    decreases i,
{
    if i == 0 {
        assert(false);
    } else {
        if vs[0] is FileDesc {
            lemma_fd_count_nonneg(vs.skip(1));
            lemma_fd_count_split(vs.skip(1), i - 1);
        } else {
            assert(vs.take(i).skip(1) =~= vs.skip(1).take(i - 1));
            lemma_fd_count_le(vs.skip(1), i - 1);
        }
    }
}

proof fn lemma_fd_count_nonneg(vs: Seq<WireValue>)
    ensures
        spec_fd_count(vs) >= 0,
    decreases vs.len(),
{
    if vs.len() > 0 {
        lemma_fd_count_nonneg(vs.skip(1));
    }
}

/// An element that is a file descriptor contributes one to the count.
proof fn lemma_fd_count_split(vs: Seq<WireValue>, i: int)
    requires
        0 <= i < vs.len(),
        vs[i] is FileDesc,
    ensures
        spec_fd_count(vs) >= 1,
    decreases i,
{
    lemma_fd_count_nonneg(vs.skip(1));
    if i > 0 {
        lemma_fd_count_split(vs.skip(1), i - 1);
    }
}

} // verus!

use vstd::bytes::lemma_auto_spec_u32_to_from_le_bytes;

verus! {

/// A request ready to be framed: destination object, opcode, and arguments.
pub struct WireMessage<'a> {
    pub object_id: u32,
    pub request_id: u32,
    pub values: &'a [WireValue],
}


/// The decoded fixed header of an incoming frame.
#[derive(Clone, Copy, Debug)]
pub struct WireMsgHeader {
    pub object_id: u32,
    pub length: u16,
    pub method_id: u16,
}

/// Builds a 32-bit word from its four wire bytes, least significant first.
pub fn u32_from_wire(b0: u8, b1: u8, b2: u8, b3: u8) -> (r: u32)
    ensures
        r == spec_u32_from_le_bytes(seq![b0, b1, b2, b3]),
{
    let mut v: Vec<u8> = Vec::new();
    v.push(b0);
    v.push(b1);
    v.push(b2);
    v.push(b3);
    proof {
        assert(v@ =~= seq![b0, b1, b2, b3]);
    }
    u32_from_le_bytes(v.as_slice())
}

/// The packed second header word: total length in the high 16 bits, opcode in
/// the low 16 bits.
pub open spec fn spec_pack_len_opcode(total: u32, opcode: u32) -> u32 {
    (total << 16) | opcode
}

/// A full frame: object id word, packed length-and-opcode word, payload.
pub open spec fn spec_frame_with_payload(object_id: u32, opcode: u32, payload: Seq<u8>) -> Seq<
    u8,
> {
    spec_u32_to_le_bytes(object_id) + spec_u32_to_le_bytes(
        spec_pack_len_opcode((8 + payload.len()) as u32, opcode),
    ) + payload
}

/// The full frame for a message: object id word, packed length-and-opcode
/// word, then the encoded arguments.
pub open spec fn spec_message_frame(object_id: u32, opcode: u32, vs: Seq<WireValue>) -> Seq<u8> {
    spec_frame_with_payload(object_id, opcode, spec_encode_values(vs))
}

impl WireMsgHeader {
    /// Decodes the 8 header bytes of a frame.
    pub fn build(data: &[u8]) -> (h: WireMsgHeader)
        requires
            data@.len() == 8,
        ensures
            h.object_id == spec_u32_from_le_bytes(data@.subrange(0, 4)),
            h.method_id == (spec_u32_from_le_bytes(data@.subrange(4, 8)) & 0xFFFF) as u16,
            h.length == (spec_u32_from_le_bytes(data@.subrange(4, 8)) >> 16) as u16,
    {
        let object_id = u32_from_wire(data[0], data[1], data[2], data[3]);
        let word = u32_from_wire(data[4], data[5], data[6], data[7]);
        proof {
            assert(seq![data@[0], data@[1], data@[2], data@[3]] =~= data@.subrange(0, 4));
            assert(seq![data@[4], data@[5], data@[6], data@[7]] =~= data@.subrange(4, 8));
            assert((word & 0xFFFF) <= 0xFFFF && (word >> 16) <= 0xFFFF) by (bit_vector);
        }
        WireMsgHeader {
            object_id,
            method_id: (word & 0xFFFF) as u16,
            length: (word >> 16) as u16,
        }
    }
}

/// Decodes the 8 header bytes of a frame.
pub fn read_header(buf: &[u8]) -> (h: WireMsgHeader)
    requires
        buf@.len() == 8,
    ensures
        h.object_id == spec_u32_from_le_bytes(buf@.subrange(0, 4)),
        h.method_id == (spec_u32_from_le_bytes(buf@.subrange(4, 8)) & 0xFFFF) as u16,
        h.length == (spec_u32_from_le_bytes(buf@.subrange(4, 8)) >> 16) as u16,
{
    WireMsgHeader::build(buf)
}

/// Frames a message: encodes the arguments, checks that the total length
/// fits the 16-bit length field, and prefixes the header.  Returns the frame
/// bytes together with the file descriptor to pass out of band, if any.
pub fn frame_message(msg: &WireMessage<'_>) -> (r: Result<(Vec<u8>, Option<i32>), EncodeError>)
    requires
        msg.request_id <= 0xFFFF,
    ensures
        r is Ok <==> spec_values_fit(msg.values@) && spec_fd_count(msg.values@) <= 1 && 8
            + spec_encode_values(msg.values@).len() <= 0xFFFF,
        r matches Ok((bytes, fd)) ==> {
            &&& bytes@ == spec_message_frame(msg.object_id, msg.request_id, msg.values@)
            &&& fd == spec_fd_of(msg.values@)
            &&& bytes@.len() == 8 + spec_encode_values(msg.values@).len()
            &&& bytes@.len() % 4 == 0
        },
        r == Err::<(Vec<u8>, Option<i32>), EncodeError>(EncodeError::MessageTooLarge) ==> 8
            + spec_encode_values(msg.values@).len() > 0xFFFF,
{
    let mut payload: Vec<u8> = Vec::new();
    let fd = match write_values(&mut payload, msg.values) {
        Ok(fd) => fd,
        Err(e) => {
            proof {
                lemma_encode_values_aligned(msg.values@);
            }
            return Err(e);
        },
    };
    if payload.len() > 0xFFFF - 8 {
        return Err(EncodeError::MessageTooLarge);
    }
    let total: usize = payload.len() + 8;
    let packed: u32 = ((total as u32) << 16u32) | msg.request_id;
    let mut out: Vec<u8> = Vec::new();
    write_u32(&mut out, msg.object_id);
    write_u32(&mut out, packed);
    out.append(&mut payload);
    proof {
        lemma_encode_values_aligned(msg.values@);
        lemma_auto_spec_u32_to_from_le_bytes();
        assert(out@ =~= spec_message_frame(msg.object_id, msg.request_id, msg.values@));
    }
    Ok((out, fd))
}

/// Every encoded value occupies a multiple of 4 bytes, so every payload and
/// every framed message does: the wire offset stays 4-byte aligned.
pub proof fn lemma_encode_value_aligned(v: WireValue)
    ensures
        spec_encode_value(v).len() % 4 == 0,
{
    lemma_auto_spec_u32_to_from_le_bytes();
    match v {
        WireValue::Uint32(_) => {},
        WireValue::Int32(_) => {},
        WireValue::Str(s) => {
            let b = encode_utf8(s@);
            let sz = b.len() + 1;
            assert(((sz + 3) / 4) * 4 >= sz && (((sz + 3) / 4) * 4) % 4 == 0) by (nonlinear_arith);
            assert(spec_encode_value(v).len() == 4 + spec_aligned_size(sz as int));
            assert((4 + ((sz + 3) / 4) * 4) % 4 == 0) by (nonlinear_arith);
        },
        WireValue::Array(a) => {
            let n = a@.len();
            assert(((n + 3) / 4) * 4 >= n && (((n + 3) / 4) * 4) % 4 == 0) by (nonlinear_arith);
            assert(spec_encode_value(v).len() == 4 + spec_aligned_size(n as int));
            assert((4 + ((n + 3) / 4) * 4) % 4 == 0) by (nonlinear_arith);
        },
        WireValue::FileDesc(_) => {},
    }
}

/// The payload of any value sequence is a multiple of 4 bytes long.
pub proof fn lemma_encode_values_aligned(vs: Seq<WireValue>)
    ensures
        spec_encode_values(vs).len() % 4 == 0,
    decreases vs.len(),
{
    if vs.len() > 0 {
        lemma_encode_value_aligned(vs[0]);
        lemma_encode_values_aligned(vs.skip(1));
    }
}

/// Decoding the header of a framed message gives back the object id, the
/// opcode, and the total length, and the rest of the frame is the payload.
pub proof fn lemma_header_round_trip(object_id: u32, opcode: u32, vs: Seq<WireValue>)
    requires
        opcode <= 0xFFFF,
        8 + spec_encode_values(vs).len() <= 0xFFFF,
    ensures
        spec_u32_from_le_bytes(spec_message_frame(object_id, opcode, vs).subrange(0, 4))
            == object_id,
        spec_u32_from_le_bytes(spec_message_frame(object_id, opcode, vs).subrange(4, 8)) & 0xFFFF
            == opcode,
        spec_u32_from_le_bytes(spec_message_frame(object_id, opcode, vs).subrange(4, 8)) >> 16 == 8
            + spec_encode_values(vs).len(),
        spec_message_frame(object_id, opcode, vs).skip(8) == spec_encode_values(vs),
        spec_message_frame(object_id, opcode, vs).len() == 8 + spec_encode_values(vs).len(),
{
    lemma_auto_spec_u32_to_from_le_bytes();
    let payload = spec_encode_values(vs);
    let total = (8 + payload.len()) as u32;
    let frame = spec_message_frame(object_id, opcode, vs);
    assert(frame.subrange(0, 4) =~= spec_u32_to_le_bytes(object_id));
    assert(frame.subrange(4, 8) =~= spec_u32_to_le_bytes(spec_pack_len_opcode(total, opcode)));
    assert(frame.skip(8) =~= payload);
    let t = total;
    let op = opcode;
    assert(t <= 0xFFFF && op <= 0xFFFF ==> ((t << 16) | op) & 0xFFFF == op && ((t << 16) | op)
        >> 16 == t) by (bit_vector);
}

} // verus!
