//! Byte-level parsers for event payloads: 32-bit words, signed words,
//! length-prefixed strings, and word arrays.
//!
//! A `PayloadReader` walks the payload of one frame; each parser consumes
//! exactly the bytes of the value it returns.  On a parse error the reader
//! is drained, which matches the way a broken frame is dropped whole.

use crate::wire_format::{
    i32_from_bits, spec_aligned_size, spec_encode_array, spec_encode_str, u32_from_wire,
    u32_of_i32,
};
use vstd::bytes::{lemma_auto_spec_u32_to_from_le_bytes, spec_u32_from_le_bytes,
    spec_u32_to_le_bytes};
use vstd::prelude::*;
use vstd::utf8::{decode_utf8, encode_utf8, valid_utf8};

verus! {

/// Why a payload failed to parse.
#[derive(Clone, Copy, Debug, PartialEq, Eq)]
pub enum Error {
    /// The payload ended before the named field was complete.
    MissingField(&'static str),
    /// A string field held bytes that are not valid UTF-8.
    InvalidUtfString,
    /// An array's byte size is not a multiple of 4.
    InvalidArrayByteSize(u32),
}

/// A cursor over the payload bytes of one frame.
pub struct PayloadReader {
    data: Vec<u8>,
    pos: usize,
}

impl PayloadReader {
    /// The cursor never passes the end of the payload.
    pub closed spec fn wf(self) -> bool {
        self.pos <= self.data@.len()
    }

    /// The bytes not yet consumed.
    pub closed spec fn remaining(self) -> Seq<u8> {
        self.data@.skip(self.pos as int)
    }

    pub fn new(data: Vec<u8>) -> (r: PayloadReader)
        ensures
            r.wf(),
            r.remaining() == data@,
    {
        let r = PayloadReader { data, pos: 0 };
        proof {
            assert(r.remaining() =~= r.data@);
        }
        r
    }

    /// How many bytes are left; a fully consumed payload reports zero.
    pub fn remaining_len(&self) -> (n: usize)
        requires
            self.wf(),
        ensures
            n == self.remaining().len(),
    {
        self.data.len() - self.pos
    }
}

/// Result of taking one 32-bit word off the front of a payload.
pub open spec fn spec_parse_u32(b: Seq<u8>) -> Option<(u32, Seq<u8>)> {
    if b.len() >= 4 {
        Some((spec_u32_from_le_bytes(b.take(4)), b.skip(4)))
    } else {
        None
    }
}

/// Reads one unsigned 32-bit word.
pub fn parse_u32(iter: &mut PayloadReader) -> (r: Result<u32, Error>)
    requires
        old(iter).wf(),
    ensures
        final(iter).wf(),
        r is Ok <==> spec_parse_u32(old(iter).remaining()) is Some,
        r matches Ok(v) ==> spec_parse_u32(old(iter).remaining()) == Some(
            (v, final(iter).remaining()),
        ),
        r matches Err(e) ==> e is MissingField && final(iter).remaining() == Seq::<u8>::empty(),
{
    if iter.data.len() - iter.pos >= 4 {
        let v = u32_from_wire(
            iter.data[iter.pos],
            iter.data[iter.pos + 1],
            iter.data[iter.pos + 2],
            iter.data[iter.pos + 3],
        );
        proof {
            let rem = old(iter).remaining();
            assert(seq![
                iter.data@[iter.pos as int],
                iter.data@[iter.pos + 1],
                iter.data@[iter.pos + 2],
                iter.data@[iter.pos + 3],
            ] =~= rem.take(4));
        }
        iter.pos = iter.pos + 4;
        proof {
            assert(iter.remaining() =~= old(iter).remaining().skip(4));
        }
        Ok(v)
    } else {
        iter.pos = iter.data.len();
        proof {
            assert(iter.remaining() =~= Seq::<u8>::empty());
        }
        Err(Error::MissingField("4 bytes for u32/i32 integer"))
    }
}

/// Reads one signed 32-bit word: the wire word reinterpreted as signed.
pub fn parse_i32(iter: &mut PayloadReader) -> (r: Result<i32, Error>)
    requires
        old(iter).wf(),
    ensures
        final(iter).wf(),
        r is Ok <==> spec_parse_u32(old(iter).remaining()) is Some,
        r matches Ok(v) ==> (spec_parse_u32(old(iter).remaining()) matches Some((w, rest))
            && u32_of_i32(v) == w && rest == final(iter).remaining()),
        r matches Err(e) ==> e is MissingField && final(iter).remaining() == Seq::<u8>::empty(),
{
    match parse_u32(iter) {
        Ok(w) => Ok(i32_from_bits(w)),
        Err(e) => Err(e),
    }
}

/// The words of a 4-byte-aligned byte block, in order.
pub open spec fn spec_words(b: Seq<u8>, k: int) -> Seq<u32> {
    Seq::new(k as nat, |i: int| spec_u32_from_le_bytes(b.subrange(4 * i, 4 * i + 4)))
}

/// Result of taking a word array off the front of a payload: a byte size
/// that must be a multiple of 4, then that many bytes read as words.
pub open spec fn spec_parse_u32_array(b: Seq<u8>) -> Option<(Seq<u32>, Seq<u8>)> {
    if b.len() < 4 {
        None
    } else {
        let sz = spec_u32_from_le_bytes(b.take(4)) as int;
        if sz % 4 != 0 {
            None
        } else if b.len() < 4 + sz {
            None
        } else {
            Some((spec_words(b.skip(4).take(sz), sz / 4), b.skip(4 + sz)))
        }
    }
}

/// Whether the payload has an array size field that is not a multiple of 4.
pub open spec fn spec_array_size_failure(b: Seq<u8>) -> bool {
    b.len() >= 4 && spec_u32_from_le_bytes(b.take(4)) % 4 != 0
}

/// Reads a word array.  A size that is not a multiple of 4 is rejected as
/// `InvalidArrayByteSize` carrying that size.
pub fn parse_u32_array(iter: &mut PayloadReader) -> (r: Result<Vec<u32>, Error>)
    requires
        old(iter).wf(),
    ensures
        final(iter).wf(),
        r is Ok <==> spec_parse_u32_array(old(iter).remaining()) is Some,
        r matches Ok(v) ==> spec_parse_u32_array(old(iter).remaining()) == Some(
            (v@, final(iter).remaining()),
        ),
        r matches Err(e) ==> final(iter).remaining() == Seq::<u8>::empty() && (e matches
            Error::InvalidArrayByteSize(sz) ==> spec_array_size_failure(old(iter).remaining())
            && sz == spec_u32_from_le_bytes(old(iter).remaining().take(4))),
        r is Err && spec_array_size_failure(old(iter).remaining()) ==> (r matches Err(e) && e
            is InvalidArrayByteSize),
{
    let ghost rem = old(iter).remaining();
    let size = match parse_u32(iter) {
        Ok(s) => s,
        Err(e) => {
            return Err(e);
        },
    };
    if size % 4 != 0 {
        iter.pos = iter.data.len();
        proof {
            assert(iter.remaining() =~= Seq::<u8>::empty());
        }
        return Err(Error::InvalidArrayByteSize(size));
    }
    let count: usize = (size / 4) as usize;
    let mut array: Vec<u32> = Vec::new();
    let ghost body = rem.skip(4);
    let mut i: usize = 0;
    while i < count
        invariant
            rem == old(iter).remaining(),
            iter.wf(),
            i <= count,
            count == (spec_u32_from_le_bytes(rem.take(4)) as int) / 4,
            spec_u32_from_le_bytes(rem.take(4)) as int == 4 * count as int,
            spec_u32_from_le_bytes(rem.take(4)) % 4 == 0,
            rem.len() >= 4,
            4 * count as int <= 0xFFFF_FFFF,
            body == rem.skip(4),
            body.len() >= 4 * i as int,
            iter.remaining() == body.skip(4 * i as int),
            array@ == spec_words(body, i as int),
            array@.len() == i,
        decreases count - i,
    {
        let ghost pre = iter.remaining();
        let elem = match parse_u32(iter) {
            Ok(v) => v,
            Err(_) => {
                proof {
                    assert(iter.remaining() =~= Seq::<u8>::empty());
                    assert(pre.len() < 4);
                    assert(rem.len() < 4 + 4 * count as int);
                    assert(!spec_array_size_failure(rem));
                    assert(spec_parse_u32_array(rem) is None);
                }
                return Err(Error::MissingField("u32 array element"));
            },
        };
        proof {
            assert(pre.take(4) =~= body.subrange(4 * i as int, 4 * i + 4));
            assert(spec_words(body, i + 1) =~= spec_words(body, i as int).push(
                spec_u32_from_le_bytes(pre.take(4)),
            ));
            assert(body.skip(4 * i as int).skip(4) =~= body.skip(4 * (i + 1)));
        }
        array.push(elem);
        i = i + 1;
    }
    proof {
        let sz = 4 * count as int;
        assert forall|j: int| 0 <= j < count as int implies spec_words(body.take(sz), count as int)[j]
            == spec_words(body, count as int)[j] by {
            assert(body.take(sz).subrange(4 * j, 4 * j + 4) =~= body.subrange(4 * j, 4 * j + 4));
        }
        assert(spec_words(body.take(sz), count as int) =~= spec_words(body, count as int));
        assert(iter.remaining() =~= rem.skip(4 + sz));
    }
    Ok(array)
}

/// Result of taking a string off the front of a payload: a 4-byte size that
/// counts a null terminator, the UTF-8 bytes, the terminator, and padding up
/// to a 4-byte boundary.
pub open spec fn spec_parse_str(b: Seq<u8>) -> Option<(Seq<char>, Seq<u8>)> {
    if b.len() < 4 {
        None
    } else {
        let sz = spec_u32_from_le_bytes(b.take(4)) as int;
        if sz < 1 {
            None
        } else if b.len() < 4 + sz {
            None
        } else if !valid_utf8(b.subrange(4, 4 + sz - 1)) {
            None
        } else if b.len() < 4 + spec_aligned_size(sz) {
            None
        } else {
            Some((decode_utf8(b.subrange(4, 4 + sz - 1)), b.skip(4 + spec_aligned_size(sz))))
        }
    }
}

/// Whether the payload has a complete string field whose bytes are not valid
/// UTF-8: the one condition reported as `InvalidUtfString`.
pub open spec fn spec_str_utf8_failure(b: Seq<u8>) -> bool {
    b.len() >= 4 && {
        let sz = spec_u32_from_le_bytes(b.take(4)) as int;
        sz >= 1 && b.len() >= 4 + sz && !valid_utf8(b.subrange(4, 4 + sz - 1))
    }
}

/// Relies on String::from_utf8: it succeeds exactly on valid UTF-8, and the
/// string's characters are the decoding of the bytes.
#[verifier::external_body]
fn string_from_utf8(bytes: Vec<u8>) -> (r: Option<String>)
    ensures
        r matches Some(s) ==> valid_utf8(bytes@) && s@ == decode_utf8(bytes@),
        r is None ==> !valid_utf8(bytes@),
{
    String::from_utf8(bytes).ok()
}

/// Reads a string, validating its UTF-8 bytes and discarding the null
/// terminator and the alignment padding.
pub fn parse_str(iter: &mut PayloadReader) -> (r: Result<String, Error>)
    requires
        old(iter).wf(),
    ensures
        final(iter).wf(),
        r is Ok <==> spec_parse_str(old(iter).remaining()) is Some,
        r matches Ok(s) ==> spec_parse_str(old(iter).remaining()) == Some(
            (s@, final(iter).remaining()),
        ),
        r is Err ==> final(iter).remaining() == Seq::<u8>::empty(),
        r matches Err(e) ==> (e is InvalidUtfString <==> spec_str_utf8_failure(
            old(iter).remaining(),
        )),
        r matches Err(e) ==> e is InvalidUtfString || e is MissingField,
{
    let ghost rem = old(iter).remaining();
    let size = match parse_u32(iter) {
        Ok(s) => s,
        Err(e) => {
            return Err(e);
        },
    };
    let ghost rest = iter.remaining();
    let str_size: usize = size as usize;
    if str_size < 1 {
        iter.pos = iter.data.len();
        proof {
            assert(iter.remaining() =~= Seq::<u8>::empty());
        }
        return Err(Error::MissingField("string bytes"));
    }
    if iter.data.len() - iter.pos < str_size {
        proof {
            assert(rest == rem.skip(4));
            assert(rest.len() == iter.data@.len() - iter.pos);
            assert(rem.len() < 4 + str_size);
        }
        iter.pos = iter.data.len();
        proof {
            assert(iter.remaining() =~= Seq::<u8>::empty());
        }
        return Err(Error::MissingField("string bytes"));
    }
    proof {
        assert(iter.remaining() == rem.skip(4));
        assert(rem.len() >= 4);
        assert(iter.remaining().len() == iter.data@.len() - iter.pos);
        assert(rem.len() == 4 + iter.remaining().len());
        assert(rem.len() >= 4 + str_size);
    }
    let mut text: Vec<u8> = Vec::new();
    let mut i: usize = 0;
    while i < str_size - 1
        invariant
            rem == old(iter).remaining(),
            iter.wf(),
            i <= str_size - 1,
            str_size >= 1,
            size as int == spec_u32_from_le_bytes(rem.take(4)) as int,
            str_size as int == size as int,
            iter.data@.len() <= usize::MAX,
            iter.pos + str_size <= iter.data@.len(),
            iter.remaining() == rem.skip(4),
            rem.len() >= 4 + str_size,
            text@ == rem.subrange(4, 4 + i as int),
        decreases str_size - i,
    {
        text.push(iter.data[iter.pos + i]);
        proof {
            assert(rem.subrange(4, 4 + (i + 1)) =~= rem.subrange(4, 4 + i as int).push(
                iter.data@[iter.pos + i],
            ));
        }
        i = i + 1;
    }
    let parsed = string_from_utf8(text);
    let result = match parsed {
        Some(s) => s,
        None => {
            iter.pos = iter.data.len();
            proof {
                assert(iter.remaining() =~= Seq::<u8>::empty());
            }
            return Err(Error::InvalidUtfString);
        },
    };
    let padding: usize = (4 - (str_size % 4)) % 4;
    proof {
        lemma_aligned_size_padding(str_size as int);
    }
    iter.pos = iter.pos + str_size;
    if iter.data.len() - iter.pos < padding {
        iter.pos = iter.data.len();
        proof {
            assert(iter.remaining() =~= Seq::<u8>::empty());
        }
        return Err(Error::MissingField("string padding bytes"));
    }
    let ghost mid = iter.remaining();
    iter.pos = iter.pos + padding;
    proof {
        assert(iter.remaining() =~= mid.skip(padding as int));
        assert(mid =~= rem.skip(4).skip(str_size as int));
        assert(mid.skip(padding as int) =~= rem.skip(4 + spec_aligned_size(str_size as int)));
    }
    Ok(result)
}

/// The aligned size is the size plus the padding that rounds it up.
proof fn lemma_aligned_size_padding(n: int)
    requires
        n >= 0,
    ensures
        spec_aligned_size(n) == n + ((4 - (n % 4)) % 4),
        0 <= (4 - (n % 4)) % 4 < 4,
{
    assert(((n + 3) / 4) * 4 == n + ((4 - (n % 4)) % 4) && 0 <= (4 - (n % 4)) % 4 < 4) by (nonlinear_arith)
        requires n >= 0;
}

/// A word followed by anything parses back to that word, leaving the rest.
pub proof fn lemma_u32_round_trip(v: u32, rest: Seq<u8>)
    ensures
        spec_parse_u32(spec_u32_to_le_bytes(v) + rest) == Some((v, rest)),
{
    lemma_auto_spec_u32_to_from_le_bytes();
    let b = spec_u32_to_le_bytes(v) + rest;
    assert(b.take(4) =~= spec_u32_to_le_bytes(v));
    assert(b.skip(4) =~= rest);
}

/// The encoding of a string of `n` UTF-8 bytes occupies exactly
/// `4 + aligned(n + 1)` bytes: the size word, the bytes, the null
/// terminator, and the padding to the next 4-byte boundary.
pub proof fn lemma_str_encoded_size(s: Seq<char>)
    ensures
        spec_encode_str(s).len() == 4 + spec_aligned_size(encode_utf8(s).len() + 1int),
{
    lemma_auto_spec_u32_to_from_le_bytes();
    let u = encode_utf8(s);
    let sz = u.len() + 1;
    lemma_aligned_size_padding(sz as int);
}

/// A string followed by anything parses back to the same characters,
/// leaving the rest: decoding inverts encoding.
pub proof fn lemma_str_round_trip(s: Seq<char>, rest: Seq<u8>)
    requires
        encode_utf8(s).len() + 4 <= 0xFFFF_FFFF,
    ensures
        spec_parse_str(spec_encode_str(s) + rest) == Some((s, rest)),
{
    lemma_auto_spec_u32_to_from_le_bytes();
    vstd::utf8::encode_utf8_valid_utf8(s);
    vstd::utf8::encode_utf8_decode_utf8(s);
    let u = encode_utf8(s);
    let sz = (u.len() + 1) as int;
    lemma_aligned_size_padding(sz);
    let e = spec_encode_str(s);
    let b = e + rest;
    assert(b.take(4) =~= spec_u32_to_le_bytes(sz as u32));
    assert(spec_u32_from_le_bytes(b.take(4)) == sz as u32);
    assert(e.len() == 4 + spec_aligned_size(sz));
    assert(b.subrange(4, 4 + sz - 1) =~= u);
    assert(b.skip(4 + spec_aligned_size(sz)) =~= rest);
}

/// A word array of a 4-byte-multiple size followed by anything parses back
/// to its words, leaving the rest.
pub proof fn lemma_array_round_trip(a: Seq<u8>, rest: Seq<u8>)
    requires
        a.len() % 4 == 0,
        a.len() + 4 <= 0xFFFF_FFFF,
    ensures
        spec_parse_u32_array(spec_encode_array(a) + rest) == Some(
            (spec_words(a, a.len() as int / 4), rest),
        ),
{
    lemma_auto_spec_u32_to_from_le_bytes();
    let n = a.len() as int;
    lemma_aligned_size_padding(n);
    let e = spec_encode_array(a);
    let b = e + rest;
    assert(b.take(4) =~= spec_u32_to_le_bytes(n as u32));
    assert(spec_u32_from_le_bytes(b.take(4)) == n as u32);
    assert(e.len() == 4 + n);
    assert(b.skip(4).take(n) =~= a);
    assert(spec_words(b.skip(4).take(n), n / 4) =~= spec_words(a, n / 4));
    assert(b.skip(4 + n) =~= rest);
}

/// An array size that is not a multiple of 4 never parses, whatever follows
/// the size word.
pub proof fn lemma_array_bad_size(sz: u32, rest: Seq<u8>)
    requires
        sz % 4 != 0,
    ensures
        spec_parse_u32_array(spec_u32_to_le_bytes(sz) + rest) is None,
        spec_array_size_failure(spec_u32_to_le_bytes(sz) + rest),
{
    lemma_auto_spec_u32_to_from_le_bytes();
    let b = spec_u32_to_le_bytes(sz) + rest;
    assert(b.take(4) =~= spec_u32_to_le_bytes(sz));
}

} // verus!
