//! Pattern-driven serialisation: a declared argument pattern drives both the
//! writer and the parser, so a request's declaration is the single source of
//! its wire layout.

use crate::parsing::{
    parse_i32, parse_str, parse_u32, parse_u32_array, spec_parse_str, spec_parse_u32,
    spec_parse_u32_array, spec_words, Error, PayloadReader,
};
use crate::wire_format::{
    i32_bits, push_bytes, spec_encode_str, str_aligned_size, u32_of_i32, write_u32, EncodeError,
};
use vstd::bytes::{lemma_auto_spec_u32_to_from_le_bytes, spec_u32_from_le_bytes,
    spec_u32_to_le_bytes};
use vstd::prelude::*;
use vstd::utf8::encode_utf8;

verus! {

/// The declared type of one argument.
#[derive(Clone, Copy, Debug, PartialEq, Eq, Structural)]
pub enum MsgArgType {
    Uint32,
    String,
    Int32,
    Array,
}

/// One decoded or to-be-encoded argument.
#[derive(Debug, PartialEq, Eq)]
pub enum MsgArgValue {
    Uint32(u32),
    Int32(i32),
    String(String),
    Array(Vec<u32>),
}

impl MsgArgValue {
    /// The declared type this value belongs to.
    pub open spec fn arg_type(self) -> MsgArgType {
        match self {
            MsgArgValue::Uint32(_) => MsgArgType::Uint32,
            MsgArgValue::Int32(_) => MsgArgType::Int32,
            MsgArgValue::String(_) => MsgArgType::String,
            MsgArgValue::Array(_) => MsgArgType::Array,
        }
    }

    pub fn into_str(self) -> (r: String)
        requires
            self is String,
        ensures
            self == MsgArgValue::String(r),
    {
        match self {
            MsgArgValue::String(val) => val,
            _ => vstd::pervasive::unreached(),
        }
    }

    pub fn into_i32(self) -> (r: i32)
        requires
            self is Int32,
        ensures
            self == MsgArgValue::Int32(r),
    {
        match self {
            MsgArgValue::Int32(val) => val,
            _ => vstd::pervasive::unreached(),
        }
    }

    pub fn into_u32(self) -> (r: u32)
        requires
            self is Uint32,
        ensures
            self == MsgArgValue::Uint32(r),
    {
        match self {
            MsgArgValue::Uint32(val) => val,
            _ => vstd::pervasive::unreached(),
        }
    }

    pub fn into_array(self) -> (r: Vec<u32>)
        requires
            self is Array,
        ensures
            self == MsgArgValue::Array(r),
    {
        match self {
            MsgArgValue::Array(val) => val,
            _ => vstd::pervasive::unreached(),
        }
    }
}

/// The bytes of a word sequence, each word in wire byte order.
pub open spec fn spec_word_bytes(ws: Seq<u32>) -> Seq<u8>
    decreases ws.len(),
{
    if ws.len() == 0 {
        Seq::empty()
    } else {
        spec_u32_to_le_bytes(ws[0]) + spec_word_bytes(ws.skip(1))
    }
}

/// Encoding of a word array: the byte size, then the words; a whole number
/// of words needs no padding.
pub open spec fn spec_encode_word_array(ws: Seq<u32>) -> Seq<u8> {
    spec_u32_to_le_bytes((4 * ws.len()) as u32) + spec_word_bytes(ws)
}

/// The payload bytes one argument value contributes.
pub open spec fn spec_encode_arg(v: MsgArgValue) -> Seq<u8> {
    match v {
        MsgArgValue::Uint32(x) => spec_u32_to_le_bytes(x),
        MsgArgValue::Int32(x) => spec_u32_to_le_bytes(u32_of_i32(x)),
        MsgArgValue::String(s) => spec_encode_str(s@),
        MsgArgValue::Array(a) => spec_encode_word_array(a@),
    }
}

/// The payload bytes of an argument sequence, in declaration order.
pub open spec fn spec_encode_args(vs: Seq<MsgArgValue>) -> Seq<u8>
    decreases vs.len(),
{
    if vs.len() == 0 {
        Seq::empty()
    } else {
        spec_encode_arg(vs[0]) + spec_encode_args(vs.skip(1))
    }
}

/// Whether an argument's size field fits in its 32-bit prefix.
pub open spec fn spec_arg_fits(v: MsgArgValue) -> bool {
    match v {
        MsgArgValue::String(s) => encode_utf8(s@).len() + 4 <= 0xFFFF_FFFF,
        MsgArgValue::Array(a) => 4 * a@.len() + 4 <= 0xFFFF_FFFF,
        _ => true,
    }
}

pub open spec fn spec_args_fit(vs: Seq<MsgArgValue>) -> bool {
    forall|i: int| 0 <= i < vs.len() ==> spec_arg_fits(#[trigger] vs[i])
}

pub proof fn lemma_encode_args_push(vs: Seq<MsgArgValue>, v: MsgArgValue)
    ensures
        spec_encode_args(vs.push(v)) == spec_encode_args(vs) + spec_encode_arg(v),
    decreases vs.len(),
{
    if vs.len() == 0 {
        let p = vs.push(v);
        assert(p.len() == 1 && p[0] == v);
        assert(p.skip(1) =~= Seq::<MsgArgValue>::empty());
        reveal_with_fuel(spec_encode_args, 2);
        assert(spec_encode_arg(v) + Seq::<u8>::empty() =~= spec_encode_arg(v));
        assert(spec_encode_args(vs) + spec_encode_arg(v) =~= spec_encode_arg(v));
    } else {
        assert(vs.push(v).skip(1) =~= vs.skip(1).push(v));
        lemma_encode_args_push(vs.skip(1), v);
        assert(spec_encode_args(vs.push(v)) =~= spec_encode_arg(vs[0]) + (spec_encode_args(
            vs.skip(1),
        ) + spec_encode_arg(v)));
        assert(spec_encode_arg(vs[0]) + (spec_encode_args(vs.skip(1)) + spec_encode_arg(v))
            =~= spec_encode_args(vs) + spec_encode_arg(v));
    }
}

/// Serialises argument values into `writer`.  Fails exactly when a string or
/// array is too large for its 32-bit size prefix.
pub fn write_bytes(values: &[MsgArgValue], writer: &mut Vec<u8>) -> (r: Result<(), EncodeError>)
    ensures
        r is Ok <==> spec_args_fit(values@),
        r is Ok ==> final(writer)@ == old(writer)@ + spec_encode_args(values@),
        r is Err ==> r == Err::<(), EncodeError>(EncodeError::ValueTooLarge),
{
    let mut i: usize = 0;
    while i < values.len()
        invariant
            i <= values@.len(),
            writer@ == old(writer)@ + spec_encode_args(values@.take(i as int)),
            spec_args_fit(values@.take(i as int)),
        decreases values@.len() - i,
    {
        proof {
            assert(values@.take(i + 1) =~= values@.take(i as int).push(values@[i as int]));
            lemma_encode_args_push(values@.take(i as int), values@[i as int]);
        }
        match &values[i] {
            MsgArgValue::Uint32(val) => {
                write_u32(writer, *val);
            },
            MsgArgValue::Int32(val) => {
                write_u32(writer, i32_bits(*val));
            },
            MsgArgValue::String(val) => {
                let bytes: &[u8] = val.as_str().as_bytes();
                if bytes.len() >= 0xFFFF_FFFCusize {
                    return Err(EncodeError::ValueTooLarge);
                }
                let sz: usize = bytes.len() + 1;
                write_u32(writer, sz as u32);
                push_bytes(writer, bytes);
                writer.push(0u8);
                let padding: usize = str_aligned_size(sz) - sz;
                let mut k: usize = 0;
                while k < padding
                    invariant
                        k <= padding,
                        writer@ == old(writer)@ + spec_encode_args(values@.take(i as int))
                            + spec_u32_to_le_bytes(sz as u32) + bytes@ + seq![0u8] + Seq::new(
                            k as nat,
                            |j: int| 0u8,
                        ),
                    decreases padding - k,
                {
                    writer.push(0u8);
                    proof {
                        assert(Seq::new((k + 1) as nat, |j: int| 0u8) =~= Seq::new(
                            k as nat,
                            |j: int| 0u8,
                        ).push(0u8));
                        assert(old(writer)@ + spec_encode_args(values@.take(i as int))
                            + spec_u32_to_le_bytes(sz as u32) + bytes@ + seq![0u8] + Seq::new(
                            (k + 1) as nat,
                            |j: int| 0u8,
                        ) =~= (old(writer)@ + spec_encode_args(values@.take(i as int))
                            + spec_u32_to_le_bytes(sz as u32) + bytes@ + seq![0u8] + Seq::new(
                            k as nat,
                            |j: int| 0u8,
                        )).push(0u8));
                    }
                    k = k + 1;
                }
                proof {
                    assert(writer@ =~= old(writer)@ + spec_encode_args(values@.take(i + 1)));
                }
            },
            MsgArgValue::Array(arr) => {
                if arr.len() >= 0x3FFF_FFFFusize {
                    return Err(EncodeError::ValueTooLarge);
                }
                write_u32(writer, (arr.len() * 4) as u32);
                let mut k: usize = 0;
                while k < arr.len()
                    invariant
                        k <= arr@.len(),
                        writer@ == old(writer)@ + spec_encode_args(values@.take(i as int))
                            + spec_u32_to_le_bytes((4 * arr@.len()) as u32) + spec_word_bytes(
                            arr@.take(k as int),
                        ),
                    decreases arr@.len() - k,
                {
                    write_u32(writer, arr[k]);
                    proof {
                        lemma_word_bytes_push(arr@.take(k as int), arr@[k as int]);
                        assert(arr@.take(k + 1) =~= arr@.take(k as int).push(arr@[k as int]));
                        assert(old(writer)@ + spec_encode_args(values@.take(i as int))
                            + spec_u32_to_le_bytes((4 * arr@.len()) as u32) + spec_word_bytes(
                            arr@.take(k + 1),
                        ) =~= (old(writer)@ + spec_encode_args(values@.take(i as int))
                            + spec_u32_to_le_bytes((4 * arr@.len()) as u32) + spec_word_bytes(
                            arr@.take(k as int),
                        )) + spec_u32_to_le_bytes(arr@[k as int]));
                    }
                    k = k + 1;
                }
                proof {
                    assert(arr@.take(arr@.len() as int) =~= arr@);
                    assert(writer@ =~= old(writer)@ + spec_encode_args(values@.take(i + 1)));
                }
            },
        }
        i = i + 1;
    }
    proof {
        assert(values@.take(values@.len() as int) =~= values@);
    }
    Ok(())
}

/// Appending a word appends its bytes.
pub proof fn lemma_word_bytes_push(ws: Seq<u32>, w: u32)
    ensures
        spec_word_bytes(ws.push(w)) == spec_word_bytes(ws) + spec_u32_to_le_bytes(w),
    decreases ws.len(),
{
    if ws.len() == 0 {
        let p = ws.push(w);
        assert(p.len() == 1 && p[0] == w);
        assert(p.skip(1) =~= Seq::<u32>::empty());
        reveal_with_fuel(spec_word_bytes, 2);
        assert(spec_u32_to_le_bytes(w) + Seq::<u8>::empty() =~= spec_u32_to_le_bytes(w));
        assert(spec_word_bytes(ws) + spec_u32_to_le_bytes(w) =~= spec_u32_to_le_bytes(w));
    } else {
        assert(ws.push(w).skip(1) =~= ws.skip(1).push(w));
        lemma_word_bytes_push(ws.skip(1), w);
        assert(spec_word_bytes(ws.push(w)) =~= spec_u32_to_le_bytes(ws[0]) + (spec_word_bytes(
            ws.skip(1),
        ) + spec_u32_to_le_bytes(w)));
        assert(spec_u32_to_le_bytes(ws[0]) + (spec_word_bytes(ws.skip(1)) + spec_u32_to_le_bytes(
            w,
        )) =~= spec_word_bytes(ws) + spec_u32_to_le_bytes(w));
    }
}

} // verus!

verus! {

/// One argument taken off the front of a payload, by declared type.
pub open spec fn spec_parse_one(t: MsgArgType, b: Seq<u8>) -> Option<(MsgArgValue, Seq<u8>)> {
    match t {
        MsgArgType::Uint32 => match spec_parse_u32(b) {
            Some((v, rest)) => Some((MsgArgValue::Uint32(v), rest)),
            None => None,
        },
        MsgArgType::Int32 => match spec_parse_u32(b) {
            Some((w, rest)) => Some(
                (MsgArgValue::Int32(choose|v: i32| u32_of_i32(v) == w), rest),
            ),
            None => None,
        },
        MsgArgType::String => match spec_parse_str(b) {
            Some((s, rest)) => Some(
                (MsgArgValue::String(choose|v: String| v@ == s), rest),
            ),
            None => None,
        },
        MsgArgType::Array => match spec_parse_u32_array(b) {
            Some((ws, rest)) => Some(
                (MsgArgValue::Array(choose|v: Vec<u32>| v@ == ws), rest),
            ),
            None => None,
        },
    }
}

/// The arguments of a whole pattern taken off the front of a payload.
pub open spec fn spec_parse_args(pattern: Seq<MsgArgType>, b: Seq<u8>) -> Option<
    (Seq<MsgArgValue>, Seq<u8>),
>
    decreases pattern.len(),
{
    if pattern.len() == 0 {
        Some((Seq::empty(), b))
    } else {
        match spec_parse_one(pattern[0], b) {
            Some((v, rest)) => match spec_parse_args(pattern.skip(1), rest) {
                Some((vs, rest2)) => Some((seq![v] + vs, rest2)),
                None => None,
            },
            None => None,
        }
    }
}

/// Whether each parsed value carries exactly the data the payload held; the
/// `choose` placeholders above stand for a value with a known view, and this
/// predicate says the executable parser returns such values.
pub open spec fn spec_args_match(pattern: Seq<MsgArgType>, b: Seq<u8>, vs: Seq<MsgArgValue>,
    rest: Seq<u8>) -> bool
    decreases pattern.len(),
{
    if pattern.len() == 0 {
        vs.len() == 0 && rest == b
    } else if vs.len() == 0 {
        false
    } else {
        match (pattern[0], vs[0]) {
            (MsgArgType::Uint32, MsgArgValue::Uint32(v)) => match spec_parse_u32(b) {
                Some((w, r)) => v == w && spec_args_match(pattern.skip(1), r, vs.skip(1), rest),
                None => false,
            },
            (MsgArgType::Int32, MsgArgValue::Int32(v)) => match spec_parse_u32(b) {
                Some((w, r)) => u32_of_i32(v) == w && spec_args_match(
                    pattern.skip(1),
                    r,
                    vs.skip(1),
                    rest,
                ),
                None => false,
            },
            (MsgArgType::String, MsgArgValue::String(s)) => match spec_parse_str(b) {
                Some((cs, r)) => s@ == cs && spec_args_match(pattern.skip(1), r, vs.skip(1), rest),
                None => false,
            },
            (MsgArgType::Array, MsgArgValue::Array(a)) => match spec_parse_u32_array(b) {
                Some((ws, r)) => a@ == ws && spec_args_match(pattern.skip(1), r, vs.skip(1), rest),
                None => false,
            },
            _ => false,
        }
    }
}

/// A successful field-wise match gives one value per declared type, each of
/// the declared kind.
pub proof fn lemma_args_match_types(p: Seq<MsgArgType>, b: Seq<u8>, vs: Seq<MsgArgValue>,
    rest: Seq<u8>)
    requires
        spec_args_match(p, b, vs, rest),
    ensures
        vs.len() == p.len(),
        forall|i: int| 0 <= i < p.len() ==> (#[trigger] vs[i]).arg_type() == p[i],
    decreases p.len(),
{
    if p.len() > 0 {
        match p[0] {
            MsgArgType::Uint32 => {
                let pr0 = spec_parse_u32(b)->Some_0;
                lemma_args_match_types(p.skip(1), pr0.1, vs.skip(1), rest);
            },
            MsgArgType::Int32 => {
                let pr0 = spec_parse_u32(b)->Some_0;
                lemma_args_match_types(p.skip(1), pr0.1, vs.skip(1), rest);
            },
            MsgArgType::String => {
                let pr0 = spec_parse_str(b)->Some_0;
                lemma_args_match_types(p.skip(1), pr0.1, vs.skip(1), rest);
            },
            MsgArgType::Array => {
                let pr0 = spec_parse_u32_array(b)->Some_0;
                lemma_args_match_types(p.skip(1), pr0.1, vs.skip(1), rest);
            },
        }
        assert forall|i: int| 0 <= i < p.len() implies (#[trigger] vs[i]).arg_type() == p[i] by {
            if i > 0 {
                assert(vs.skip(1)[i - 1] == vs[i]);
                assert(p.skip(1)[i - 1] == p[i]);
            }
        }
    }
}

/// Whether the values carry exactly the data of some prefix of the payload.
pub open spec fn spec_args_match_prefix(pattern: Seq<MsgArgType>, b: Seq<u8>,
    vs: Seq<MsgArgValue>) -> bool {
    exists|rest: Seq<u8>| spec_args_match(pattern, b, vs, rest)
}

/// A declared pattern together with a parser for payloads that follow it.
pub struct Parser<'a>(&'a [MsgArgType]);

impl<'a> Parser<'a> {
    /// The declared pattern.
    pub closed spec fn pattern(self) -> Seq<MsgArgType> {
        self.0@
    }

    pub fn new(pattern: &'a [MsgArgType]) -> (r: Parser<'a>)
        ensures
            r.pattern() == pattern@,
    {
        Parser(pattern)
    }

    /// Parses one value per declared type, in order.  Succeeds exactly when
    /// the payload holds every declared field, and then returns values that
    /// carry the parsed data.
    pub fn parse(&self, buffer: &[u8]) -> (r: Result<Vec<MsgArgValue>, Error>)
        ensures
            r is Ok <==> spec_parse_args(self.pattern(), buffer@) is Some,
            r matches Ok(vs) ==> spec_args_match_prefix(self.pattern(), buffer@, vs@),
    {
        let mut data: Vec<u8> = Vec::new();
        push_bytes(&mut data, buffer);
        let mut reader = PayloadReader::new(data);
        proof {
            assert(data@ =~= buffer@);
        }
        let r = self.parse_reader(&mut reader);
        proof {
            if r is Ok {
                let vs = r->Ok_0;
                assert(spec_args_match_prefix(self.pattern(), buffer@, vs@));
            }
        }
        r
    }

    /// Parses one value per declared type from a reader, consuming exactly
    /// the declared fields and leaving the rest.
    pub fn parse_reader(&self, iter: &mut PayloadReader) -> (r: Result<Vec<MsgArgValue>, Error>)
        requires
            old(iter).wf(),
        ensures
            final(iter).wf(),
            r is Ok <==> spec_parse_args(self.pattern(), old(iter).remaining()) is Some,
            r matches Ok(vs) ==> spec_args_match(
                self.pattern(),
                old(iter).remaining(),
                vs@,
                final(iter).remaining(),
            ) && vs@.len() == self.pattern().len(),
    {
        let ghost buffer_view = old(iter).remaining();
        let mut values: Vec<MsgArgValue> = Vec::new();
        let mut i: usize = 0;
        proof {
            assert(self.pattern().skip(0) =~= self.pattern());
            assert forall|vs2: Seq<MsgArgValue>, rest: Seq<u8>|
                #[trigger] spec_args_match(self.pattern().skip(0), iter.remaining(), vs2, rest)
                implies spec_args_match(self.pattern(), buffer_view, values@ + vs2, rest) by {
                assert(values@ + vs2 =~= vs2);
            }
        }
        while i < self.0.len()
            invariant
                self.0@ == self.pattern(),
                buffer_view == old(iter).remaining(),
                i <= self.0@.len(),
                iter.wf(),
                spec_parse_args(self.pattern(), buffer_view) is Some <==> spec_parse_args(
                    self.pattern().skip(i as int),
                    iter.remaining(),
                ) is Some,
                values@.len() == i,
                forall|vs2: Seq<MsgArgValue>, rest: Seq<u8>|
                    #[trigger] spec_args_match(
                        self.pattern().skip(i as int),
                        iter.remaining(),
                        vs2,
                        rest,
                    ) ==> spec_args_match(self.pattern(), buffer_view, values@ + vs2, rest),
            decreases self.0@.len() - i,
        {
            let ghost rem = iter.remaining();
            let ghost tail = self.pattern().skip(i as int);
            proof {
                assert(tail[0] == self.pattern()[i as int]);
                assert(tail.skip(1) =~= self.pattern().skip(i + 1));
            }
            let parsed = match self.0[i] {
                MsgArgType::Uint32 => match parse_u32(iter) {
                    Ok(v) => MsgArgValue::Uint32(v),
                    Err(e) => {
                        return Err(e);
                    },
                },
                MsgArgType::Int32 => match parse_i32(iter) {
                    Ok(v) => MsgArgValue::Int32(v),
                    Err(e) => {
                        return Err(e);
                    },
                },
                MsgArgType::String => match parse_str(iter) {
                    Ok(v) => MsgArgValue::String(v),
                    Err(e) => {
                        return Err(e);
                    },
                },
                MsgArgType::Array => match parse_u32_array(iter) {
                    Ok(v) => MsgArgValue::Array(v),
                    Err(e) => {
                        return Err(e);
                    },
                },
            };
            proof {
                assert forall|vs2: Seq<MsgArgValue>, rest: Seq<u8>|
                    #[trigger] spec_args_match(
                        self.pattern().skip(i + 1),
                        iter.remaining(),
                        vs2,
                        rest,
                    ) implies spec_args_match(
                    self.pattern(),
                    buffer_view,
                    values@.push(parsed) + vs2,
                    rest,
                ) by {
                    let whole = seq![parsed] + vs2;
                    assert(whole[0] == parsed);
                    assert(whole.skip(1) =~= vs2);
                    assert(spec_args_match(tail, rem, whole, rest));
                    assert(values@.push(parsed) + vs2 =~= values@ + whole);
                }
            }
            values.push(parsed);
            i = i + 1;
        }
        proof {
            assert(self.pattern().skip(i as int).len() == 0);
            assert(spec_args_match(
                self.pattern().skip(i as int),
                iter.remaining(),
                Seq::<MsgArgValue>::empty(),
                iter.remaining(),
            ));
            assert(spec_args_match(
                self.pattern(),
                buffer_view,
                values@ + Seq::<MsgArgValue>::empty(),
                iter.remaining(),
            ));
            assert(values@ + Seq::<MsgArgValue>::empty() =~= values@);
            assert(spec_args_match(self.pattern(), buffer_view, values@, iter.remaining()));
        }
        Ok(values)
    }
}

} // verus!

verus! {

/// The declared pattern a value sequence follows.
pub open spec fn spec_pattern_of(vs: Seq<MsgArgValue>) -> Seq<MsgArgType> {
    vs.map_values(|v: MsgArgValue| v.arg_type())
}

/// The bytes of a word sequence occupy 4 bytes per word.
pub proof fn lemma_word_bytes_len(ws: Seq<u32>)
    ensures
        spec_word_bytes(ws).len() == 4 * ws.len(),
    decreases ws.len(),
{
    lemma_auto_spec_u32_to_from_le_bytes();
    if ws.len() > 0 {
        lemma_word_bytes_len(ws.skip(1));
    }
}

/// Reading the bytes of a word sequence word by word gives the words back.
pub proof fn lemma_words_of_word_bytes(ws: Seq<u32>)
    ensures
        spec_words(spec_word_bytes(ws), ws.len() as int) =~= ws,
    decreases ws.len(),
{
    lemma_auto_spec_u32_to_from_le_bytes();
    lemma_word_bytes_len(ws);
    if ws.len() > 0 {
        lemma_words_of_word_bytes(ws.skip(1));
        lemma_word_bytes_len(ws.skip(1));
        let b = spec_word_bytes(ws);
        assert forall|j: int| 0 <= j < ws.len() implies spec_words(b, ws.len() as int)[j]
            == ws[j] by {
            if j == 0 {
                assert(b.subrange(0, 4) =~= spec_u32_to_le_bytes(ws[0]));
            } else {
                assert(b.subrange(4 * j, 4 * j + 4) =~= spec_word_bytes(ws.skip(1)).subrange(
                    4 * (j - 1),
                    4 * (j - 1) + 4,
                ));
                assert(spec_words(spec_word_bytes(ws.skip(1)), ws.skip(1).len() as int)[j - 1]
                    == ws.skip(1)[j - 1]);
            }
        }
    }
}

/// A word array of any length round-trips: its encoding parses back to the
/// same words, leaving the rest.
pub proof fn lemma_word_array_round_trip(ws: Seq<u32>, rest: Seq<u8>)
    requires
        4 * ws.len() + 4 <= 0xFFFF_FFFF,
    ensures
        spec_parse_u32_array(spec_encode_word_array(ws) + rest) == Some((ws, rest)),
{
    lemma_word_bytes_len(ws);
    lemma_words_of_word_bytes(ws);
    let a = spec_word_bytes(ws);
    crate::parsing::lemma_array_round_trip(a, rest);
    assert(crate::wire_format::spec_encode_array(a) =~= spec_encode_word_array(ws));
}

/// The codec round-trip law: any argument values that fit their size
/// prefixes, encoded and then parsed back with the pattern they follow,
/// give the same values and leave exactly the trailing bytes.
pub proof fn lemma_args_round_trip(vs: Seq<MsgArgValue>, rest: Seq<u8>)
    requires
        spec_args_fit(vs),
    ensures
        spec_parse_args(spec_pattern_of(vs), spec_encode_args(vs) + rest) is Some,
        spec_args_match(spec_pattern_of(vs), spec_encode_args(vs) + rest, vs, rest),
    decreases vs.len(),
{
    lemma_auto_spec_u32_to_from_le_bytes();
    let p = spec_pattern_of(vs);
    let b = spec_encode_args(vs) + rest;
    if vs.len() == 0 {
        assert(b =~= rest);
    } else {
        let v = vs[0];
        let tail_bytes = spec_encode_args(vs.skip(1)) + rest;
        assert(b =~= spec_encode_arg(v) + tail_bytes);
        assert(spec_args_fit(vs.skip(1))) by {
            assert(forall|i: int|
                0 <= i < vs.skip(1).len() ==> vs.skip(1)[i] == vs[i + 1]
                    && spec_arg_fits(#[trigger] vs.skip(1)[i]));
        }
        lemma_args_round_trip(vs.skip(1), rest);
        assert(p[0] == v.arg_type());
        assert(p.skip(1) =~= spec_pattern_of(vs.skip(1)));
        match v {
            MsgArgValue::Uint32(x) => {
                crate::parsing::lemma_u32_round_trip(x, tail_bytes);
            },
            MsgArgValue::Int32(x) => {
                crate::parsing::lemma_u32_round_trip(u32_of_i32(x), tail_bytes);
            },
            MsgArgValue::String(st) => {
                crate::parsing::lemma_str_round_trip(st@, tail_bytes);
            },
            MsgArgValue::Array(a) => {
                lemma_word_array_round_trip(a@, tail_bytes);
            },
        }
    }
}

} // verus!
