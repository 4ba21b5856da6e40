//! Binary wire encoding of the two messages.
//!
//! The schema compiler assigns `id` field number 1 and `name` field
//! number 2.  On the wire a message is a sequence of fields, each a tag
//! byte (field number shifted left by three, or-ed with the wire type)
//! followed by its payload: a base-128 varint for `id`, a length-prefixed
//! byte string for `name`.  A field holding its default value (zero id,
//! empty name) is omitted.  The decoders accept exactly the shapes the
//! encoders emit, with two leniencies: a varint need not be minimal, and
//! a field may spell out its default value instead of being left off.
//! Anything else is rejected, never a panic.

use vstd::prelude::*;
use vstd::arithmetic::div_mod::{lemma_fundamental_div_mod, lemma_fundamental_div_mod_converse};
use vstd::slice::{slice_subrange, slice_to_vec};
use vstd::string::StrSliceExecFns;
use vstd::utf8::{
    decode_utf8, encode_utf8, encode_utf8_decode_utf8, encode_utf8_valid_utf8, valid_utf8,
};
use crate::hero::{Hero, HeroById};

verus! {

/// Base-128 varint encoding of `n`: seven value bits per byte, least
/// significant group first; every byte but the last has its high bit set.
pub open spec fn varint(n: u64) -> Seq<u8>
    decreases n,
{
    if n < 128 {
        seq![n as u8]
    } else {
        seq![(n % 128 + 128) as u8] + varint(n / 128)
    }
}

/// What reading one varint from the front of `b` yields: the value and
/// the number of bytes consumed, or `None` when no complete varint is
/// there or the value would not fit in 64 bits.
pub open spec fn dec_varint(b: Seq<u8>) -> Option<(u64, int)>
    decreases b.len(),
{
    if b.len() == 0 {
        None
    } else if b[0] < 128 {
        Some((b[0] as u64, 1))
    } else {
        match dec_varint(b.drop_first()) {
            None => None,
            Some((v, k)) => if (b[0] - 128) + 128 * v <= u64::MAX {
                Some((((b[0] - 128) + 128 * v) as u64, k + 1))
            } else {
                None
            },
        }
    }
}

/// Reading back an encoded varint, from in front of anything, yields the
/// encoded value and consumes exactly the encoding.
pub proof fn lemma_varint_round_trip(n: u64, rest: Seq<u8>)
    ensures
        dec_varint(varint(n) + rest) == Some((n, varint(n).len() as int)),
    decreases n,
{
    let b = varint(n) + rest;
    if n < 128 {
        assert(b[0] == n as u8);
    } else {
        assert(b[0] == (n % 128 + 128) as u8);
        assert(b.drop_first() =~= varint(n / 128) + rest);
        lemma_varint_round_trip(n / 128, rest);
        lemma_fundamental_div_mod(n as int, 128);
        assert((b[0] - 128) + 128 * (n as int / 128) == n);
    }
}

/// Appends the varint encoding of `n` to `out`.
pub fn encode_varint(n: u64, out: &mut Vec<u8>)
    ensures
        final(out)@ == old(out)@ + varint(n),
{
    let mut v: u64 = n;
    while v >= 128
        invariant
            out@ + varint(v) == old(out)@ + varint(n),
        decreases v,
    {
        let byte: u8 = (v % 128 + 128) as u8;
        proof {
            assert(out@.push(byte) + varint(v / 128) =~= out@ + varint(v));
        }
        out.push(byte);
        v = v / 128;
    }
    proof {
        assert(out@.push(v as u8) =~= out@ + varint(v));
    }
    out.push(v as u8);
}

/// Reads one varint from `buf` starting at `pos`; yields the value and
/// the position just past it, exactly as `dec_varint` says of the bytes
/// from `pos` on.
pub fn decode_varint(buf: &[u8], pos: usize) -> (r: Option<(u64, usize)>)
    requires
        pos <= buf@.len(),
    ensures
        ({
            let d = dec_varint(buf@.skip(pos as int));
            match r {
                None => d is None,
                Some(p) => pos < p.1 <= buf@.len() && d == Some((p.0, p.1 - pos)),
            }
        }),
    decreases buf@.len() - pos,
{
    proof {
        assert(buf@.skip(pos as int).len() == buf@.len() - pos);
    }
    if pos == buf.len() {
        None
    } else {
        let b: u8 = buf[pos];
        proof {
            assert(buf@.skip(pos as int)[0] == b);
        }
        if b < 128 {
            Some((b as u64, pos + 1))
        } else {
            proof {
                assert(buf@.skip(pos as int).drop_first() =~= buf@.skip(pos as int + 1));
            }
            match decode_varint(buf, pos + 1) {
                None => None,
                Some((v, end)) => {
                    let low: u64 = (b - 128) as u64;
                    if v <= (u64::MAX - low) / 128 {
                        proof {
                            lemma_fundamental_div_mod((u64::MAX - low) as int, 128);
                        }
                        Some((low + 128 * v, end))
                    } else {
                        proof {
                            lemma_fundamental_div_mod((u64::MAX - low) as int, 128);
                        }
                        None
                    }
                },
            }
        }
    }
}

/// A protobuf `int32` travels as the 64-bit two's-complement image of
/// the id, encoded as a varint: ten bytes for a negative id.
pub open spec fn wire64(id: i32) -> u64 {
    if id >= 0 {
        id as u64
    } else {
        (0x1_0000_0000_0000_0000 + id) as u64
    }
}

/// The id a decoder reads back from a wire value: the low 32 bits,
/// interpreted as two's complement.
pub open spec fn wire_to_id(v: u64) -> i32 {
    let low = v as int % 0x1_0000_0000;
    if low < 0x8000_0000 {
        low as i32
    } else {
        (low - 0x1_0000_0000) as i32
    }
}

/// Every id survives the trip onto the wire and back.
pub proof fn lemma_id_round_trip(id: i32)
    ensures
        wire_to_id(wire64(id)) == id,
{
    if id >= 0 {
        lemma_fundamental_div_mod_converse(id as int, 0x1_0000_0000, 0, id as int);
    } else {
        lemma_fundamental_div_mod_converse(
            0x1_0000_0000_0000_0000 + id,
            0x1_0000_0000,
            0xFFFF_FFFF,
            0x1_0000_0000 + id,
        );
    }
}

/// Computes `wire64(id)`.
fn id_to_wire(id: i32) -> (w: u64)
    ensures
        w == wire64(id),
{
    if id >= 0 {
        id as u64
    } else {
        let m: u64 = (-(id as i64)) as u64;
        (u64::MAX - m) + 1
    }
}

/// Computes `wire_to_id(v)`.
fn wire_to_id_exec(v: u64) -> (id: i32)
    ensures
        id == wire_to_id(v),
{
    let low: u64 = v % 0x1_0000_0000;
    if low < 0x8000_0000 {
        low as i32
    } else {
        ((low as i64) - 0x1_0000_0000) as i32
    }
}

/// Field 1 (`id`) of either message: tag byte 8 (field 1, varint wire
/// type) then the id as a varint; omitted when the id is zero.
pub open spec fn enc_id_field(id: i32) -> Seq<u8> {
    if id == 0 {
        Seq::empty()
    } else {
        seq![8u8] + varint(wire64(id))
    }
}

/// Field 2 (`name`) of `Hero`: tag byte 18 (field 2, length-delimited
/// wire type), the byte length as a varint, then the UTF-8 bytes of the
/// name; omitted when the name is empty.
pub open spec fn enc_name_field(name: Seq<u8>) -> Seq<u8> {
    if name.len() == 0 {
        Seq::empty()
    } else {
        seq![18u8] + varint(name.len() as u64) + name
    }
}

/// The wire encoding of a `HeroById` whose id is `id`.
pub open spec fn spec_encode_hero_by_id(id: i32) -> Seq<u8> {
    enc_id_field(id)
}

/// The wire encoding of a `Hero` whose id is `id` and whose name has the
/// UTF-8 bytes `name`.
pub open spec fn spec_encode_hero(id: i32, name: Seq<u8>) -> Seq<u8> {
    enc_id_field(id) + enc_name_field(name)
}

/// What decoding a `HeroById` from `b` yields: id 0 for an empty body,
/// otherwise the id of a lone field 1 that fills `b` exactly.
pub open spec fn spec_decode_hero_by_id(b: Seq<u8>) -> Option<i32> {
    if b.len() == 0 {
        Some(0)
    } else if b[0] == 8 {
        match dec_varint(b.drop_first()) {
            None => None,
            Some((v, k)) => if 1 + k == b.len() {
                Some(wire_to_id(v))
            } else {
                None
            },
        }
    } else {
        None
    }
}

/// What the name field decodes to from the bytes after the id field: an
/// empty name for no bytes, otherwise the payload of a field 2 whose
/// length reaches exactly to the end of `b`.
pub open spec fn dec_name_rest(b: Seq<u8>) -> Option<Seq<u8>> {
    if b.len() == 0 {
        Some(Seq::empty())
    } else if b[0] == 18 {
        match dec_varint(b.drop_first()) {
            None => None,
            Some((len, k)) => if 1 + k + len == b.len() {
                Some(b.skip(1 + k))
            } else {
                None
            },
        }
    } else {
        None
    }
}

/// What decoding the two fields of a `Hero` from `b` yields: the id (0
/// when field 1 is absent) and the raw name bytes.
pub open spec fn spec_decode_hero_fields(b: Seq<u8>) -> Option<(i32, Seq<u8>)> {
    if b.len() > 0 && b[0] == 8 {
        match dec_varint(b.drop_first()) {
            None => None,
            Some((v, k)) => match dec_name_rest(b.skip(1 + k)) {
                None => None,
                Some(name) => Some((wire_to_id(v), name)),
            },
        }
    } else {
        match dec_name_rest(b) {
            None => None,
            Some(name) => Some((0, name)),
        }
    }
}

/// What decoding a `Hero` message from `b` yields: its fields, with the
/// name bytes required to be valid UTF-8 and read back as text.
pub open spec fn spec_decode_hero(b: Seq<u8>) -> Option<(i32, Seq<char>)> {
    match spec_decode_hero_fields(b) {
        None => None,
        Some((id, name)) => if valid_utf8(name) {
            Some((id, decode_utf8(name)))
        } else {
            None
        },
    }
}

/// Decoding an encoded `HeroById` gives back its id.
pub proof fn lemma_hero_by_id_round_trip(id: i32)
    ensures
        spec_decode_hero_by_id(spec_encode_hero_by_id(id)) == Some(id),
{
    let b = spec_encode_hero_by_id(id);
    if id == 0 {
        assert(b.len() == 0);
    } else {
        let w = wire64(id);
        assert(b[0] == 8);
        assert(b.drop_first() =~= varint(w) + Seq::<u8>::empty());
        lemma_varint_round_trip(w, Seq::<u8>::empty());
        assert(varint(w) + Seq::<u8>::empty() =~= varint(w));
        lemma_id_round_trip(id);
    }
}

/// Decoding an encoded `Hero` gives back its id and name bytes.
pub proof fn lemma_hero_fields_round_trip(id: i32, name: Seq<u8>)
    requires
        name.len() <= u64::MAX,
    ensures
        spec_decode_hero_fields(spec_encode_hero(id, name)) == Some((id, name)),
{
    let b = spec_encode_hero(id, name);
    lemma_name_rest_round_trip(name);
    if id == 0 {
        assert(b =~= enc_name_field(name));
        if name.len() != 0 {
            assert(b[0] == 18);
        }
    } else {
        let w = wire64(id);
        assert(b[0] == 8);
        assert(b.drop_first() =~= varint(w) + enc_name_field(name));
        lemma_varint_round_trip(w, enc_name_field(name));
        let k = varint(w).len() as int;
        assert(b.skip(1 + k) =~= enc_name_field(name));
        lemma_id_round_trip(id);
    }
}

/// Decoding an encoded name field gives back the name bytes.
proof fn lemma_name_rest_round_trip(name: Seq<u8>)
    requires
        name.len() <= u64::MAX,
    ensures
        dec_name_rest(enc_name_field(name)) == Some(name),
{
    let b = enc_name_field(name);
    if name.len() == 0 {
        assert(name =~= Seq::<u8>::empty());
    } else {
        let n = name.len() as u64;
        assert(b[0] == 18);
        assert(b.drop_first() =~= varint(n) + name);
        lemma_varint_round_trip(n, name);
        let k = varint(n).len() as int;
        assert(b.len() == 1 + k + n);
        assert(b.skip(1 + k) =~= name);
    }
}

/// Schema fidelity, round trip at the message level: a `Hero` with any
/// id and any name short enough to measure its byte length, encoded and
/// decoded again, comes back with the same id and the same name.
pub proof fn lemma_hero_round_trip(id: i32, name: Seq<char>)
    requires
        encode_utf8(name).len() <= u64::MAX,
    ensures
        spec_decode_hero(spec_encode_hero(id, encode_utf8(name))) == Some((id, name)),
{
    lemma_hero_fields_round_trip(id, encode_utf8(name));
    encode_utf8_valid_utf8(name);
    encode_utf8_decode_utf8(name);
}

/// Encodes `m` in the wire format.
pub fn encode_hero_by_id(m: &HeroById) -> (r: Vec<u8>)
    ensures
        r@ == spec_encode_hero_by_id(m.id),
{
    let mut out: Vec<u8> = Vec::new();
    if m.id != 0 {
        out.push(8);
        encode_varint(id_to_wire(m.id), &mut out);
        proof {
            assert(out@ =~= seq![8u8] + varint(wire64(m.id)));
        }
    }
    out
}

/// Encodes `h` in the wire format; the name travels as its UTF-8 bytes.
pub fn encode_hero(h: &Hero) -> (r: Vec<u8>)
    ensures
        r@ == spec_encode_hero(h.id, encode_utf8(h.name@)),
{
    let mut out: Vec<u8> = Vec::new();
    if h.id != 0 {
        out.push(8);
        encode_varint(id_to_wire(h.id), &mut out);
    }
    proof {
        assert(out@ =~= enc_id_field(h.id));
    }
    let mut name_bytes = h.name.as_str().as_bytes_vec();
    let len: usize = name_bytes.len();
    if len > 0 {
        out.push(18);
        encode_varint(len as u64, &mut out);
        out.append(&mut name_bytes);
    }
    proof {
        assert(out@ =~= enc_id_field(h.id) + enc_name_field(encode_utf8(h.name@)));
    }
    out
}

/// Decodes a `HeroById`.  An empty body is the message with id 0; any
/// other body must be exactly one field 1.  Malformed bytes give `None`.
pub fn decode_hero_by_id(buf: &[u8]) -> (r: Option<HeroById>)
    ensures
        match r {
            None => spec_decode_hero_by_id(buf@) is None,
            Some(m) => spec_decode_hero_by_id(buf@) == Some(m.id),
        },
{
    if buf.len() == 0 {
        Some(HeroById { id: 0 })
    } else if buf[0] == 8 {
        proof {
            assert(buf@.drop_first() =~= buf@.skip(1));
        }
        match decode_varint(buf, 1) {
            None => None,
            Some((v, end)) => if end == buf.len() {
                Some(HeroById { id: wire_to_id_exec(v) })
            } else {
                None
            },
        }
    } else {
        None
    }
}

/// Relies on `String::from_utf8`: it accepts exactly the byte sequences
/// that are valid UTF-8 and returns the string those bytes spell.
#[verifier::external_body]
fn bytes_to_string(v: Vec<u8>) -> (r: Option<String>)
    ensures
        r is Some <==> valid_utf8(v@),
        r matches Some(s) ==> encode_utf8(s@) == v@,
{
    String::from_utf8(v).ok()
}

/// Decodes a `Hero`: an optional field 1, then an optional field 2 whose
/// payload must reach exactly to the end of `buf` and hold valid UTF-8.
/// Malformed bytes give `None`.
pub fn decode_hero(buf: &[u8]) -> (r: Option<Hero>)
    ensures
        match r {
            None => spec_decode_hero(buf@) is None,
            Some(h) => spec_decode_hero(buf@) matches Some(m) && h.id == m.0 && h.name@ == m.1,
        },
{
    let mut id: i32 = 0;
    let mut rest: usize = 0;
    if buf.len() > 0 && buf[0] == 8 {
        proof {
            assert(buf@.drop_first() =~= buf@.skip(1));
        }
        match decode_varint(buf, 1) {
            None => {
                return None;
            },
            Some((v, end)) => {
                id = wire_to_id_exec(v);
                rest = end;
            },
        }
    }
    proof {
        assert(buf@.skip(0) =~= buf@);
    }
    let b_rest = Ghost(buf@.skip(rest as int));
    if rest == buf.len() {
        proof {
            assert(b_rest@.len() == 0);
            assert(valid_utf8(Seq::<u8>::empty()));
            assert(decode_utf8(Seq::<u8>::empty()) =~= Seq::<char>::empty());
        }
        return Some(Hero { id, name: String::new() });
    }
    proof {
        assert(b_rest@[0] == buf@[rest as int]);
    }
    if buf[rest] != 18 {
        return None;
    }
    proof {
        assert(b_rest@.drop_first() =~= buf@.skip(rest as int + 1));
    }
    match decode_varint(buf, rest + 1) {
        None => None,
        Some((len, end)) => {
            if len == (buf.len() - end) as u64 {
                let name_bytes = slice_to_vec(slice_subrange(buf, end, buf.len()));
                proof {
                    assert(b_rest@.skip(1 + (end - (rest + 1))) =~= buf@.skip(end as int));
                    assert(name_bytes@ =~= buf@.skip(end as int));
                }
                match bytes_to_string(name_bytes) {
                    None => None,
                    Some(name) => {
                        proof {
                            encode_utf8_decode_utf8(name@);
                        }
                        Some(Hero { id, name })
                    },
                }
            } else {
                None
            }
        },
    }
}

} // verus!
