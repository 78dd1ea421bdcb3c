//! Byte-exact encodings of the stored feed record and of the program's
//! instructions.
//!
//! A record serializes as, in order: `owner` (32 bytes), `name` (32
//! bytes, zero-padded), `updated_at` (64-bit signed, little endian), and
//! `value` (a presence byte, then the 128-bit magnitude little endian
//! when present).  An instruction starts with a variant byte, followed by
//! the variant's fields in declaration order.  Decoding accepts exactly
//! the byte strings that encoding produces; everything else is an
//! `EncodingError`.

use vstd::prelude::*;

use crate::errors::Error;
use crate::state::{Feed, Oracle, OracleInstruction, Timestamp};

verus! {

/// Encoding of an optional value: a presence byte, then the magnitude.
pub open spec fn spec_encode_value(v: Option<u128>) -> Seq<u8> {
    match v {
        None => seq![0u8],
        Some(x) => seq![1u8] + vstd::bytes::spec_u128_to_le_bytes(x),
    }
}

/// Encoding of a whole stored record.
pub open spec fn spec_encode_record(
    owner: Seq<u8>,
    name: Seq<u8>,
    updated_at: Timestamp,
    value: Option<u128>,
) -> Seq<u8> {
    owner + name + vstd::bytes::spec_u64_to_le_bytes(updated_at as u64) + spec_encode_value(value)
}

/// The byte strings that are encodings of some well-formed record.
pub open spec fn valid_record_encoding(b: Seq<u8>) -> bool {
    ||| (b.len() == 73 && b[72] == 0)
    ||| (b.len() == 89 && b[72] == 1)
}

/// Owner field of an encoded record.
pub open spec fn spec_record_owner(b: Seq<u8>) -> Seq<u8> {
    b.subrange(0, 32)
}

/// Name field of an encoded record, still zero-padded.
pub open spec fn spec_record_name(b: Seq<u8>) -> Seq<u8> {
    b.subrange(32, 64)
}

/// Timestamp field of an encoded record.
pub open spec fn spec_record_updated_at(b: Seq<u8>) -> Timestamp {
    vstd::bytes::spec_u64_from_le_bytes(b.subrange(64, 72)) as i64
}

/// Value field of an encoded record.
pub open spec fn spec_record_value(b: Seq<u8>) -> Option<u128> {
    if b.len() == 89 {
        Some(vstd::bytes::spec_u128_from_le_bytes(b.subrange(73, 89)))
    } else {
        None
    }
}

/// Appends the encoding of an optional value to `out`.
fn push_value(out: &mut Vec<u8>, value: &Option<u128>)
    ensures
        final(out)@ == old(out)@ + spec_encode_value(*value),
{
    match value {
        None => {
            out.push(0);
            proof {
                assert(final(out)@ =~= old(out)@ + spec_encode_value(None::<u128>));
            }
        },
        Some(v) => {
            out.push(1);
            let mut magnitude = vstd::bytes::u128_to_le_bytes(*v);
            out.append(&mut magnitude);
            proof {
                assert(final(out)@ =~= old(out)@ + spec_encode_value(Some(*v)));
            }
        },
    }
}

/// Serializes a stored record into its canonical byte string.
pub fn encode_record(o: &Oracle) -> (out: Vec<u8>)
    requires
        o.wf(),
    ensures
        out@ == spec_encode_record(o.owner@, o.name@, o.updated_at, o.value),
        valid_record_encoding(out@),
{
    let mut out = vstd::slice::slice_to_vec(o.owner.as_slice());
    let mut name_part = vstd::slice::slice_to_vec(o.name.as_slice());
    out.append(&mut name_part);
    let mut stamp = vstd::bytes::u64_to_le_bytes(#[verifier::truncate] (o.updated_at as u64));
    out.append(&mut stamp);
    push_value(&mut out, &o.value);
    proof {
        vstd::bytes::lemma_auto_spec_u64_to_from_le_bytes();
        vstd::bytes::lemma_auto_spec_u128_to_from_le_bytes();
        assert(out@ =~= spec_encode_record(o.owner@, o.name@, o.updated_at, o.value));
    }
    out
}

/// Parses a stored record, accepting exactly the canonical encodings.
pub fn decode_record(bytes: &[u8]) -> (r: Result<Oracle, Error>)
    ensures
        r is Ok <==> valid_record_encoding(bytes@),
        r matches Ok(o) ==> o.wf() && bytes@ == spec_encode_record(
            o.owner@,
            o.name@,
            o.updated_at,
            o.value,
        ),
        r matches Ok(o) ==> o.owner@ == spec_record_owner(bytes@) && o.name@ == spec_record_name(
            bytes@,
        ) && o.updated_at == spec_record_updated_at(bytes@) && o.value == spec_record_value(bytes@),
        r matches Err(e) ==> e == Error::EncodingError,
{
    if bytes.len() != 73 && bytes.len() != 89 {
        return Err(Error::EncodingError);
    }
    let tag = bytes[72];
    if bytes.len() == 73 && tag != 0 {
        return Err(Error::EncodingError);
    }
    if bytes.len() == 89 && tag != 1 {
        return Err(Error::EncodingError);
    }
    let owner = vstd::slice::slice_to_vec(vstd::slice::slice_subrange(bytes, 0, 32));
    let name = vstd::slice::slice_to_vec(vstd::slice::slice_subrange(bytes, 32, 64));
    let stamp_word = vstd::bytes::u64_from_le_bytes(vstd::slice::slice_subrange(bytes, 64, 72));
    let updated_at = #[verifier::truncate] (stamp_word as i64);
    let value = if bytes.len() == 89 {
        Some(vstd::bytes::u128_from_le_bytes(vstd::slice::slice_subrange(bytes, 73, 89)))
    } else {
        None
    };
    let o = Oracle { owner, name, updated_at, value };
    proof {
        vstd::bytes::lemma_auto_spec_u64_to_from_le_bytes();
        vstd::bytes::lemma_auto_spec_u128_to_from_le_bytes();
        assert((stamp_word as i64) as u64 == stamp_word) by (bit_vector);
        assert(bytes@ =~= spec_encode_record(o.owner@, o.name@, o.updated_at, o.value));
    }
    Ok(o)
}

/// A record reads back from its canonical encoding field by field: the
/// encoding is valid, and each accessor recovers what was written.
pub proof fn lemma_record_accessors(owner: Seq<u8>, name: Seq<u8>, t: Timestamp, v: Option<u128>)
    requires
        owner.len() == 32,
        name.len() == 32,
    ensures
        valid_record_encoding(spec_encode_record(owner, name, t, v)),
        spec_record_owner(spec_encode_record(owner, name, t, v)) == owner,
        spec_record_name(spec_encode_record(owner, name, t, v)) == name,
        spec_record_updated_at(spec_encode_record(owner, name, t, v)) == t,
        spec_record_value(spec_encode_record(owner, name, t, v)) == v,
{
    vstd::bytes::lemma_auto_spec_u64_to_from_le_bytes();
    vstd::bytes::lemma_auto_spec_u128_to_from_le_bytes();
    let b = spec_encode_record(owner, name, t, v);
    assert(owner =~= b.subrange(0, 32));
    assert(name =~= b.subrange(32, 64));
    assert(vstd::bytes::spec_u64_to_le_bytes(t as u64) =~= b.subrange(64, 72));
    assert((t as u64) as i64 == t) by (bit_vector);
    match v {
        None => {
            assert(b.len() == 73);
        },
        Some(x) => {
            assert(b.len() == 89);
            assert(vstd::bytes::spec_u128_to_le_bytes(x) =~= b.subrange(73, 89));
        },
    }
}

/// The canonical encoding is injective: equal byte strings can only come
/// from equal records.
pub proof fn lemma_record_encoding_injective(
    owner1: Seq<u8>,
    name1: Seq<u8>,
    t1: Timestamp,
    v1: Option<u128>,
    owner2: Seq<u8>,
    name2: Seq<u8>,
    t2: Timestamp,
    v2: Option<u128>,
)
    requires
        owner1.len() == 32,
        name1.len() == 32,
        owner2.len() == 32,
        name2.len() == 32,
        spec_encode_record(owner1, name1, t1, v1) == spec_encode_record(owner2, name2, t2, v2),
    ensures
        owner1 == owner2,
        name1 == name2,
        t1 == t2,
        v1 == v2,
{
    vstd::bytes::lemma_auto_spec_u64_to_from_le_bytes();
    vstd::bytes::lemma_auto_spec_u128_to_from_le_bytes();
    let b1 = spec_encode_record(owner1, name1, t1, v1);
    let b2 = spec_encode_record(owner2, name2, t2, v2);
    assert(owner1 =~= b1.subrange(0, 32));
    assert(name1 =~= b1.subrange(32, 64));
    assert(vstd::bytes::spec_u64_to_le_bytes(t1 as u64) =~= b1.subrange(64, 72));
    assert(owner2 =~= b2.subrange(0, 32));
    assert(name2 =~= b2.subrange(32, 64));
    assert(vstd::bytes::spec_u64_to_le_bytes(t2 as u64) =~= b2.subrange(64, 72));
    assert(t1 as u64 == t2 as u64);
    assert(t1 as u64 == t2 as u64 ==> t1 == t2) by (bit_vector);
    assert(b1[72] == b2[72]);
    match v1 {
        None => {
            assert(b1.len() == 73);
            assert(v2 is None);
        },
        Some(x1) => {
            assert(b1.len() == 89);
            let x2 = v2->Some_0;
            assert(vstd::bytes::spec_u128_to_le_bytes(x1) =~= b1.subrange(73, 89));
            assert(vstd::bytes::spec_u128_to_le_bytes(x2) =~= b2.subrange(73, 89));
            assert(x1 == x2);
        },
    }
}

/// True of instructions whose fixed-width fields are well formed.
pub open spec fn wf_instruction(i: OracleInstruction) -> bool {
    match i {
        OracleInstruction::Create { feed, balance } => feed.wf(),
        OracleInstruction::Update(_) => true,
        OracleInstruction::Delete => true,
    }
}

/// Encoding of an instruction: a variant byte, then the fields in order.
pub open spec fn spec_encode_instruction(i: OracleInstruction) -> Seq<u8> {
    match i {
        OracleInstruction::Create { feed, balance } => seq![0u8] + feed.owner@ + feed.name@
            + spec_encode_value(feed.value) + vstd::bytes::spec_u64_to_le_bytes(balance),
        OracleInstruction::Update(v) => seq![1u8] + spec_encode_value(v),
        OracleInstruction::Delete => seq![2u8],
    }
}

/// The byte strings that are encodings of some well-formed instruction.
pub open spec fn valid_instruction_encoding(b: Seq<u8>) -> bool {
    if b.len() == 0 {
        false
    } else if b[0] == 0 {
        ||| (b.len() == 74 && b[65] == 0)
        ||| (b.len() == 90 && b[65] == 1)
    } else if b[0] == 1 {
        ||| (b.len() == 2 && b[1] == 0)
        ||| (b.len() == 18 && b[1] == 1)
    } else {
        b.len() == 1 && b[0] == 2
    }
}

/// Stored-owner field of an encoded create instruction.
pub open spec fn spec_create_owner(b: Seq<u8>) -> Seq<u8> {
    b.subrange(1, 33)
}

/// Name field of an encoded create instruction, zero-padded.
pub open spec fn spec_create_name(b: Seq<u8>) -> Seq<u8> {
    b.subrange(33, 65)
}

/// Initial value field of an encoded create instruction.
pub open spec fn spec_create_value(b: Seq<u8>) -> Option<u128> {
    if b.len() == 90 {
        Some(vstd::bytes::spec_u128_from_le_bytes(b.subrange(66, 82)))
    } else {
        None
    }
}

/// Funding balance field of an encoded create instruction.
pub open spec fn spec_create_balance(b: Seq<u8>) -> u64 {
    if b.len() == 90 {
        vstd::bytes::spec_u64_from_le_bytes(b.subrange(82, 90))
    } else {
        vstd::bytes::spec_u64_from_le_bytes(b.subrange(66, 74))
    }
}

/// Value field of an encoded update instruction.
pub open spec fn spec_update_value(b: Seq<u8>) -> Option<u128> {
    if b.len() == 18 {
        Some(vstd::bytes::spec_u128_from_le_bytes(b.subrange(2, 18)))
    } else {
        None
    }
}

/// Serializes an instruction into its canonical byte string.
pub fn encode_instruction(i: &OracleInstruction) -> (out: Vec<u8>)
    requires
        wf_instruction(*i),
    ensures
        out@ == spec_encode_instruction(*i),
        valid_instruction_encoding(out@),
{
    proof {
        vstd::bytes::lemma_auto_spec_u64_to_from_le_bytes();
        vstd::bytes::lemma_auto_spec_u128_to_from_le_bytes();
    }
    match i {
        OracleInstruction::Create { feed, balance } => {
            let mut out: Vec<u8> = Vec::new();
            out.push(0);
            let mut owner_part = vstd::slice::slice_to_vec(feed.owner.as_slice());
            out.append(&mut owner_part);
            let mut name_part = vstd::slice::slice_to_vec(feed.name.as_slice());
            out.append(&mut name_part);
            push_value(&mut out, &feed.value);
            let mut balance_part = vstd::bytes::u64_to_le_bytes(*balance);
            out.append(&mut balance_part);
            proof {
                assert(out@ =~= spec_encode_instruction(*i));
            }
            out
        },
        OracleInstruction::Update(v) => {
            let mut out: Vec<u8> = Vec::new();
            out.push(1);
            push_value(&mut out, v);
            proof {
                assert(out@ =~= spec_encode_instruction(*i));
            }
            out
        },
        OracleInstruction::Delete => {
            let mut out: Vec<u8> = Vec::new();
            out.push(2);
            proof {
                assert(out@ =~= spec_encode_instruction(*i));
            }
            out
        },
    }
}

/// Parses an instruction, accepting exactly the canonical encodings.
pub fn decode_instruction(bytes: &[u8]) -> (r: Result<OracleInstruction, Error>)
    ensures
        r is Ok <==> valid_instruction_encoding(bytes@),
        r matches Ok(i) ==> wf_instruction(i) && bytes@ == spec_encode_instruction(i),
        r matches Ok(i) ==> match i {
            OracleInstruction::Create { feed, balance } => feed.owner@ == spec_create_owner(bytes@)
                && feed.name@ == spec_create_name(bytes@) && feed.value == spec_create_value(bytes@)
                && balance == spec_create_balance(bytes@),
            OracleInstruction::Update(v) => v == spec_update_value(bytes@),
            OracleInstruction::Delete => true,
        },
        r matches Err(e) ==> e == Error::EncodingError,
{
    proof {
        vstd::bytes::lemma_auto_spec_u64_to_from_le_bytes();
        vstd::bytes::lemma_auto_spec_u128_to_from_le_bytes();
    }
    if bytes.len() == 0 {
        return Err(Error::EncodingError);
    }
    let tag = bytes[0];
    if tag == 0 {
        if bytes.len() != 74 && bytes.len() != 90 {
            return Err(Error::EncodingError);
        }
        let presence = bytes[65];
        if bytes.len() == 74 && presence != 0 {
            return Err(Error::EncodingError);
        }
        if bytes.len() == 90 && presence != 1 {
            return Err(Error::EncodingError);
        }
        let owner = vstd::slice::slice_to_vec(vstd::slice::slice_subrange(bytes, 1, 33));
        let name = vstd::slice::slice_to_vec(vstd::slice::slice_subrange(bytes, 33, 65));
        let (value, balance_at): (Option<u128>, usize) = if bytes.len() == 90 {
            (
                Some(vstd::bytes::u128_from_le_bytes(vstd::slice::slice_subrange(bytes, 66, 82))),
                82,
            )
        } else {
            (None, 66)
        };
        let balance = vstd::bytes::u64_from_le_bytes(
            vstd::slice::slice_subrange(bytes, balance_at, balance_at + 8),
        );
        let instr = OracleInstruction::Create { feed: Feed { owner, name, value }, balance };
        proof {
            assert(bytes@ =~= spec_encode_instruction(instr));
        }
        Ok(instr)
    } else if tag == 1 {
        if bytes.len() != 2 && bytes.len() != 18 {
            return Err(Error::EncodingError);
        }
        let presence = bytes[1];
        if bytes.len() == 2 && presence != 0 {
            return Err(Error::EncodingError);
        }
        if bytes.len() == 18 && presence != 1 {
            return Err(Error::EncodingError);
        }
        let value = if bytes.len() == 18 {
            Some(vstd::bytes::u128_from_le_bytes(vstd::slice::slice_subrange(bytes, 2, 18)))
        } else {
            None
        };
        let instr = OracleInstruction::Update(value);
        proof {
            assert(bytes@ =~= spec_encode_instruction(instr));
        }
        Ok(instr)
    } else if tag == 2 {
        if bytes.len() != 1 {
            return Err(Error::EncodingError);
        }
        let instr = OracleInstruction::Delete;
        proof {
            assert(bytes@ =~= spec_encode_instruction(instr));
        }
        Ok(instr)
    } else {
        Err(Error::EncodingError)
    }
}

} // verus!
