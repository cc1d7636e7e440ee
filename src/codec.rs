//! The wire format of the metadata-account program's instructions: an
//! eight-byte tag, a one-byte variant index and the variant's fields, integers
//! little-endian.
use crate::address::Address;
use crate::error::ErrorKind;
use vstd::bytes::{spec_u64_to_le_bytes, u64_from_le_bytes, u64_to_le_bytes, lemma_auto_spec_u64_to_from_le_bytes};
use vstd::prelude::*;
use vstd::slice::slice_subrange;

verus! {

#[derive(Clone, Copy, Debug)]
pub enum MetaInstruction {
    Create { length: u64 },
    Resize { length: u64 },
    SetAuthority { new_authority: Address },
    Close,
}

/// The tag that opens every metadata-account instruction: `0x0a69e9a778bcf440`
/// in little-endian order.
pub open spec fn tag_bytes() -> Seq<u8> {
    seq![0x40u8, 0xf4u8, 0xbcu8, 0x78u8, 0xa7u8, 0xe9u8, 0x69u8, 0x0au8]
}

pub const CREATE_INDEX: u8 = 0;
pub const SET_AUTHORITY_INDEX: u8 = 4;
pub const CLOSE_INDEX: u8 = 5;
pub const RESIZE_INDEX: u8 = 6;

/// The bytes that encode `ins`.
pub open spec fn encoding(ins: MetaInstruction) -> Seq<u8> {
    match ins {
        MetaInstruction::Create { length } => tag_bytes().push(CREATE_INDEX) + spec_u64_to_le_bytes(length),
        MetaInstruction::Resize { length } => tag_bytes().push(RESIZE_INDEX) + spec_u64_to_le_bytes(length),
        MetaInstruction::SetAuthority { new_authority } => tag_bytes().push(SET_AUTHORITY_INDEX) + new_authority@,
        MetaInstruction::Close => tag_bytes().push(CLOSE_INDEX),
    }
}

/// Whether some instruction encodes to `bytes`.
pub open spec fn decodable(bytes: Seq<u8>) -> bool {
    exists|ins: MetaInstruction| encoding(ins) == bytes
}

fn push_tag(out: &mut Vec<u8>, index: u8)
    requires
        old(out)@.len() == 0,
    ensures
        final(out)@ == tag_bytes().push(index),
{
    out.push(0x40u8);
    out.push(0xf4u8);
    out.push(0xbcu8);
    out.push(0x78u8);
    out.push(0xa7u8);
    out.push(0xe9u8);
    out.push(0x69u8);
    out.push(0x0au8);
    out.push(index);
    assert(out@ =~= tag_bytes().push(index));
}

fn append_all(out: &mut Vec<u8>, bytes: &[u8])
    ensures
        final(out)@ == old(out)@ + bytes@,
{
    let mut i: usize = 0;
    while i < bytes.len()
        invariant
            0 <= i <= bytes@.len(),
            out@ == old(out)@ + bytes@.subrange(0, i as int),
        decreases bytes@.len() - i,
    {
        out.push(bytes[i]);
        i = i + 1;
        assert(bytes@.subrange(0, i as int) =~= bytes@.subrange(0, i - 1 as int).push(bytes@[i - 1]));
    }
    assert(bytes@.subrange(0, i as int) =~= bytes@);
}

/// Encodes an instruction in the wire format.
pub fn encode(ins: &MetaInstruction) -> (r: Vec<u8>)
    ensures
        r@ == encoding(*ins),
{
    let mut out: Vec<u8> = Vec::new();
    match ins {
        MetaInstruction::Create { length } => {
            push_tag(&mut out, CREATE_INDEX);
            let b = u64_to_le_bytes(*length);
            append_all(&mut out, b.as_slice());
        },
        MetaInstruction::Resize { length } => {
            push_tag(&mut out, RESIZE_INDEX);
            let b = u64_to_le_bytes(*length);
            append_all(&mut out, b.as_slice());
        },
        MetaInstruction::SetAuthority { new_authority } => {
            push_tag(&mut out, SET_AUTHORITY_INDEX);
            append_all(&mut out, new_authority.bytes.as_slice());
        },
        MetaInstruction::Close => {
            push_tag(&mut out, CLOSE_INDEX);
        },
    }
    out
}

fn read_address(bytes: &[u8]) -> (r: Address)
    requires
        bytes@.len() == 32,
    ensures
        r@ == bytes@,
{
    let mut a: [u8; 32] = [0u8; 32];
    let mut i: usize = 0;
    while i < 32
        invariant
            0 <= i <= 32,
            bytes@.len() == 32,
            a@.len() == 32,
            forall|j: int| 0 <= j < i ==> a@[j] == bytes@[j],
        decreases 32 - i,
    {
        a[i] = bytes[i];
        i = i + 1;
    }
    assert(a@ =~= bytes@);
    Address { bytes: a }
}

fn has_tag(bytes: &[u8]) -> (r: bool)
    requires
        bytes@.len() >= 8,
    ensures
        r == (bytes@.subrange(0, 8) == tag_bytes()),
{
    let r = bytes[0] == 0x40u8 && bytes[1] == 0xf4u8 && bytes[2] == 0xbcu8 && bytes[3] == 0x78u8
        && bytes[4] == 0xa7u8 && bytes[5] == 0xe9u8 && bytes[6] == 0x69u8 && bytes[7] == 0x0au8;
    if r {
        assert(bytes@.subrange(0, 8) =~= tag_bytes());
    } else {
        assert(bytes@.subrange(0, 8) != tag_bytes()) by {
            if bytes@.subrange(0, 8) == tag_bytes() {
                assert(bytes@.subrange(0, 8)[0] == bytes@[0]);
            }
        }
    }
    r
}

proof fn lemma_encoding_shape(ins: MetaInstruction)
    ensures
        encoding(ins).len() >= 9,
        encoding(ins).subrange(0, 8) == tag_bytes(),
        encoding(ins)[8] == match ins {
            MetaInstruction::Create { .. } => CREATE_INDEX,
            MetaInstruction::Resize { .. } => RESIZE_INDEX,
            MetaInstruction::SetAuthority { .. } => SET_AUTHORITY_INDEX,
            MetaInstruction::Close => CLOSE_INDEX,
        },
        encoding(ins).len() == match ins {
            MetaInstruction::Create { .. } => 17nat,
            MetaInstruction::Resize { .. } => 17nat,
            MetaInstruction::SetAuthority { .. } => 41nat,
            MetaInstruction::Close => 9nat,
        },
{
    lemma_auto_spec_u64_to_from_le_bytes();
    let e = encoding(ins);
    assert(e.subrange(0, 8) =~= tag_bytes());
    match ins {
        MetaInstruction::SetAuthority { new_authority } => {
            assert(new_authority@.len() == 32);
        },
        _ => {},
    }
}

/// Decodes an instruction; fails exactly on bytes that encode none.
pub fn decode(bytes: &[u8]) -> (r: Result<MetaInstruction, ErrorKind>)
    ensures
        r is Ok <==> decodable(bytes@),
        r is Ok ==> encoding(r->Ok_0) == bytes@,
        r is Err ==> r->Err_0 == ErrorKind::MalformedInstruction,
{
    let n = bytes.len();
    if n < 9 || !has_tag(bytes) {
        proof {
            assert forall|ins: MetaInstruction| encoding(ins) != bytes@ by {
                lemma_encoding_shape(ins);
            }
        }
        return Err(ErrorKind::MalformedInstruction);
    }
    let index = bytes[8];
    proof {
        lemma_auto_spec_u64_to_from_le_bytes();
    }
    let r = if index == CREATE_INDEX && n == 17 {
        let length = u64_from_le_bytes(slice_subrange(bytes, 9, 17));
        let ins = MetaInstruction::Create { length };
        assert(encoding(ins) =~= bytes@) by {
            assert(bytes@ =~= bytes@.subrange(0, 8).push(bytes@[8]) + bytes@.subrange(9, 17));
        }
        Ok(ins)
    } else if index == RESIZE_INDEX && n == 17 {
        let length = u64_from_le_bytes(slice_subrange(bytes, 9, 17));
        let ins = MetaInstruction::Resize { length };
        assert(encoding(ins) =~= bytes@) by {
            assert(bytes@ =~= bytes@.subrange(0, 8).push(bytes@[8]) + bytes@.subrange(9, 17));
        }
        Ok(ins)
    } else if index == SET_AUTHORITY_INDEX && n == 41 {
        let new_authority = read_address(slice_subrange(bytes, 9, 41));
        let ins = MetaInstruction::SetAuthority { new_authority };
        assert(encoding(ins) =~= bytes@) by {
            assert(bytes@ =~= bytes@.subrange(0, 8).push(bytes@[8]) + bytes@.subrange(9, 41));
        }
        Ok(ins)
    } else if index == CLOSE_INDEX && n == 9 {
        let ins = MetaInstruction::Close;
        assert(encoding(ins) =~= bytes@) by {
            assert(bytes@ =~= bytes@.subrange(0, 8).push(bytes@[8]));
        }
        Ok(ins)
    } else {
        proof {
            assert forall|ins: MetaInstruction| encoding(ins) != bytes@ by {
                lemma_encoding_shape(ins);
            }
        }
        Err(ErrorKind::MalformedInstruction)
    };
    r
}

/// Two instructions with the same encoding are the same instruction.
pub proof fn lemma_encoding_injective(ins: MetaInstruction, other: MetaInstruction)
    requires
        encoding(other) == encoding(ins),
    ensures
        other == ins,
{
    lemma_auto_spec_u64_to_from_le_bytes();
    lemma_encoding_shape(ins);
    lemma_encoding_shape(other);
    let e = encoding(ins);
    match ins {
        MetaInstruction::Create { length } => {
            assert(e.subrange(9, 17) =~= spec_u64_to_le_bytes(length));
            assert(encoding(other).subrange(9, 17) =~= spec_u64_to_le_bytes(other->Create_length));
        },
        MetaInstruction::Resize { length } => {
            assert(e.subrange(9, 17) =~= spec_u64_to_le_bytes(length));
            assert(encoding(other).subrange(9, 17) =~= spec_u64_to_le_bytes(other->Resize_length));
        },
        MetaInstruction::SetAuthority { new_authority } => {
            assert(e.subrange(9, 41) =~= new_authority@);
            assert(encoding(other).subrange(9, 41) =~= other->new_authority@);
            assert(new_authority.bytes == other->new_authority.bytes);
        },
        MetaInstruction::Close => {},
    }
}

} // verus!
