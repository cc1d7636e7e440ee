//! The note program: appends the text it is given to the execution log.
use crate::error::ErrorKind;
use vstd::bytes::{spec_u32_from_le_bytes, u32_from_le_bytes};
use vstd::prelude::*;
use vstd::slice::slice_subrange;

verus! {

/// The accounts that the note program takes: none.
#[derive(Clone, Copy, Debug)]
pub struct Memo {}

/// The notes that a log holds.
pub open spec fn notes_of(log: Seq<Vec<u8>>) -> Seq<Seq<u8>> {
    log.map_values(|v: Vec<u8>| v@)
}

/// The bytes `You: `, which open every logged note.
pub open spec fn note_prefix() -> Seq<u8> {
    seq![89u8, 111u8, 117u8, 58u8, 32u8]
}

/// The log entry for `text`: `You: ` followed by the text.
pub open spec fn logged_note(text: Seq<u8>) -> Seq<u8> {
    note_prefix() + text
}

/// Appends `You: ` followed by `text` to the log.
pub fn memo(_ctx: &Memo, log: &mut Vec<Vec<u8>>, text: Vec<u8>) -> (r: Result<(), ErrorKind>)
    ensures
        r is Ok,
        notes_of(final(log)@) == notes_of(old(log)@).push(logged_note(text@)),
{
    let mut entry: Vec<u8> = vec![89u8, 111u8, 117u8, 58u8, 32u8];
    let mut rest = text;
    let ghost body = rest@;
    entry.append(&mut rest);
    assert(entry@ =~= logged_note(body));
    let ghost before = log@;
    log.push(entry);
    assert(notes_of(log@) =~= notes_of(before).push(logged_note(body)));
    Ok(())
}

/// The eight bytes that select the note instruction.
pub open spec fn memo_discriminator() -> Seq<u8> {
    seq![11u8, 4u8, 237u8, 89u8, 11u8, 183u8, 177u8, 12u8]
}

/// The note that an instruction payload carries: the discriminator, a
/// little-endian `u32` length and that many bytes.
pub open spec fn memo_note(data: Seq<u8>) -> Option<Seq<u8>> {
    if data.len() >= 12 && data.subrange(0, 8) == memo_discriminator()
        && data.len() == 12 + spec_u32_from_le_bytes(data.subrange(8, 12)) {
        Some(data.subrange(12, data.len() as int))
    } else {
        None
    }
}

fn copy_range(data: &[u8], start: usize) -> (r: Vec<u8>)
    requires
        start <= data@.len(),
    ensures
        r@ == data@.subrange(start as int, data@.len() as int),
{
    let mut out: Vec<u8> = Vec::new();
    let mut i: usize = start;
    while i < data.len()
        invariant
            start <= i <= data@.len(),
            out@ == data@.subrange(start as int, i as int),
        decreases data@.len() - i,
    {
        out.push(data[i]);
        i = i + 1;
        assert(out@ =~= data@.subrange(start as int, i as int));
    }
    out
}

/// Reads the note out of an instruction payload.
pub fn decode_memo(data: &[u8]) -> (r: Result<Vec<u8>, ErrorKind>)
    ensures
        match memo_note(data@) {
            Some(n) => r is Ok && r->Ok_0@ == n,
            None => r == Err::<Vec<u8>, ErrorKind>(ErrorKind::MalformedInstruction),
        },
{
    if data.len() < 12 {
        return Err(ErrorKind::MalformedInstruction);
    }
    let tag_ok = data[0] == 11u8 && data[1] == 4u8 && data[2] == 237u8 && data[3] == 89u8
        && data[4] == 11u8 && data[5] == 183u8 && data[6] == 177u8 && data[7] == 12u8;
    if !tag_ok {
        assert(data@.subrange(0, 8) != memo_discriminator()) by {
            if data@.subrange(0, 8) == memo_discriminator() {
                assert(data@.subrange(0, 8)[0] == data@[0]);
                assert(data@.subrange(0, 8)[1] == data@[1]);
                assert(data@.subrange(0, 8)[2] == data@[2]);
                assert(data@.subrange(0, 8)[3] == data@[3]);
                assert(data@.subrange(0, 8)[4] == data@[4]);
                assert(data@.subrange(0, 8)[5] == data@[5]);
                assert(data@.subrange(0, 8)[6] == data@[6]);
                assert(data@.subrange(0, 8)[7] == data@[7]);
            }
        }
        return Err(ErrorKind::MalformedInstruction);
    }
    assert(data@.subrange(0, 8) =~= memo_discriminator());
    let len = u32_from_le_bytes(slice_subrange(data, 8, 12));
    if data.len() - 12 != len as usize {
        return Err(ErrorKind::MalformedInstruction);
    }
    Ok(copy_range(data, 12))
}

} // verus!
