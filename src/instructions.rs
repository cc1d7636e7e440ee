//! Builders for the instructions that the two programs take.
use crate::address::Address;
use crate::codec::{encode, encoding, MetaInstruction};
use crate::engine::Instruction;
use crate::lifecycle::AccountRef;
use crate::memo_program::{memo_discriminator, memo_note};
use vstd::bytes::{spec_u32_from_le_bytes, spec_u32_to_le_bytes, u32_to_le_bytes, lemma_auto_spec_u32_to_from_le_bytes};
use vstd::prelude::*;

verus! {

pub open spec fn writable(address: Address, signer: bool) -> AccountRef {
    AccountRef { address, writable: true, signer }
}

pub open spec fn readonly(address: Address, signer: bool) -> AccountRef {
    AccountRef { address, writable: false, signer }
}

/// Creates the metadata account with room for `length` bytes, paid by `payer`.
pub fn create_metadata_account(program: Address, metadata: Address, base: Address, payer: Address, length: u64) -> (r: Instruction)
    ensures
        r.program == program,
        r.accounts@ == seq![
            writable(payer, true),
            writable(metadata, false),
            readonly(base, false),
            readonly(Address { bytes: vstd::array::spec_array_fill_for_copy_type::<u8, 32>(0u8) }, false),
            readonly(program, false),
        ],
        r.data@ == encoding(MetaInstruction::Create { length }),
{
    let accounts = vec![
        AccountRef { address: payer, writable: true, signer: true },
        AccountRef { address: metadata, writable: true, signer: false },
        AccountRef { address: base, writable: false, signer: false },
        AccountRef { address: Address { bytes: [0u8; 32] }, writable: false, signer: false },
        AccountRef { address: program, writable: false, signer: false },
    ];
    Instruction { program, accounts, data: encode(&MetaInstruction::Create { length }) }
}

/// Resizes the metadata account to `length` bytes; the authority signs and pays.
pub fn resize_metadata_account(program: Address, metadata: Address, authority: Address, length: u64) -> (r: Instruction)
    ensures
        r.program == program,
        r.accounts@ == seq![
            writable(metadata, false),
            writable(authority, true),
            readonly(Address { bytes: vstd::array::spec_array_fill_for_copy_type::<u8, 32>(0u8) }, false),
        ],
        r.data@ == encoding(MetaInstruction::Resize { length }),
{
    let accounts = vec![
        AccountRef { address: metadata, writable: true, signer: false },
        AccountRef { address: authority, writable: true, signer: true },
        AccountRef { address: Address { bytes: [0u8; 32] }, writable: false, signer: false },
    ];
    Instruction { program, accounts, data: encode(&MetaInstruction::Resize { length }) }
}

/// Hands the metadata account to `new_authority`; the current authority signs.
pub fn set_authority(program: Address, metadata: Address, current_authority: Address, new_authority: Address) -> (r: Instruction)
    ensures
        r.program == program,
        r.accounts@ == seq![writable(metadata, false), readonly(current_authority, true)],
        r.data@ == encoding(MetaInstruction::SetAuthority { new_authority }),
{
    let accounts = vec![
        AccountRef { address: metadata, writable: true, signer: false },
        AccountRef { address: current_authority, writable: false, signer: true },
    ];
    Instruction { program, accounts, data: encode(&MetaInstruction::SetAuthority { new_authority }) }
}

/// Closes the metadata account into `recipient`; the authority signs.
pub fn close_metadata_account(program: Address, metadata: Address, authority: Address, recipient: Address) -> (r: Instruction)
    ensures
        r.program == program,
        r.accounts@ == seq![writable(metadata, false), readonly(authority, true), writable(recipient, false)],
        r.data@ == encoding(MetaInstruction::Close),
{
    let accounts = vec![
        AccountRef { address: metadata, writable: true, signer: false },
        AccountRef { address: authority, writable: false, signer: true },
        AccountRef { address: recipient, writable: true, signer: false },
    ];
    Instruction { program, accounts, data: encode(&MetaInstruction::Close) }
}

/// A note instruction carrying `text`.
pub fn memo_instruction(memo_program: Address, text: &Vec<u8>) -> (r: Instruction)
    requires
        text@.len() <= u32::MAX,
    ensures
        r.program == memo_program,
        r.accounts@.len() == 0,
        r.data@ == memo_discriminator() + spec_u32_to_le_bytes(text@.len() as u32) + text@,
        memo_note(r.data@) == Some(text@),
{
    let mut data: Vec<u8> = vec![11u8, 4u8, 237u8, 89u8, 11u8, 183u8, 177u8, 12u8];
    let mut len = u32_to_le_bytes(text.len() as u32);
    data.append(&mut len);
    let mut i: usize = 0;
    while i < text.len()
        invariant
            0 <= i <= text@.len(),
            text@.len() <= u32::MAX,
            data@ == memo_discriminator() + spec_u32_to_le_bytes(text@.len() as u32) + text@.subrange(0, i as int),
        decreases text@.len() - i,
    {
        data.push(text[i]);
        i = i + 1;
        assert(text@.subrange(0, i as int) =~= text@.subrange(0, i - 1 as int).push(text@[i - 1]));
    }
    proof {
        lemma_auto_spec_u32_to_from_le_bytes();
        assert(text@.subrange(0, i as int) =~= text@);
        let d = data@;
        assert(d.subrange(0, 8) =~= memo_discriminator());
        assert(d.subrange(8, 12) =~= spec_u32_to_le_bytes(text@.len() as u32));
        assert(spec_u32_from_le_bytes(d.subrange(8, 12)) == text@.len() as u32);
        assert(d.subrange(12, d.len() as int) =~= text@);
    }
    Instruction { program: memo_program, accounts: Vec::new(), data }
}

} // verus!
