//! Account addresses and their deterministic derivation.
use anchor_lang::prelude::Pubkey;
use vstd::prelude::*;
use vstd::string::StringSliceAdditionalSpecFns;

verus! {

/// A 32-byte account identifier.
#[derive(Clone, Copy, Debug)]
pub struct Address {
    pub bytes: [u8; 32],
}

impl View for Address {
    type V = Seq<u8>;

    open spec fn view(&self) -> Seq<u8> {
        self.bytes@
    }
}

impl Address {
    /// The all-zero address: the neutral system owner.
    pub fn system() -> (r: Address)
        ensures
            r@ == system_address(),
    {
        let r = Address { bytes: [0u8; 32] };
        assert(r@ =~= system_address());
        r
    }

    pub fn from_bytes(bytes: [u8; 32]) -> (r: Address)
        ensures
            r@ == bytes@,
    {
        Address { bytes }
    }
}

pub open spec fn system_address() -> Seq<u8> {
    Seq::new(32, |i: int| 0u8)
}

/// Compares two addresses byte by byte.
pub fn same_address(a: &Address, b: &Address) -> (r: bool)
    ensures
        r == (a@ == b@),
{
    let mut i: usize = 0;
    while i < 32
        invariant
            0 <= i <= 32,
            a@.len() == 32,
            b@.len() == 32,
            forall|j: int| 0 <= j < i ==> a@[j] == b@[j],
        decreases 32 - i,
    {
        if a.bytes[i] != b.bytes[i] {
            return false;
        }
        i = i + 1;
    }
    assert(a@ =~= b@);
    true
}

/// The bytes `ProgramDerivedAddress`, which may not end the owner of a
/// seeded address.
pub open spec fn derived_marker() -> Seq<u8> {
    seq![
        80u8, 114u8, 111u8, 103u8, 114u8, 97u8, 109u8, 68u8, 101u8, 114u8, 105u8,
        118u8, 101u8, 100u8, 65u8, 100u8, 100u8, 114u8, 101u8, 115u8, 115u8,
    ]
}

pub open spec fn ends_with_marker(owner: Seq<u8>) -> bool {
    owner.len() >= 21 && owner.subrange(owner.len() - 21, owner.len() as int) == derived_marker()
}

/// The address hashed from a base address, a seed and an owner.
pub uninterp spec fn seeded_address_of(base: Seq<u8>, seed: Seq<u8>, owner: Seq<u8>) -> Seq<u8>;

/// The first off-curve address derived from a program with no seeds.
pub uninterp spec fn program_base_of(program: Seq<u8>) -> Seq<u8>;

/// Whether some bump gives the program an off-curve address.
pub uninterp spec fn program_base_found(program: Seq<u8>) -> bool;

/// Relies on `Pubkey::create_with_seed`: the hash of base, seed bytes and owner,
/// refused when the seed is longer than 32 bytes or the owner ends with the
/// derived-address marker.
#[verifier::external_body]
fn create_with_seed(base: &Address, seed: &str, owner: &Address) -> (r: Option<Address>)
    ensures
        r is None <==> (seed.spec_bytes().len() > 32 || ends_with_marker(owner@)),
        r is Some ==> r->Some_0@ == seeded_address_of(base@, seed.spec_bytes(), owner@),
{
    let base = Pubkey::new_from_array(base.bytes);
    let owner = Pubkey::new_from_array(owner.bytes);
    Pubkey::create_with_seed(&base, seed, &owner).ok().map(|p| Address { bytes: p.to_bytes() })
}

/// Relies on `Pubkey::try_find_program_address` with no seeds: the first
/// bump that gives an off-curve address, if any of them does; whether one
/// does depends on the program alone.
#[verifier::external_body]
fn find_program_base(program: &Address) -> (r: Option<Address>)
    ensures
        r is Some <==> program_base_found(program@),
        r is Some ==> r->Some_0@ == program_base_of(program@),
{
    let program = Pubkey::new_from_array(program.bytes);
    Pubkey::try_find_program_address(&[], &program).map(|(p, _bump)| Address { bytes: p.to_bytes() })
}

/// Derives the address owned by `owner` from `base` and `seed`.
pub fn derive_address(base: &Address, seed: &str, owner: &Address) -> (r: Option<Address>)
    ensures
        r is None <==> (seed.spec_bytes().len() > 32 || ends_with_marker(owner@)),
        r is Some ==> r->Some_0@ == seeded_address_of(base@, seed.spec_bytes(), owner@),
{
    create_with_seed(base, seed, owner)
}

/// The seed under which a program's metadata account is derived.
pub open spec fn metadata_seed() -> Seq<u8> {
    seq![97u8, 110u8, 99u8, 104u8, 111u8, 114u8, 58u8, 105u8, 100u8, 108u8]
}

/// The address of `program`'s metadata account: derived from the program's
/// base address under the seed `anchor:idl`.
pub fn metadata_address(program: &Address) -> (r: Option<Address>)
    ensures
        r is Some <==> (program_base_found(program@) && !ends_with_marker(program@)),
        r is Some ==> r->Some_0@ == seeded_address_of(
            program_base_of(program@),
            metadata_seed(),
            program@,
        ),
{
    let base = match find_program_base(program) {
        Some(b) => b,
        None => { return None; },
    };
    let seed = "anchor:idl";
    proof {
        reveal_strlit("anchor:idl");
        vstd::string::is_ascii_spec_bytes(seed);
        assert(seed.spec_bytes() =~= metadata_seed());
    }
    create_with_seed(&base, seed, program)
}

/// Deriving an address twice from the same inputs gives the same address.
pub proof fn lemma_derivation_deterministic(
    base: Address,
    seed: Seq<u8>,
    owner: Address,
    first: Address,
    second: Address,
)
    requires
        first@ == seeded_address_of(base@, seed, owner@),
        second@ == seeded_address_of(base@, seed, owner@),
    ensures
        first == second,
{
    assert(first.bytes@ =~= second.bytes@);
    assert(first.bytes == second.bytes);
}

} // verus!
