use vstd::prelude::*;
use crate::key::Key;
use anchor_lang::prelude::Pubkey;

verus! {

/// The program-derived address, with its bump, that the ledger assigns to the
/// seeds `[tag, seed]` under `program_id`; `None` where no bump gives one.
pub uninterp spec fn program_address_of(tag: Seq<u8>, seed: Seq<u8>, program_id: Seq<u8>) -> Option<(Seq<u8>, u8)>;

/// Relies on `Pubkey::try_find_program_address`: a deterministic search for
/// the highest bump whose hash of the seeds is off the ed25519 curve; it
/// returns `None` (and does not panic) when no bump works.
#[verifier::external_body]
fn try_find_program_address(tag: &[u8], seed: &Key, program_id: &Key) -> (r: Option<(Key, u8)>)
    ensures
        match r {
            Some((k, b)) => program_address_of(tag@, seed@, program_id@) == Some((k@, b)),
            None => program_address_of(tag@, seed@, program_id@) is None,
        },
{
    let program = Pubkey::new_from_array(program_id.bytes);
    Pubkey::try_find_program_address(&[tag, &seed.bytes[..]], &program)
        .map(|(p, b)| (Key { bytes: p.to_bytes() }, b))
}

/// The domain tag that every escrow authority is derived under.
pub open spec fn escrow_tag() -> Seq<u8> {
    seq![101u8, 115u8, 99u8, 114u8, 111u8, 119u8, 54u8]
}

/// The escrow authority of `seller` and its bump, as the ledger derives it.
pub open spec fn escrow_authority_of(seller: Seq<u8>, program_id: Seq<u8>) -> Option<(Seq<u8>, u8)> {
    program_address_of(escrow_tag(), seller, program_id)
}

/// Derives the escrow authority of `seller` under `program_id`.
pub fn derive_escrow_authority(seller: &Key, program_id: &Key) -> (r: Option<(Key, u8)>)
    ensures
        match r {
            Some((k, b)) => escrow_authority_of(seller@, program_id@) == Some((k@, b)),
            None => escrow_authority_of(seller@, program_id@) is None,
        },
{
    let tag: [u8; 7] = [101u8, 115u8, 99u8, 114u8, 111u8, 119u8, 54u8];
    assert(tag@ =~= escrow_tag());
    try_find_program_address(tag.as_slice(), seller, program_id)
}

} // verus!
