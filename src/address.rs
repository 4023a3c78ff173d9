use vstd::prelude::*;

use anchor_lang::prelude::Pubkey;

use crate::state::Address;

verus! {

/// The program address derived from the seeds `[first, second]` under `program`, or `None`
/// when no bump seed gives an address off the curve.
pub uninterp spec fn pair_program_address(
    first: Seq<u8>,
    second: Seq<u8>,
    program: Seq<u8>,
) -> Option<Seq<u8>>;

/// Relies on `Pubkey::try_find_program_address` of solana-program: the address it finds
/// depends on the seeds and the program identifier alone, and it does not panic.
#[verifier::external_body]
pub(crate) fn find_pair_address(first: &Address, second: &Address, program_id: &Address) -> (r:
    Option<Address>)
    ensures
        match r {
            Some(a) => pair_program_address(first@, second@, program_id@) == Some(a@),
            None => pair_program_address(first@, second@, program_id@) is None,
        },
{
    let program = Pubkey::new_from_array(*program_id);
    Pubkey::try_find_program_address(&[first.as_slice(), second.as_slice()], &program).map(
        |(key, _bump)| key.to_bytes(),
    )
}

} // verus!
