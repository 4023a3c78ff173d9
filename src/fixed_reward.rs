use vstd::prelude::*;

use crate::instructions::{RewardContentCreator, Transfer};

verus! {

/// Lamports paid by the fixed-amount reward: a tenth of a SOL.
pub const FIXED_REWARD_LAMPORTS: u64 = 100_000_000;

/// The fixed-amount reward entry point: a payment from the signing user to the content
/// creator, with no balance record and no check beyond what the transfer itself enforces.
pub fn reward_content_creator(ctx: &RewardContentCreator) -> (r: Transfer)
    ensures
        r.from == ctx.user,
        r.to == ctx.content_creator,
        r.lamports == FIXED_REWARD_LAMPORTS,
{
    Transfer { from: ctx.user, to: ctx.content_creator, lamports: FIXED_REWARD_LAMPORTS }
}

} // verus!
