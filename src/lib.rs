//! Proposals, one vote per participant, and reward payouts, over a ledger of records kept at
//! 32-byte addresses. A vote's receipt lives at an address derived from the pair (proposal,
//! participant), so a participant's second vote on a proposal finds that address in use.

use vstd::prelude::*;

pub mod address;
pub mod errors;
pub mod instructions;
pub mod fixed_reward;
pub mod ledger;
pub mod state;

pub use errors::VoteError;
pub use instructions::{
    cast_vote_at, create_proposal, reward_content_creator, vote, CastVote, CreateProposal,
    RewardContentCreator, Transfer,
};
pub use ledger::Ledger;
pub use state::{Account, Address, Choice, Proposal, User, Voter, MAX_CHOICES};

verus! {

} // verus!
