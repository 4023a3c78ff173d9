use vstd::prelude::*;

verus! {

/// Why an instruction was refused. A refused instruction leaves the ledger as it was.
#[derive(Debug, Clone, Copy, PartialEq, Eq, Structural)]
pub enum VoteError {
    /// A proposal was asked for with more than `MAX_CHOICES` choices.
    TooManyChoices,
    /// The vote came at or after the proposal's deadline.
    ProposalClosed,
    /// The vote named a choice that the proposal does not have.
    ChoiceIndexOutOfRange,
    /// An account already exists at the address to be created (for a receipt: a second vote).
    AccountAlreadyInUse,
    /// No account exists at the address read.
    AccountNotInitialized,
    /// The account at the address read is of another kind.
    AccountDiscriminatorMismatch,
    /// The participant's balance is smaller than the amount to pay out.
    InsufficientBalance,
    /// The tally of the chosen choice is at its largest value.
    TallyOverflow,
    /// No program address could be derived for the receipt.
    NoViableAddress,
}

} // verus!
