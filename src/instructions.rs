use vstd::prelude::*;

use crate::address::{find_pair_address, pair_program_address};
use crate::errors::VoteError;
use crate::ledger::Ledger;
use crate::state::{
    Account, AccountView, Address, Choice, ChoiceView, Proposal, ProposalView, Voter, VoterView,
    MAX_CHOICES,
};

verus! {

/// Accounts named by a proposal's creation: the new proposal's address and the payer.
#[derive(Clone, Copy)]
pub struct CreateProposal {
    pub proposal: Address,
    pub signer: Address,
}

/// Accounts named by a vote: the proposal and the voting participant.
#[derive(Clone, Copy)]
pub struct CastVote {
    pub proposal: Address,
    pub signer: Address,
}

/// Accounts named by a reward: the paying user's record and the content creator.
#[derive(Clone, Copy)]
pub struct RewardContentCreator {
    pub user: Address,
    pub content_creator: Address,
}

/// A payment of `lamports` from `from` to `to`, to be carried out with the instruction.
#[derive(Clone, Copy, Debug)]
pub struct Transfer {
    pub from: Address,
    pub to: Address,
    pub lamports: u64,
}

/// The proposal that creation writes: every label with a tally of zero.
pub open spec fn new_proposal(
    title: Seq<char>,
    description: Seq<char>,
    labels: Seq<Seq<char>>,
    deadline: u64,
) -> ProposalView {
    ProposalView {
        title,
        description,
        choices: labels.map_values(|l: Seq<char>| ChoiceView { label: l, count: 0 }),
        deadline,
    }
}

/// Outcome of creating a proposal with `n` choices at `key`.
pub open spec fn create_outcome(m: Map<Seq<u8>, AccountView>, key: Seq<u8>, n: int) -> Result<
    (),
    VoteError,
> {
    if n > MAX_CHOICES {
        Err(VoteError::TooManyChoices)
    } else if m.contains_key(key) {
        Err(VoteError::AccountAlreadyInUse)
    } else {
        Ok(())
    }
}

/// Whether a vote at time `now` comes strictly before `deadline`.
pub open spec fn before_deadline(now: i64, deadline: u64) -> bool {
    (now as int) < (deadline as int)
}

/// Outcome of a vote for `choice_index` on the proposal at `proposal`, recorded at `receipt`.
pub open spec fn vote_outcome(
    m: Map<Seq<u8>, AccountView>,
    proposal: Seq<u8>,
    receipt: Seq<u8>,
    choice_index: u8,
    now: i64,
) -> Result<(), VoteError> {
    if !m.contains_key(proposal) {
        Err(VoteError::AccountNotInitialized)
    } else {
        match m[proposal] {
            AccountView::Proposal(p) => {
                if !before_deadline(now, p.deadline) {
                    Err(VoteError::ProposalClosed)
                } else if choice_index >= p.choices.len() {
                    Err(VoteError::ChoiceIndexOutOfRange)
                } else if m.contains_key(receipt) {
                    Err(VoteError::AccountAlreadyInUse)
                } else if p.choices[choice_index as int].count == u64::MAX {
                    Err(VoteError::TallyOverflow)
                } else {
                    Ok(())
                }
            },
            _ => Err(VoteError::AccountDiscriminatorMismatch),
        }
    }
}

/// The records after a successful vote: one more vote on the tally, and a new receipt.
pub open spec fn after_vote(
    m: Map<Seq<u8>, AccountView>,
    proposal: Seq<u8>,
    receipt: Seq<u8>,
    participant: Seq<u8>,
    choice_index: u8,
) -> Map<Seq<u8>, AccountView> {
    m.insert(
        proposal,
        AccountView::Proposal(m[proposal]->Proposal_0.with_vote(choice_index as int)),
    ).insert(
        receipt,
        AccountView::Voter(VoterView { proposal, user: participant, choice_index }),
    )
}

/// Outcome of paying `amount` out of the user record at `user`.
pub open spec fn reward_outcome(m: Map<Seq<u8>, AccountView>, user: Seq<u8>, amount: u64) -> Result<
    (),
    VoteError,
> {
    if !m.contains_key(user) {
        Err(VoteError::AccountNotInitialized)
    } else {
        match m[user] {
            AccountView::User(u) => {
                if u.rewards < amount {
                    Err(VoteError::InsufficientBalance)
                } else {
                    Ok(())
                }
            },
            _ => Err(VoteError::AccountDiscriminatorMismatch),
        }
    }
}

/// Creates a proposal at `ctx.proposal` with the given labels, each with a tally of zero.
/// Refuses more than `MAX_CHOICES` choices, and an address already in use.
pub fn create_proposal(
    ledger: &mut Ledger,
    ctx: &CreateProposal,
    title: String,
    description: String,
    choices: Vec<String>,
    deadline: u64,
) -> (r: Result<(), VoteError>)
    requires
        old(ledger).wf(),
    ensures
        final(ledger).wf(),
        final(ledger).program() == old(ledger).program(),
        r == create_outcome(old(ledger)@, ctx.proposal@, choices@.len() as int),
        r is Ok ==> final(ledger)@ == old(ledger)@.insert(
            ctx.proposal@,
            AccountView::Proposal(
                new_proposal(
                    title@,
                    description@,
                    choices@.map_values(|s: String| s@),
                    deadline,
                ),
            ),
        ),
        r is Err ==> final(ledger)@ == old(ledger)@,
{
    if choices.len() > MAX_CHOICES {
        return Err(VoteError::TooManyChoices);
    }
    let ghost labels = choices@;
    let n = choices.len();
    let mut rest = choices;
    let mut built: Vec<Choice> = Vec::new();
    while rest.len() > 0
        invariant
            built@.len() + rest@.len() == n,
            n == labels.len(),
            rest@ == labels.subrange(built@.len() as int, n as int),
            forall|j: int|
                0 <= j < built@.len() ==> #[trigger] built@[j]@ == (ChoiceView {
                    label: labels[j]@,
                    count: 0,
                }),
        decreases rest@.len(),
    {
        let label = rest.remove(0);
        built.push(Choice { label, count: 0 });
        proof {
            assert(rest@ =~= labels.subrange(built@.len() as int, n as int));
        }
    }
    let proposal = Proposal { title, description, choices: built, deadline };
    proof {
        assert(proposal@.choices =~= labels.map_values(|s: String| s@).map_values(
            |l: Seq<char>| ChoiceView { label: l, count: 0 },
        ));
    }
    ledger.create(ctx.proposal, Account::Proposal(proposal))
}

/// Casts `ctx.signer`'s vote for `choice_index` on `ctx.proposal`, recording it at `receipt`.
/// Checks, in order: the proposal exists, the deadline has not come, the choice exists, and
/// `receipt` is free; on success the tally rises by one and the receipt is written.
pub fn cast_vote_at(
    ledger: &mut Ledger,
    ctx: &CastVote,
    receipt: Address,
    choice_index: u8,
    now: i64,
) -> (r: Result<(), VoteError>)
    requires
        old(ledger).wf(),
    ensures
        final(ledger).wf(),
        final(ledger).program() == old(ledger).program(),
        r == vote_outcome(old(ledger)@, ctx.proposal@, receipt@, choice_index, now),
        r is Ok ==> final(ledger)@ == after_vote(
            old(ledger)@,
            ctx.proposal@,
            receipt@,
            ctx.signer@,
            choice_index,
        ),
        r is Err ==> final(ledger)@ == old(ledger)@,
{
    let index = choice_index as usize;
    match ledger.get(&ctx.proposal) {
        None => {
            return Err(VoteError::AccountNotInitialized);
        },
        Some(Account::Proposal(p)) => {
            if !(now < 0 || (now as u64) < p.deadline) {
                return Err(VoteError::ProposalClosed);
            }
            if index >= p.choices.len() {
                return Err(VoteError::ChoiceIndexOutOfRange);
            }
        },
        Some(_) => {
            return Err(VoteError::AccountDiscriminatorMismatch);
        },
    }
    if ledger.get(&receipt).is_some() {
        return Err(VoteError::AccountAlreadyInUse);
    }
    match ledger.get(&ctx.proposal) {
        Some(Account::Proposal(p)) => {
            if p.choices[index].count == u64::MAX {
                return Err(VoteError::TallyOverflow);
            }
        },
        _ => {},
    }
    ledger.add_vote(&ctx.proposal, index);
    let receipt_record = Voter { proposal: ctx.proposal, user: ctx.signer, choice_index };
    let created = ledger.create(receipt, Account::Voter(receipt_record));
    proof {
        assert(created is Ok);
    }
    Ok(())
}

/// The outcome of a vote by `participant` on `proposal`, whose receipt lives at the address
/// derived from the pair under `program`.
pub open spec fn derived_vote_outcome(
    m: Map<Seq<u8>, AccountView>,
    program: Seq<u8>,
    proposal: Seq<u8>,
    participant: Seq<u8>,
    choice_index: u8,
    now: i64,
) -> Result<(), VoteError> {
    match pair_program_address(proposal, participant, program) {
        Some(receipt) => vote_outcome(m, proposal, receipt, choice_index, now),
        None => Err(VoteError::NoViableAddress),
    }
}

/// Casts `ctx.signer`'s vote for `choice_index` on `ctx.proposal` at time `now`. The receipt
/// is stored at the address derived from the pair (proposal, participant), so a second vote
/// by the same participant on the same proposal finds that address in use.
pub fn vote(ledger: &mut Ledger, ctx: &CastVote, choice_index: u8, now: i64) -> (r: Result<
    (),
    VoteError,
>)
    requires
        old(ledger).wf(),
    ensures
        final(ledger).wf(),
        final(ledger).program() == old(ledger).program(),
        r == derived_vote_outcome(
            old(ledger)@,
            old(ledger).program()@,
            ctx.proposal@,
            ctx.signer@,
            choice_index,
            now,
        ),
        r is Ok ==> final(ledger)@ == after_vote(
            old(ledger)@,
            ctx.proposal@,
            pair_program_address(ctx.proposal@, ctx.signer@, old(ledger).program()@)->Some_0,
            ctx.signer@,
            choice_index,
        ),
        r is Err ==> final(ledger)@ == old(ledger)@,
{
    let program = ledger.program_id();
    match find_pair_address(&ctx.proposal, &ctx.signer, &program) {
        Some(receipt) => cast_vote_at(ledger, ctx, receipt, choice_index, now),
        None => Err(VoteError::NoViableAddress),
    }
}

/// Pays `amount` from the user record at `ctx.user` to `ctx.content_creator`: the record's
/// rewards fall by `amount`, and the transfer to carry out with it is returned. Refuses an
/// amount above the rewards, leaving the record as it was.
pub fn reward_content_creator(ledger: &mut Ledger, ctx: &RewardContentCreator, amount: u64) -> (r:
    Result<Transfer, VoteError>)
    requires
        old(ledger).wf(),
    ensures
        final(ledger).wf(),
        final(ledger).program() == old(ledger).program(),
        match r {
            Ok(t) => {
                &&& reward_outcome(old(ledger)@, ctx.user@, amount) is Ok
                &&& t.from == ctx.user
                &&& t.to == ctx.content_creator
                &&& t.lamports == amount
                &&& final(ledger)@ == old(ledger)@.insert(
                    ctx.user@,
                    AccountView::User(old(ledger)@[ctx.user@]->User_0.debited(amount)),
                )
            },
            Err(e) => {
                &&& reward_outcome(old(ledger)@, ctx.user@, amount) == Err::<(), VoteError>(e)
                &&& final(ledger)@ == old(ledger)@
            },
        },
{
    match ledger.get(&ctx.user) {
        None => {
            return Err(VoteError::AccountNotInitialized);
        },
        Some(Account::User(u)) => {
            if u.rewards < amount {
                return Err(VoteError::InsufficientBalance);
            }
        },
        Some(_) => {
            return Err(VoteError::AccountDiscriminatorMismatch);
        },
    }
    ledger.debit(&ctx.user, amount);
    Ok(Transfer { from: ctx.user, to: ctx.content_creator, lamports: amount })
}

/// Every proposal that a well-formed ledger holds has at most `MAX_CHOICES` choices.
pub proof fn lemma_choices_bounded(ledger: &Ledger, key: Seq<u8>)
    requires
        ledger.wf(),
        ledger@.contains_key(key),
        ledger@[key] is Proposal,
    ensures
        ledger@[key]->Proposal_0.choices.len() <= MAX_CHOICES,
{
}

/// Once a participant's vote on a proposal has succeeded, every later vote by the same
/// participant on the same proposal fails; within the deadline and with a valid choice it
/// fails because the receipt's address is in use.
pub proof fn lemma_one_vote_per_participant(
    m: Map<Seq<u8>, AccountView>,
    program: Seq<u8>,
    proposal: Seq<u8>,
    participant: Seq<u8>,
    first: u8,
    second: u8,
    now_first: i64,
    now_second: i64,
)
    requires
        derived_vote_outcome(m, program, proposal, participant, first, now_first) is Ok,
    ensures
        ({
            let receipt = pair_program_address(proposal, participant, program)->Some_0;
            let after = after_vote(m, proposal, receipt, participant, first);
            let p = after[proposal]->Proposal_0;
            &&& derived_vote_outcome(after, program, proposal, participant, second, now_second) is Err
            &&& before_deadline(now_second, p.deadline) && second < p.choices.len()
                ==> derived_vote_outcome(after, program, proposal, participant, second, now_second)
                == Err::<(), VoteError>(VoteError::AccountAlreadyInUse)
        }),
{
    let receipt = pair_program_address(proposal, participant, program)->Some_0;
    assert(receipt != proposal);
}

/// A vote fails with `ProposalClosed` exactly when it comes at or after the deadline.
pub proof fn lemma_deadline_gate(
    m: Map<Seq<u8>, AccountView>,
    proposal: Seq<u8>,
    receipt: Seq<u8>,
    choice_index: u8,
    now: i64,
)
    requires
        m.contains_key(proposal),
        m[proposal] is Proposal,
    ensures
        (vote_outcome(m, proposal, receipt, choice_index, now) == Err::<(), VoteError>(
            VoteError::ProposalClosed,
        )) <==> (now as int) >= (m[proposal]->Proposal_0.deadline as int),
{
}

/// Before the deadline, a vote fails with `ChoiceIndexOutOfRange` exactly when the index is
/// not below the number of choices.
pub proof fn lemma_choice_gate(
    m: Map<Seq<u8>, AccountView>,
    proposal: Seq<u8>,
    receipt: Seq<u8>,
    choice_index: u8,
    now: i64,
)
    requires
        m.contains_key(proposal),
        m[proposal] is Proposal,
        before_deadline(now, m[proposal]->Proposal_0.deadline),
    ensures
        (vote_outcome(m, proposal, receipt, choice_index, now) == Err::<(), VoteError>(
            VoteError::ChoiceIndexOutOfRange,
        )) <==> choice_index >= m[proposal]->Proposal_0.choices.len(),
{
}

/// Creating a proposal twice with the same arguments at two free addresses gives two
/// records, and a vote on the first leaves the second as it was created.
pub proof fn lemma_creations_independent(
    m: Map<Seq<u8>, AccountView>,
    first: Seq<u8>,
    second: Seq<u8>,
    title: Seq<char>,
    description: Seq<char>,
    labels: Seq<Seq<char>>,
    deadline: u64,
    receipt: Seq<u8>,
    participant: Seq<u8>,
    choice_index: u8,
    now: i64,
)
    requires
        first != second,
        !m.contains_key(first),
        !m.contains_key(second),
        labels.len() <= MAX_CHOICES,
    ensures
        ({
            let p = AccountView::Proposal(new_proposal(title, description, labels, deadline));
            let once = m.insert(first, p);
            let twice = once.insert(second, p);
            &&& create_outcome(m, first, labels.len() as int) is Ok
            &&& create_outcome(once, second, labels.len() as int) is Ok
            &&& twice[first] == p && twice[second] == p
            &&& forall|k: Seq<u8>| #[trigger] m.contains_key(k) ==> twice.contains_key(k) && twice[k] == m[k]
            &&& vote_outcome(twice, first, receipt, choice_index, now) is Ok ==> after_vote(
                twice,
                first,
                receipt,
                participant,
                choice_index,
            )[second] == p
        }),
{
}

/// A successful vote never lowers a tally: every proposal keeps its number of choices, and
/// each count stays or rises.
pub proof fn lemma_tallies_never_fall(
    m: Map<Seq<u8>, AccountView>,
    proposal: Seq<u8>,
    receipt: Seq<u8>,
    participant: Seq<u8>,
    choice_index: u8,
    now: i64,
)
    requires
        vote_outcome(m, proposal, receipt, choice_index, now) is Ok,
    ensures
        forall|k: Seq<u8>|
            #[trigger] m.contains_key(k) && m[k] is Proposal ==> {
                let after = after_vote(m, proposal, receipt, participant, choice_index);
                &&& after.contains_key(k)
                &&& after[k] is Proposal
                &&& after[k]->Proposal_0.choices.len() == m[k]->Proposal_0.choices.len()
                &&& forall|i: int|
                    0 <= i < m[k]->Proposal_0.choices.len() ==> (#[trigger] after[k]->Proposal_0.choices[i]).count
                        >= m[k]->Proposal_0.choices[i].count
            },
{
}

} // verus!
