use anchor_lang::prelude::Pubkey;
use mescena::fixed_reward::FIXED_REWARD_LAMPORTS;
use mescena::state::{PROPOSAL_SPACE, VOTER_SPACE};
use mescena::{
    cast_vote_at, create_proposal, fixed_reward, reward_content_creator, vote, Account, Address,
    CastVote, Choice, CreateProposal, Ledger, Proposal, RewardContentCreator, User, VoteError,
    MAX_CHOICES,
};

const PROGRAM: Address = [7u8; 32];
const PROPOSAL: Address = [1u8; 32];
const SIGNER: Address = [2u8; 32];
const NOW: i64 = 1_700_000_000;

fn labels(n: usize) -> Vec<String> {
    (0..n).map(|i| format!("choice {}", i)).collect()
}

fn ledger_with_proposal(choices: Vec<String>, deadline: u64) -> Ledger {
    let mut ledger = Ledger::new(PROGRAM);
    let ctx = CreateProposal { proposal: PROPOSAL, signer: SIGNER };
    let r = create_proposal(&mut ledger, &ctx, "Title".to_string(), "About".to_string(), choices, deadline);
    assert_eq!(r, Ok(()));
    ledger
}

fn proposal_at<'a>(ledger: &'a Ledger, key: &Address) -> &'a Proposal {
    match ledger.get(key) {
        Some(Account::Proposal(p)) => p,
        _ => panic!("no proposal at the address"),
    }
}

fn counts(ledger: &Ledger, key: &Address) -> Vec<u64> {
    proposal_at(ledger, key).choices.iter().map(|c| c.count).collect()
}

fn receipt_address(proposal: &Address, participant: &Address) -> Address {
    let program = Pubkey::new_from_array(PROGRAM);
    Pubkey::find_program_address(&[proposal.as_slice(), participant.as_slice()], &program).0.to_bytes()
}

fn user_rewards(ledger: &Ledger, key: &Address) -> u64 {
    match ledger.get(key) {
        Some(Account::User(u)) => u.rewards,
        _ => panic!("no user at the address"),
    }
}

#[test]
fn create_with_eleven_choices_fails() {
    let mut ledger = Ledger::new(PROGRAM);
    let ctx = CreateProposal { proposal: PROPOSAL, signer: SIGNER };
    let r = create_proposal(&mut ledger, &ctx, "T".to_string(), "D".to_string(), labels(11), NOW as u64);
    assert_eq!(r, Err(VoteError::TooManyChoices));
    assert!(ledger.get(&PROPOSAL).is_none());
    assert_eq!(ledger.len(), 0);
}

#[test]
fn create_with_max_choices_succeeds() {
    let ledger = ledger_with_proposal(labels(MAX_CHOICES), NOW as u64);
    let p = proposal_at(&ledger, &PROPOSAL);
    assert_eq!(p.choices.len(), 10);
    assert_eq!(p.title, "Title");
    assert_eq!(p.description, "About");
    assert_eq!(p.deadline, NOW as u64);
    for (i, c) in p.choices.iter().enumerate() {
        assert_eq!(c.label, format!("choice {}", i));
        assert_eq!(c.count, 0);
    }
}

#[test]
fn create_with_no_choices_succeeds() {
    let ledger = ledger_with_proposal(Vec::new(), NOW as u64);
    assert_eq!(proposal_at(&ledger, &PROPOSAL).choices.len(), 0);
}

#[test]
fn create_at_used_address_fails() {
    let mut ledger = ledger_with_proposal(labels(2), NOW as u64);
    let ctx = CreateProposal { proposal: PROPOSAL, signer: SIGNER };
    let r = create_proposal(&mut ledger, &ctx, "Other".to_string(), "D".to_string(), labels(3), 5);
    assert_eq!(r, Err(VoteError::AccountAlreadyInUse));
    assert_eq!(proposal_at(&ledger, &PROPOSAL).title, "Title");
    assert_eq!(ledger.len(), 1);
}

#[test]
fn repeated_creation_gives_independent_proposals() {
    let mut ledger = Ledger::new(PROGRAM);
    let second: Address = [9u8; 32];
    for key in [PROPOSAL, second] {
        let ctx = CreateProposal { proposal: key, signer: SIGNER };
        let r = create_proposal(&mut ledger, &ctx, "Same".to_string(), "Same".to_string(), labels(2), 100);
        assert_eq!(r, Ok(()));
    }
    assert_eq!(ledger.len(), 2);
    let ctx = CastVote { proposal: PROPOSAL, signer: SIGNER };
    assert_eq!(vote(&mut ledger, &ctx, 0, 10), Ok(()));
    assert_eq!(counts(&ledger, &PROPOSAL), vec![1, 0]);
    assert_eq!(counts(&ledger, &second), vec![0, 0]);
}

#[test]
fn end_to_end_vote() {
    let choices = vec!["A".to_string(), "B".to_string()];
    let mut ledger = ledger_with_proposal(choices, (NOW + 3600) as u64);
    let x: Address = [42u8; 32];
    let ctx = CastVote { proposal: PROPOSAL, signer: x };
    assert_eq!(vote(&mut ledger, &ctx, 1, NOW), Ok(()));
    assert_eq!(counts(&ledger, &PROPOSAL), vec![0, 1]);
    match ledger.get(&receipt_address(&PROPOSAL, &x)) {
        Some(Account::Voter(v)) => {
            assert_eq!(v.choice_index, 1);
            assert_eq!(v.proposal, PROPOSAL);
            assert_eq!(v.user, x);
        }
        _ => panic!("no receipt at the derived address"),
    }
    assert_eq!(vote(&mut ledger, &ctx, 1, NOW), Err(VoteError::AccountAlreadyInUse));
    assert_eq!(counts(&ledger, &PROPOSAL), vec![0, 1]);
}

#[test]
fn second_vote_with_other_choice_fails() {
    let mut ledger = ledger_with_proposal(labels(3), 1000);
    let ctx = CastVote { proposal: PROPOSAL, signer: SIGNER };
    assert_eq!(vote(&mut ledger, &ctx, 0, 10), Ok(()));
    assert_eq!(vote(&mut ledger, &ctx, 2, 11), Err(VoteError::AccountAlreadyInUse));
    assert_eq!(counts(&ledger, &PROPOSAL), vec![1, 0, 0]);
    assert_eq!(ledger.len(), 2);
}

#[test]
fn distinct_participants_each_vote() {
    let mut ledger = ledger_with_proposal(labels(2), 1000);
    for who in 0u8..5 {
        let ctx = CastVote { proposal: PROPOSAL, signer: [100 + who; 32] };
        assert_eq!(vote(&mut ledger, &ctx, 1, 10), Ok(()));
    }
    assert_eq!(counts(&ledger, &PROPOSAL), vec![0, 5]);
    assert_eq!(ledger.len(), 6);
}

#[test]
fn vote_one_second_before_deadline_succeeds() {
    let mut ledger = ledger_with_proposal(labels(2), 1000);
    let ctx = CastVote { proposal: PROPOSAL, signer: SIGNER };
    assert_eq!(vote(&mut ledger, &ctx, 0, 999), Ok(()));
    assert_eq!(counts(&ledger, &PROPOSAL), vec![1, 0]);
}

#[test]
fn vote_at_deadline_fails() {
    let mut ledger = ledger_with_proposal(labels(2), 1000);
    let ctx = CastVote { proposal: PROPOSAL, signer: SIGNER };
    assert_eq!(vote(&mut ledger, &ctx, 0, 1000), Err(VoteError::ProposalClosed));
    assert_eq!(counts(&ledger, &PROPOSAL), vec![0, 0]);
    assert_eq!(ledger.len(), 1);
}

#[test]
fn vote_after_deadline_fails() {
    let mut ledger = ledger_with_proposal(labels(2), 1000);
    let ctx = CastVote { proposal: PROPOSAL, signer: SIGNER };
    assert_eq!(vote(&mut ledger, &ctx, 0, 5000), Err(VoteError::ProposalClosed));
    assert_eq!(ledger.len(), 1);
}

#[test]
fn vote_before_epoch_is_open() {
    let mut ledger = ledger_with_proposal(labels(2), 0);
    let ctx = CastVote { proposal: PROPOSAL, signer: SIGNER };
    assert_eq!(vote(&mut ledger, &ctx, 1, -5), Ok(()));
}

#[test]
fn vote_with_deadline_past_i64_range() {
    let mut ledger = ledger_with_proposal(labels(2), u64::MAX);
    let ctx = CastVote { proposal: PROPOSAL, signer: SIGNER };
    assert_eq!(vote(&mut ledger, &ctx, 1, i64::MAX), Ok(()));
}

#[test]
fn choice_index_equal_to_length_fails() {
    let mut ledger = ledger_with_proposal(labels(3), 1000);
    let ctx = CastVote { proposal: PROPOSAL, signer: SIGNER };
    assert_eq!(vote(&mut ledger, &ctx, 3, 10), Err(VoteError::ChoiceIndexOutOfRange));
    assert_eq!(vote(&mut ledger, &ctx, 255, 10), Err(VoteError::ChoiceIndexOutOfRange));
    assert_eq!(counts(&ledger, &PROPOSAL), vec![0, 0, 0]);
    assert_eq!(ledger.len(), 1);
}

#[test]
fn last_choice_index_succeeds() {
    let mut ledger = ledger_with_proposal(labels(3), 1000);
    let ctx = CastVote { proposal: PROPOSAL, signer: SIGNER };
    assert_eq!(vote(&mut ledger, &ctx, 2, 10), Ok(()));
    assert_eq!(counts(&ledger, &PROPOSAL), vec![0, 0, 1]);
}

#[test]
fn deadline_is_checked_before_choice_index() {
    let mut ledger = ledger_with_proposal(labels(1), 1000);
    let ctx = CastVote { proposal: PROPOSAL, signer: SIGNER };
    assert_eq!(vote(&mut ledger, &ctx, 7, 1000), Err(VoteError::ProposalClosed));
}

#[test]
fn vote_on_missing_proposal_fails() {
    let mut ledger = Ledger::new(PROGRAM);
    let ctx = CastVote { proposal: PROPOSAL, signer: SIGNER };
    assert_eq!(vote(&mut ledger, &ctx, 0, 10), Err(VoteError::AccountNotInitialized));
    assert_eq!(ledger.len(), 0);
}

#[test]
fn vote_on_user_record_fails() {
    let mut ledger = Ledger::new(PROGRAM);
    let user = User { is_content_creator: false, rewards: 5, voted_proposals: Vec::new() };
    assert_eq!(ledger.create(PROPOSAL, Account::User(user)), Ok(()));
    let ctx = CastVote { proposal: PROPOSAL, signer: SIGNER };
    assert_eq!(vote(&mut ledger, &ctx, 0, 10), Err(VoteError::AccountDiscriminatorMismatch));
}

#[test]
fn vote_on_full_tally_fails() {
    let mut ledger = Ledger::new(PROGRAM);
    let full = Proposal {
        title: "T".to_string(),
        description: "D".to_string(),
        choices: vec![Choice { label: "A".to_string(), count: u64::MAX }],
        deadline: 1000,
    };
    assert_eq!(ledger.create(PROPOSAL, Account::Proposal(full)), Ok(()));
    let ctx = CastVote { proposal: PROPOSAL, signer: SIGNER };
    assert_eq!(vote(&mut ledger, &ctx, 0, 10), Err(VoteError::TallyOverflow));
    assert_eq!(counts(&ledger, &PROPOSAL), vec![u64::MAX]);
    assert_eq!(ledger.len(), 1);
}

#[test]
fn cast_vote_at_explicit_receipt() {
    let mut ledger = ledger_with_proposal(labels(2), 1000);
    let ctx = CastVote { proposal: PROPOSAL, signer: SIGNER };
    let receipt: Address = [50u8; 32];
    assert_eq!(cast_vote_at(&mut ledger, &ctx, receipt, 1, 10), Ok(()));
    assert!(matches!(ledger.get(&receipt), Some(Account::Voter(v)) if v.choice_index == 1));
    let other = CastVote { proposal: PROPOSAL, signer: [3u8; 32] };
    assert_eq!(cast_vote_at(&mut ledger, &other, receipt, 0, 10), Err(VoteError::AccountAlreadyInUse));
    assert_eq!(cast_vote_at(&mut ledger, &other, PROPOSAL, 0, 10), Err(VoteError::AccountAlreadyInUse));
    assert_eq!(counts(&ledger, &PROPOSAL), vec![0, 1]);
}

#[test]
fn receipt_address_is_derived_from_the_pair() {
    let mut ledger = ledger_with_proposal(labels(2), 1000);
    let ctx = CastVote { proposal: PROPOSAL, signer: SIGNER };
    assert_eq!(vote(&mut ledger, &ctx, 0, 10), Ok(()));
    let derived = receipt_address(&PROPOSAL, &SIGNER);
    assert_ne!(derived, PROPOSAL);
    assert_ne!(derived, SIGNER);
    assert!(ledger.get(&derived).is_some());
    assert!(ledger.get(&SIGNER).is_none());
    assert_eq!(ledger.program_id(), PROGRAM);
}

#[test]
fn reward_insufficient_then_sufficient() {
    let mut ledger = Ledger::new(PROGRAM);
    let user_key: Address = [11u8; 32];
    let creator: Address = [12u8; 32];
    let user = User { is_content_creator: false, rewards: 50, voted_proposals: vec![PROPOSAL] };
    assert_eq!(ledger.create(user_key, Account::User(user)), Ok(()));
    let ctx = RewardContentCreator { user: user_key, content_creator: creator };
    assert!(matches!(reward_content_creator(&mut ledger, &ctx, 100), Err(VoteError::InsufficientBalance)));
    assert_eq!(user_rewards(&ledger, &user_key), 50);
    let t = reward_content_creator(&mut ledger, &ctx, 30).unwrap();
    assert_eq!(t.from, user_key);
    assert_eq!(t.to, creator);
    assert_eq!(t.lamports, 30);
    assert_eq!(user_rewards(&ledger, &user_key), 20);
}

#[test]
fn reward_of_whole_balance_succeeds() {
    let mut ledger = Ledger::new(PROGRAM);
    let user_key: Address = [11u8; 32];
    let user = User { is_content_creator: true, rewards: 50, voted_proposals: Vec::new() };
    assert_eq!(ledger.create(user_key, Account::User(user)), Ok(()));
    let ctx = RewardContentCreator { user: user_key, content_creator: [12u8; 32] };
    assert_eq!(reward_content_creator(&mut ledger, &ctx, 50).unwrap().lamports, 50);
    assert_eq!(user_rewards(&ledger, &user_key), 0);
}

#[test]
fn reward_from_missing_or_other_record_fails() {
    let mut ledger = ledger_with_proposal(labels(1), 1000);
    let missing = RewardContentCreator { user: [11u8; 32], content_creator: [12u8; 32] };
    assert!(matches!(reward_content_creator(&mut ledger, &missing, 1), Err(VoteError::AccountNotInitialized)));
    let wrong = RewardContentCreator { user: PROPOSAL, content_creator: [12u8; 32] };
    assert!(matches!(reward_content_creator(&mut ledger, &wrong, 1), Err(VoteError::AccountDiscriminatorMismatch)));
}

#[test]
fn fixed_reward_pays_a_tenth_of_a_sol() {
    let ctx = RewardContentCreator { user: [11u8; 32], content_creator: [12u8; 32] };
    let t = fixed_reward::reward_content_creator(&ctx);
    assert_eq!(t.lamports, 100_000_000);
    assert_eq!(FIXED_REWARD_LAMPORTS, 100_000_000);
    assert_eq!(t.from, [11u8; 32]);
    assert_eq!(t.to, [12u8; 32]);
}

#[test]
fn record_sizes_are_fixed() {
    assert_eq!(PROPOSAL_SPACE, 480);
    assert_eq!(VOTER_SPACE, 73);
}
