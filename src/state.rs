use vstd::prelude::*;

verus! {

/// An opaque 32-byte account identifier.
pub type Address = [u8; 32];

/// Largest number of choices a proposal may hold.
pub const MAX_CHOICES: usize = 10;

/// Bytes of the discriminator that heads every stored record.
pub const DISCRIMINATOR_LEN: usize = 8;

/// Bytes reserved for a title, a description or a choice label.
pub const TEXT_SLOT_LEN: usize = 32;

/// Storage reserved for a proposal: header, title, description, `MAX_CHOICES` choices
/// (label and tally each) and the deadline.
pub const PROPOSAL_SPACE: usize = DISCRIMINATOR_LEN + TEXT_SLOT_LEN + TEXT_SLOT_LEN + (TEXT_SLOT_LEN
    + 8) * MAX_CHOICES + 8;

/// Storage reserved for a voter receipt: header, proposal, participant, choice index.
pub const VOTER_SPACE: usize = DISCRIMINATOR_LEN + 32 + 32 + 1;

/// One selectable option of a proposal with its running tally.
pub struct Choice {
    pub label: String,
    pub count: u64,
}

pub ghost struct ChoiceView {
    pub label: Seq<char>,
    pub count: u64,
}

impl View for Choice {
    type V = ChoiceView;

    open spec fn view(&self) -> ChoiceView {
        ChoiceView { label: self.label@, count: self.count }
    }
}

/// A voteable unit: title, description, a fixed list of choices and a deadline.
pub struct Proposal {
    pub title: String,
    pub description: String,
    pub choices: Vec<Choice>,
    pub deadline: u64,
}

pub ghost struct ProposalView {
    pub title: Seq<char>,
    pub description: Seq<char>,
    pub choices: Seq<ChoiceView>,
    pub deadline: u64,
}

impl View for Proposal {
    type V = ProposalView;

    open spec fn view(&self) -> ProposalView {
        ProposalView {
            title: self.title@,
            description: self.description@,
            choices: self.choices@.map_values(|c: Choice| c@),
            deadline: self.deadline,
        }
    }
}

/// Proof that `user` voted `choice_index` on `proposal`.
#[derive(Clone, Copy)]
pub struct Voter {
    pub proposal: Address,
    pub user: Address,
    pub choice_index: u8,
}

pub ghost struct VoterView {
    pub proposal: Seq<u8>,
    pub user: Seq<u8>,
    pub choice_index: u8,
}

impl View for Voter {
    type V = VoterView;

    open spec fn view(&self) -> VoterView {
        VoterView { proposal: self.proposal@, user: self.user@, choice_index: self.choice_index }
    }
}

/// A participant's balance record on the reward side.
pub struct User {
    pub is_content_creator: bool,
    pub rewards: u64,
    pub voted_proposals: Vec<Address>,
}

pub ghost struct UserView {
    pub is_content_creator: bool,
    pub rewards: u64,
    pub voted_proposals: Seq<Seq<u8>>,
}

impl View for User {
    type V = UserView;

    open spec fn view(&self) -> UserView {
        UserView {
            is_content_creator: self.is_content_creator,
            rewards: self.rewards,
            voted_proposals: self.voted_proposals@.map_values(|a: Address| a@),
        }
    }
}

/// A stored record, one of the three kinds.
pub enum Account {
    Proposal(Proposal),
    Voter(Voter),
    User(User),
}

pub ghost enum AccountView {
    Proposal(ProposalView),
    Voter(VoterView),
    User(UserView),
}

impl View for Account {
    type V = AccountView;

    open spec fn view(&self) -> AccountView {
        match self {
            Account::Proposal(p) => AccountView::Proposal(p@),
            Account::Voter(v) => AccountView::Voter(v@),
            Account::User(u) => AccountView::User(u@),
        }
    }
}

impl ProposalView {
    /// The proposal with one more vote for choice `i`.
    pub open spec fn with_vote(self, i: int) -> ProposalView {
        ProposalView {
            choices: self.choices.update(
                i,
                ChoiceView { count: (self.choices[i].count + 1) as u64, ..self.choices[i] },
            ),
            ..self
        }
    }
}

impl UserView {
    /// The record with `amount` taken off its rewards.
    pub open spec fn debited(self, amount: u64) -> UserView {
        UserView { rewards: (self.rewards - amount) as u64, ..self }
    }
}

impl AccountView {
    /// A record is well formed when a proposal among them holds at most `MAX_CHOICES` choices.
    pub open spec fn wf(self) -> bool {
        match self {
            AccountView::Proposal(p) => p.choices.len() <= MAX_CHOICES,
            _ => true,
        }
    }
}

} // verus!
