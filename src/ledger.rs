use vstd::prelude::*;

use crate::errors::VoteError;
use crate::state::{Account, AccountView, Address, Choice, Proposal, User};

verus! {

/// No two entries share an address.
pub open spec fn keys_unique(s: Seq<(Address, Account)>) -> bool {
    forall|i: int, j: int|
        0 <= i < s.len() && 0 <= j < s.len() && i != j ==> s[i].0@ != s[j].0@
}

/// The map from address to record that a list of entries stands for.
pub open spec fn map_of(s: Seq<(Address, Account)>) -> Map<Seq<u8>, AccountView>
    decreases s.len(),
{
    if s.len() == 0 {
        Map::empty()
    } else {
        map_of(s.drop_last()).insert(s.last().0@, s.last().1@)
    }
}

proof fn lemma_map_of_key(s: Seq<(Address, Account)>, i: int)
    requires
        0 <= i < s.len(),
    ensures
        map_of(s).contains_key(s[i].0@),
    decreases s.len(),
{
    let t = s.drop_last();
    if i < s.len() - 1 {
        assert(t[i] == s[i]);
        lemma_map_of_key(t, i);
    }
}

proof fn lemma_index_of(s: Seq<(Address, Account)>, k: Seq<u8>) -> (i: int)
    requires
        map_of(s).contains_key(k),
    ensures
        0 <= i < s.len(),
        s[i].0@ == k,
    decreases s.len(),
{
    let t = s.drop_last();
    if k == s.last().0@ {
        s.len() - 1
    } else {
        let i = lemma_index_of(t, k);
        assert(t[i] == s[i]);
        i
    }
}

proof fn lemma_map_of_at(s: Seq<(Address, Account)>, i: int)
    requires
        keys_unique(s),
        0 <= i < s.len(),
    ensures
        map_of(s).contains_key(s[i].0@),
        map_of(s)[s[i].0@] == s[i].1@,
    decreases s.len(),
{
    let t = s.drop_last();
    if i < s.len() - 1 {
        assert(keys_unique(t));
        assert(t[i] == s[i]);
        lemma_map_of_at(t, i);
    }
}

proof fn lemma_map_of_update(s: Seq<(Address, Account)>, i: int, a: Account)
    requires
        keys_unique(s),
        0 <= i < s.len(),
    ensures
        keys_unique(s.update(i, (s[i].0, a))),
        map_of(s.update(i, (s[i].0, a))) =~= map_of(s).insert(s[i].0@, a@),
    decreases s.len(),
{
    let u = s.update(i, (s[i].0, a));
    let t = s.drop_last();
    if i == s.len() - 1 {
        assert(u.drop_last() =~= t);
    } else {
        assert(keys_unique(t));
        assert(t[i] == s[i]);
        lemma_map_of_update(t, i, a);
        assert(u.drop_last() =~= t.update(i, (t[i].0, a)));
    }
}

proof fn lemma_map_of_push(s: Seq<(Address, Account)>, e: (Address, Account))
    requires
        keys_unique(s),
        !map_of(s).contains_key(e.0@),
    ensures
        keys_unique(s.push(e)),
        map_of(s.push(e)) == map_of(s).insert(e.0@, e.1@),
{
    assert(s.push(e).drop_last() =~= s);
    assert forall|i: int, j: int|
        0 <= i < s.push(e).len() && 0 <= j < s.push(e).len() && i != j
            implies s.push(e)[i].0@ != s.push(e)[j].0@ by {
        if i == s.len() {
            lemma_map_of_key(s, j);
        } else if j == s.len() {
            lemma_map_of_key(s, i);
        }
    }
}

/// True exactly when the two addresses hold the same bytes.
pub fn same_address(a: &Address, b: &Address) -> (r: bool)
    ensures
        r == (a@ == b@),
{
    let mut i: usize = 0;
    while i < 32
        invariant
            0 <= i <= 32,
            a@.len() == 32,
            b@.len() == 32,
            forall|j: int| 0 <= j < i ==> a@[j] == b@[j],
        decreases 32 - i,
    {
        if a[i] != b[i] {
            return false;
        }
        i = i + 1;
    }
    assert(a@ =~= b@);
    true
}

/// A store of records, each at its own address, as a program owning them sees it.
pub struct Ledger {
    program_id: Address,
    accounts: Vec<(Address, Account)>,
}

impl View for Ledger {
    type V = Map<Seq<u8>, AccountView>;

    closed spec fn view(&self) -> Map<Seq<u8>, AccountView> {
        map_of(self.accounts@)
    }
}

impl Ledger {
    /// Addresses are unique and every record is well formed.
    pub open spec fn wf(&self) -> bool {
        &&& self.keys_ok()
        &&& forall|k: Seq<u8>| #[trigger] self@.contains_key(k) ==> self@[k].wf()
    }

    /// Identifier of the program that owns the records and derives receipt addresses.
    pub closed spec fn program(&self) -> Address {
        self.program_id
    }

    /// The owning program's identifier.
    pub fn program_id(&self) -> (r: Address)
        ensures
            r == self.program(),
    {
        self.program_id
    }

    /// No two entries share an address.
    pub closed spec fn keys_ok(&self) -> bool {
        keys_unique(self.accounts@)
    }

    /// An empty ledger for the given program.
    pub fn new(program_id: Address) -> (r: Ledger)
        ensures
            r.wf(),
            r@ == Map::<Seq<u8>, AccountView>::empty(),
            r.program() == program_id,
    {
        let r = Ledger { program_id, accounts: Vec::new() };
        assert(r.accounts@.len() == 0);
        r
    }

    /// Number of records held.
    pub fn len(&self) -> (r: usize)
        requires
            self.wf(),
        ensures
            r == self@.len(),
    {
        proof {
            self.lemma_len();
        }
        self.accounts.len()
    }

    proof fn lemma_len(&self)
        requires
            self.wf(),
        ensures
            self@.len() == self.accounts@.len(),
        decreases self.accounts@.len(),
    {
        lemma_len_of(self.accounts@);
    }

    /// Position of the entry at `key`, if there is one.
    fn position(&self, key: &Address) -> (r: Option<usize>)
        requires
            self.wf(),
        ensures
            r.is_none() <==> !self@.contains_key(key@),
            r.is_some() ==> r.unwrap() < self.accounts@.len() && self.accounts@[r.unwrap() as int].0@
                == key@,
    {
        let mut i: usize = 0;
        while i < self.accounts.len()
            invariant
                0 <= i <= self.accounts@.len(),
                forall|j: int| 0 <= j < i ==> self.accounts@[j].0@ != key@,
            decreases self.accounts@.len() - i,
        {
            if same_address(&self.accounts[i].0, key) {
                proof {
                    lemma_map_of_key(self.accounts@, i as int);
                }
                return Some(i);
            }
            i = i + 1;
        }
        proof {
            if self@.contains_key(key@) {
                lemma_index_of(self.accounts@, key@);
            }
        }
        None
    }

    /// The record at `key`, if there is one.
    pub fn get(&self, key: &Address) -> (r: Option<&Account>)
        requires
            self.wf(),
        ensures
            r.is_none() <==> !self@.contains_key(key@),
            r.is_some() ==> r.unwrap()@ == self@[key@],
    {
        match self.position(key) {
            Some(i) => {
                proof {
                    lemma_map_of_at(self.accounts@, i as int);
                }
                Some(&self.accounts[i].1)
            },
            None => None,
        }
    }

    /// Stores `account` at `key`, which must be free; refuses an address in use.
    pub fn create(&mut self, key: Address, account: Account) -> (r: Result<(), VoteError>)
        requires
            old(self).wf(),
            account@.wf(),
        ensures
            final(self).wf(),
            final(self).program() == old(self).program(),
            r == (if old(self)@.contains_key(key@) {
                Err(VoteError::AccountAlreadyInUse)
            } else {
                Ok(())
            }),
            r is Ok ==> final(self)@ == old(self)@.insert(key@, account@),
            r is Err ==> final(self)@ == old(self)@,
    {
        if self.position(&key).is_some() {
            return Err(VoteError::AccountAlreadyInUse);
        }
        proof {
            lemma_map_of_push(self.accounts@, (key, account));
        }
        self.accounts.push((key, account));
        Ok(())
    }

    /// Adds one vote to choice `choice` of the proposal at `key`.
    pub(crate) fn add_vote(&mut self, key: &Address, choice: usize)
        requires
            old(self).wf(),
            old(self)@.contains_key(key@),
            old(self)@[key@] is Proposal,
            choice < old(self)@[key@]->Proposal_0.choices.len(),
            old(self)@[key@]->Proposal_0.choices[choice as int].count < u64::MAX,
        ensures
            final(self).wf(),
            final(self).program() == old(self).program(),
            final(self)@ == old(self)@.insert(
                key@,
                AccountView::Proposal(old(self)@[key@]->Proposal_0.with_vote(choice as int)),
            ),
    {
        let i = self.position(key).unwrap();
        let ghost s = self.accounts@;
        proof {
            lemma_map_of_at(s, i as int);
        }
        let (k, account) = self.accounts.remove(i);
        let updated = match account {
            Account::Proposal(p) => {
                let Proposal { title, description, mut choices, deadline } = p;
                let ghost before = choices@;
                let Choice { label, count } = choices.remove(choice);
                choices.insert(choice, Choice { label, count: count + 1 });
                proof {
                    assert(choices@ =~= before.update(choice as int, choices@[choice as int]));
                }
                let q = Proposal { title, description, choices, deadline };
                proof {
                    assert(q@.choices =~= p@.choices.update(choice as int, q@.choices[choice as int]));
                    assert(q@ == p@.with_vote(choice as int));
                }
                Account::Proposal(q)
            },
            other => other,
        };
        self.accounts.insert(i, (k, updated));
        proof {
            assert(self.accounts@ =~= s.update(i as int, (s[i as int].0, updated)));
            lemma_map_of_update(s, i as int, updated);
        }
    }

    /// Takes `amount` off the rewards of the user record at `key`.
    pub(crate) fn debit(&mut self, key: &Address, amount: u64)
        requires
            old(self).wf(),
            old(self)@.contains_key(key@),
            old(self)@[key@] is User,
            amount <= old(self)@[key@]->User_0.rewards,
        ensures
            final(self).wf(),
            final(self).program() == old(self).program(),
            final(self)@ == old(self)@.insert(
                key@,
                AccountView::User(old(self)@[key@]->User_0.debited(amount)),
            ),
    {
        let i = self.position(key).unwrap();
        let ghost s = self.accounts@;
        proof {
            lemma_map_of_at(s, i as int);
        }
        let (k, account) = self.accounts.remove(i);
        let updated = match account {
            Account::User(u) => {
                let User { is_content_creator, rewards, voted_proposals } = u;
                Account::User(User { is_content_creator, rewards: rewards - amount, voted_proposals })
            },
            other => other,
        };
        self.accounts.insert(i, (k, updated));
        proof {
            assert(self.accounts@ =~= s.update(i as int, (s[i as int].0, updated)));
            lemma_map_of_update(s, i as int, updated);
        }
    }
}

proof fn lemma_len_of(s: Seq<(Address, Account)>)
    requires
        keys_unique(s),
    ensures
        map_of(s).len() == s.len(),
    decreases s.len(),
{
    if s.len() > 0 {
        let t = s.drop_last();
        assert(keys_unique(t));
        lemma_len_of(t);
        assert(!map_of(t).contains_key(s.last().0@)) by {
            if map_of(t).contains_key(s.last().0@) {
                let i = lemma_index_of(t, s.last().0@);
                assert(s[i] == t[i]);
            }
        }
        assert(map_of(t).dom().finite()) by {
            lemma_map_of_finite(t);
        }
    }
}

proof fn lemma_map_of_finite(s: Seq<(Address, Account)>)
    ensures
        map_of(s).dom().finite(),
    decreases s.len(),
{
    if s.len() > 0 {
        lemma_map_of_finite(s.drop_last());
    }
}

} // verus!
