//! The account ledger: one balance for each identity that has an account.

use crate::error::Error;
use crate::identity::Identity;
use crate::model::{balance_amounts, balance_in};
use crate::stable::{account_entries, account_get, account_insert, account_list, AccountMap};
use crate::totals::{lemma_listed_total, lemma_sum_of_grows, sum_of, total};
use vstd::prelude::*;

verus! {

/// The balances of all accounts, in stable memory. An identity without an
/// account has a balance of zero.
pub struct AccountLedger {
    map: AccountMap,
}

impl View for AccountLedger {
    type V = Map<Seq<u8>, u64>;

    closed spec fn view(&self) -> Map<Seq<u8>, u64> {
        account_entries(&self.map)
    }
}

impl AccountLedger {
    /// The ledger over a map of accounts.
    pub(crate) fn over(map: AccountMap) -> (ledger: Self)
        ensures
            ledger@ == account_entries(&map),
    {
        AccountLedger { map }
    }

    /// The balance of the identity's account, or nothing where it has
    /// none.
    pub fn find(&self, who: &Identity) -> (found: Option<u64>)
        ensures
            found == if self@.contains_key(who@) {
                Some(self@[who@])
            } else {
                None
            },
    {
        account_get(&self.map, who.as_slice())
    }

    /// The balance of the identity.
    pub fn get_balance(&self, who: &Identity) -> (balance: u64)
        ensures
            balance == balance_in(self@, who@),
    {
        match self.find(who) {
            Some(balance) => balance,
            None => 0,
        }
    }

    /// The sum of all balances, or nothing where it does not fit 64 bits.
    pub fn total(&self) -> (sum: Option<u64>)
        ensures
            self@.dom().finite(),
            match sum {
                Some(sum) => sum == total(balance_amounts(self@)),
                None => total(balance_amounts(self@)) > u64::MAX,
            },
    {
        let entries = account_list(&self.map);
        let ghost keys = Seq::new(entries@.len(), |i: int| entries@[i].0@);
        let ghost amounts = Seq::new(entries@.len(), |i: int| entries@[i].1 as nat);
        proof {
            assert forall|who: Seq<u8>| #[trigger]
                balance_amounts(self@).contains_key(who) implies exists|i: int|
                0 <= i < keys.len() && #[trigger] keys[i] == who by {
                let i = choose|i: int|
                    #![trigger entries@[i]]
                    0 <= i < entries@.len() && entries@[i].0@ == who;
                assert(keys[i] == who);
            }
            lemma_listed_total(keys, amounts, balance_amounts(self@));
            assert(self@.dom() =~= balance_amounts(self@).dom());
        }
        let mut sum: u64 = 0;
        let mut i: usize = 0;
        while i < entries.len()
            invariant
                i <= entries@.len(),
                amounts.len() == entries@.len(),
                forall|j: int| 0 <= j < entries@.len() ==> amounts[j] == entries@[j].1,
                sum == sum_of(amounts, i as nat),
                self@.dom().finite(),
                balance_amounts(self@).dom().finite(),
                total(balance_amounts(self@)) == sum_of(amounts, entries@.len()),
            decreases entries@.len() - i,
        {
            let amount = entries[i].1;
            if amount > u64::MAX - sum {
                proof {
                    lemma_sum_of_grows(amounts, (i + 1) as nat, entries@.len());
                }
                return None;
            }
            sum = sum + amount;
            i += 1;
        }
        Some(sum)
    }

    /// Adds the amount to the identity's balance, opening the account where
    /// there is none.
    pub fn credit(&mut self, who: &Identity, amount: u64)
        requires
            balance_in(old(self)@, who@) + amount <= u64::MAX,
        ensures
            final(self)@ == old(self)@.insert(who@, (balance_in(old(self)@, who@) + amount) as u64),
    {
        let balance = self.get_balance(who);
        account_insert(&mut self.map, who.as_slice(), balance + amount);
    }

    /// Takes the amount from the identity's balance. Where the balance is
    /// less than the amount, nothing is taken and the ledger stays as it
    /// is.
    pub fn debit(&mut self, who: &Identity, amount: u64) -> (taken: Result<(), Error>)
        ensures
            balance_in(old(self)@, who@) < amount ==> taken == Err::<(), Error>(
                Error::InsufficientFunds,
            ) && final(self)@ == old(self)@,
            balance_in(old(self)@, who@) >= amount ==> taken.is_ok() && final(self)@ == old(
                self,
            )@.insert(who@, (balance_in(old(self)@, who@) - amount) as u64),
    {
        let balance = self.get_balance(who);
        if balance < amount {
            Err(Error::InsufficientFunds)
        } else {
            account_insert(&mut self.map, who.as_slice(), balance - amount);
            Ok(())
        }
    }
}

} // verus!
