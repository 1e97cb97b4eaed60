//! The token ledger: balances by account, a running total supply, and the
//! deployer role that guards minting and burning.

use vstd::prelude::*;
use crate::bytes::{contains_word, position, words_equal};

verus! {

/// Why the ledger refuses a call.
#[derive(Debug, PartialEq, Eq, Clone, Copy, Structural)]
pub enum Error {
    NotOwner,
    NotEnoughMoney,
    NotFound,
}

/// What a ledger holds: its name and symbol, every account's balance (an
/// account never written to holds nothing), the total supply and the
/// deployers.
pub struct LedgerView {
    pub name: Seq<char>,
    pub symbol: Seq<char>,
    pub balances: Map<[u8; 32], u128>,
    pub supply: u128,
    pub deployers: Seq<[u8; 32]>,
}

impl LedgerView {
    /// Minting `amount` to `to` would overflow the balance or the supply.
    pub open spec fn mint_overflows(self, amount: u128, to: [u8; 32]) -> bool {
        self.balances[to] + amount > u128::MAX || self.supply + amount > u128::MAX
    }

    /// The ledger after `amount` was minted to `to`.
    pub open spec fn minted(self, amount: u128, to: [u8; 32]) -> LedgerView {
        LedgerView {
            balances: self.balances.insert(to, (self.balances[to] + amount) as u128),
            supply: (self.supply + amount) as u128,
            ..self
        }
    }

    /// The ledger after `amount` was burnt from `account`.
    pub open spec fn burnt(self, account: [u8; 32], amount: u128) -> LedgerView {
        LedgerView {
            balances: self.balances.insert(account, (self.balances[account] - amount) as u128),
            supply: (self.supply - amount) as u128,
            ..self
        }
    }
}

/// The ledger.
pub struct Token {
    token_name: String,
    token_symbol: String,
    accounts: Vec<[u8; 32]>,
    amounts: Vec<u128>,
    total_supply: u128,
    deployers: Vec<[u8; 32]>,
}

impl View for Token {
    type V = LedgerView;

    open spec fn view(&self) -> LedgerView {
        LedgerView {
            name: self.name(),
            symbol: self.symbol(),
            balances: Map::total(|account: [u8; 32]| self.balance(account)),
            supply: self.supply(),
            deployers: self.deployer_list(),
        }
    }
}

impl Token {
    /// The token's name.
    pub closed spec fn name(&self) -> Seq<char> {
        self.token_name@
    }

    /// The token's symbol.
    pub closed spec fn symbol(&self) -> Seq<char> {
        self.token_symbol@
    }

    /// The sum of what was minted less what was burnt.
    pub closed spec fn supply(&self) -> u128 {
        self.total_supply
    }

    /// The accounts with the deployer role, in the order they got it.
    pub closed spec fn deployer_list(&self) -> Seq<[u8; 32]> {
        self.deployers@
    }

    /// The balance of `account`; an account never written to holds nothing.
    pub closed spec fn balance(&self, account: [u8; 32]) -> u128 {
        if self.accounts@.contains(account) {
            self.amounts@[position(self.accounts@, account)]
        } else {
            0
        }
    }

    /// Each account is listed once, with one amount.
    pub closed spec fn wf(&self) -> bool {
        &&& self.accounts@.len() == self.amounts@.len()
        &&& self.accounts@.no_duplicates()
    }

    /// Whether `account` has the deployer role.
    pub open spec fn deployer(&self, account: [u8; 32]) -> bool {
        self.deployer_list().contains(account)
    }

    /// The ledger's name, symbol and deployers are those of `before`.
    pub open spec fn same_identity(&self, before: Token) -> bool {
        &&& self.name() == before.name()
        &&& self.symbol() == before.symbol()
        &&& self.deployer_list() == before.deployer_list()
    }

    /// Every balance but those of `a` and `b` is that of `before`.
    pub open spec fn same_balances_but(&self, before: Token, a: [u8; 32], b: [u8; 32]) -> bool {
        forall|other: [u8; 32]|
            other != a && other != b ==> self.balance(other) == before.balance(other)
    }

    /// Minting `amount` to `to` overflows neither the balance nor the supply.
    pub open spec fn mint_fits(&self, amount: u128, to: [u8; 32]) -> bool {
        self.balance(to) + amount <= u128::MAX && self.supply() + amount <= u128::MAX
    }

    /// An empty ledger whose only deployer is `caller`.
    pub fn new(caller: [u8; 32], name: String, symbol: String) -> (out: Self)
        ensures
            out.wf(),
            out.name() == name@,
            out.symbol() == symbol@,
            out.supply() == 0,
            out.deployer_list() == seq![caller],
            forall|account: [u8; 32]| out.balance(account) == 0,
    {
        let mut deployers: Vec<[u8; 32]> = Vec::new();
        deployers.push(caller);
        assert(deployers@ =~= seq![caller]);
        Token {
            token_name: name,
            token_symbol: symbol,
            accounts: Vec::new(),
            amounts: Vec::new(),
            deployers,
            total_supply: 0,
        }
    }

    /// Whether `addr` has the deployer role.
    pub fn is_deployer(&self, addr: [u8; 32]) -> (yes: bool)
        ensures
            yes == self.deployer(addr),
    {
        contains_word(&self.deployers, &addr)
    }

    /// Gives `adress` the deployer role; only a deployer may.
    pub fn add_deployer(&mut self, caller: [u8; 32], adress: [u8; 32]) -> (out: Result<(), Error>)
        requires
            old(self).wf(),
        ensures
            final(self).wf(),
            old(self).deployer(caller) ==> out is Ok && final(self).deployer_list() == old(self).deployer_list().push(adress),
            !old(self).deployer(caller) ==> out == Err::<(), Error>(Error::NotOwner) && final(self).deployer_list() == old(self).deployer_list(),
            final(self).name() == old(self).name(),
            final(self).symbol() == old(self).symbol(),
            final(self).supply() == old(self).supply(),
            forall|account: [u8; 32]| final(self).balance(account) == old(self).balance(account),
    {
        if !self.is_deployer(caller) {
            return Err(Error::NotOwner);
        }
        self.deployers.push(adress);
        Ok(())
    }

    fn find(&self, account: &[u8; 32]) -> (out: Option<usize>)
        requires
            self.wf(),
        ensures
            match out {
                Some(i) => i < self.accounts@.len() && self.accounts@[i as int] == *account
                    && position(self.accounts@, *account) == i,
                None => !self.accounts@.contains(*account),
            },
    {
        let mut i: usize = 0;
        while i < self.accounts.len()
            invariant
                self.wf(),
                i <= self.accounts@.len(),
                forall|j: int| 0 <= j < i ==> self.accounts@[j] != *account,
            decreases self.accounts.len() - i,
        {
            if words_equal(&self.accounts[i], account) {
                proof {
                    let at = i as int;
                    assert(0 <= at < self.accounts@.len() && self.accounts@[at] == *account);
                    let chosen = position(self.accounts@, *account);
                    assert(self.accounts@[chosen] == *account);
                    assert(chosen == at);
                }
                return Some(i);
            }
            i += 1;
        }
        None
    }

    fn set_balance(&mut self, account: [u8; 32], value: u128)
        requires
            old(self).wf(),
        ensures
            final(self).wf(),
            final(self).same_identity(*old(self)),
            final(self).supply() == old(self).supply(),
            final(self).balance(account) == value,
            forall|other: [u8; 32]|
                other != account ==> final(self).balance(other) == old(self).balance(other),
    {
        match self.find(&account) {
            Some(i) => {
                self.amounts[i] = value;
                assert forall|other: [u8; 32]| other != account implies self.balance(other) == old(self).balance(other) by {
                    if self.accounts@.contains(other) {
                        let k = position(self.accounts@, other);
                        assert(k != i);
                    }
                }
            },
            None => {
                let ghost before = self.accounts@;
                self.accounts.push(account);
                self.amounts.push(value);
                proof {
                    let last = before.len() as int;
                    assert(self.accounts@[last] == account);
                    assert(self.accounts@.contains(account));
                    assert forall|other: [u8; 32]| other != account implies self.balance(other)
                        == old(self).balance(other) by {
                        if before.contains(other) {
                            let j = position(before, other);
                            assert(self.accounts@[j] == other);
                            let k = position(self.accounts@, other);
                            assert(k == j);
                        } else if self.accounts@.contains(other) {
                            let k = position(self.accounts@, other);
                            assert(before[k] == other);
                        }
                    }
                }
            },
        }
    }

    /// The balance of `account`.
    pub fn balance_of(&self, account: [u8; 32]) -> (out: u128)
        requires
            self.wf(),
        ensures
            out == self.balance(account),
    {
        match self.find(&account) {
            Some(i) => self.amounts[i],
            None => 0,
        }
    }

    /// The total supply.
    pub fn total_supply(&self) -> (out: u128)
        ensures
            out == self.supply(),
    {
        self.total_supply
    }

    /// Mints `ammount` to `adress`. The guard is the ledger's own: a call
    /// made by a deployer is refused with `NotOwner` and changes nothing; any
    /// other caller mints.
    pub fn mint(&mut self, caller: [u8; 32], ammount: u128, adress: [u8; 32]) -> (out: Result<
        (),
        Error,
    >)
        requires
            old(self).wf(),
            !old(self).deployer(caller) ==> old(self).mint_fits(ammount, adress),
        ensures
            final(self).wf(),
            final(self).same_identity(*old(self)),
            old(self).deployer(caller) ==> out == Err::<(), Error>(Error::NotOwner) && final(self).supply() == old(self).supply() && forall|account: [u8; 32]|
                final(self).balance(account) == old(self).balance(account),
            !old(self).deployer(caller) ==> out is Ok && final(self).supply() == old(self).supply()
                + ammount && final(self).balance(adress) == old(self).balance(adress) + ammount
                && final(self).same_balances_but(*old(self), adress, adress),
            old(self).deployer(caller) ==> final(self)@ == old(self)@,
            !old(self).deployer(caller) ==> final(self)@ == old(self)@.minted(ammount, adress),
    {
        if self.is_deployer(caller) {
            return Err(Error::NotOwner);
        }
        let held = self.balance_of(adress);
        self.set_balance(adress, held + ammount);
        self.total_supply = self.total_supply + ammount;
        proof {
            assert(self@.balances =~= old(self)@.minted(ammount, adress).balances);
        }
        Ok(())
    }

    /// Moves `ammount` from the caller to `to`.
    pub fn transfer_tokens(&mut self, caller: [u8; 32], to: [u8; 32], ammount: u128) -> (out: Result<
        (),
        Error,
    >)
        requires
            old(self).wf(),
            old(self).balance(caller) >= ammount ==> old(self).balance(to) + ammount <= u128::MAX,
        ensures
            final(self).wf(),
            final(self).same_identity(*old(self)),
            final(self).supply() == old(self).supply(),
            old(self).balance(caller) < ammount ==> out == Err::<(), Error>(Error::NotEnoughMoney)
                && forall|account: [u8; 32]|
                final(self).balance(account) == old(self).balance(account),
            old(self).balance(caller) >= ammount ==> out is Ok && final(self).balance(to) == old(self).balance(to) + ammount && (caller != to ==> final(self).balance(caller) == old(self).balance(caller) - ammount) && final(self).same_balances_but(*old(self), caller, to),
    {
        self.transfer_from_to(caller, to, ammount)
    }

    /// Moves `ammount` from `from` to `to`. Both balances are read before
    /// either is written, and the receiver's is written last.
    pub fn transfer_from_to(&mut self, from: [u8; 32], to: [u8; 32], ammount: u128) -> (out: Result<
        (),
        Error,
    >)
        requires
            old(self).wf(),
            old(self).balance(from) >= ammount ==> old(self).balance(to) + ammount <= u128::MAX,
        ensures
            final(self).wf(),
            final(self).same_identity(*old(self)),
            final(self).supply() == old(self).supply(),
            old(self).balance(from) < ammount ==> out == Err::<(), Error>(Error::NotEnoughMoney)
                && forall|account: [u8; 32]|
                final(self).balance(account) == old(self).balance(account),
            old(self).balance(from) >= ammount ==> out is Ok && final(self).balance(to) == old(self).balance(to) + ammount && (from != to ==> final(self).balance(from) == old(self).balance(from) - ammount) && final(self).same_balances_but(*old(self), from, to),
    {
        let sender_balance = self.balance_of(from);
        let to_balance = self.balance_of(to);
        if sender_balance < ammount {
            return Err(Error::NotEnoughMoney);
        }
        self.set_balance(from, sender_balance - ammount);
        self.set_balance(to, to_balance + ammount);
        Ok(())
    }

    /// Whether burning `ammount` from `account` on behalf of `caller` either
    /// is refused or leaves a supply that is not negative.
    pub open spec fn burn_fits(&self, caller: [u8; 32], account: [u8; 32], ammount: u128) -> bool {
        !self.deployer(caller) && self.balance(account) >= ammount ==> self.supply() >= ammount
    }

    /// Burns `ammount` from `account`. A call made by a deployer is refused
    /// with `NotOwner`, one for more than the account holds with
    /// `NotEnoughMoney`; a refused call changes nothing.
    pub fn burn_tokens(&mut self, caller: [u8; 32], account: [u8; 32], ammount: u128) -> (out: Result<
        (),
        Error,
    >)
        requires
            old(self).wf(),
            old(self).burn_fits(caller, account, ammount),
        ensures
            final(self).wf(),
            final(self).same_identity(*old(self)),
            out == old(self).burn_outcome(caller, account, ammount),
            out is Err ==> final(self).supply() == old(self).supply() && forall|a: [u8; 32]|
                final(self).balance(a) == old(self).balance(a),
            out is Ok ==> final(self).supply() == old(self).supply() - ammount && final(self).balance(account) == old(self).balance(account) - ammount && final(self).same_balances_but(*old(self), account, account),
    {
        if self.is_deployer(caller) {
            return Err(Error::NotOwner);
        }
        let account_balance = self.balance_of(account);
        if account_balance < ammount {
            return Err(Error::NotEnoughMoney);
        }
        self.set_balance(account, account_balance - ammount);
        self.total_supply = self.total_supply - ammount;
        Ok(())
    }

    /// What a burn returns.
    pub open spec fn burn_outcome(&self, caller: [u8; 32], account: [u8; 32], ammount: u128) -> Result<
        (),
        Error,
    > {
        if self.deployer(caller) {
            Err(Error::NotOwner)
        } else if self.balance(account) < ammount {
            Err(Error::NotEnoughMoney)
        } else {
            Ok(())
        }
    }
}

} // verus!
