//! A fungible token: balances, allowances and a total supply, with the
//! transfers, approvals, mints and burns that move them. Each operation takes
//! its caller as an argument and returns the event it emits; an operation
//! that fails changes nothing.
use vstd::prelude::*;
use crate::address::Address;
use crate::collections::mapping::{KeyEq, Mapping, entries_to_map, keys_unique, lemma_entries_dom, lemma_entries_value};
use crate::uint::{U256, pow256};

verus! {

/// Why a token operation failed.
#[derive(Clone, Copy, Debug, PartialEq, Eq, Structural)]
pub enum Erc20Error {
    InsufficientBalance,
    InsufficientAllowance,
    NameNotSet,
    SymbolNotSet,
    DecimalsNotSet,
}

impl Erc20Error {
    /// The error's code.
    pub fn code(&self) -> (r: u16)
        ensures
            r == match *self {
                Erc20Error::InsufficientBalance => 30_000u16,
                Erc20Error::InsufficientAllowance => 30_001u16,
                Erc20Error::NameNotSet => 30_002u16,
                Erc20Error::SymbolNotSet => 30_003u16,
                Erc20Error::DecimalsNotSet => 30_004u16,
            },
    {
        match *self {
            Erc20Error::InsufficientBalance => 30_000,
            Erc20Error::InsufficientAllowance => 30_001,
            Erc20Error::NameNotSet => 30_002,
            Erc20Error::SymbolNotSet => 30_003,
            Erc20Error::DecimalsNotSet => 30_004,
        }
    }
}

/// Tokens moved from `from` to `to`; `None` stands for a mint or a burn.
#[derive(Clone, Copy, Debug, PartialEq, Eq, Structural)]
pub struct Transfer {
    pub from: Option<Address>,
    pub to: Option<Address>,
    pub amount: U256,
}

/// `owner` allows `spender` to move `value` of its tokens.
#[derive(Clone, Copy, Debug, PartialEq, Eq, Structural)]
pub struct Approval {
    pub owner: Address,
    pub spender: Address,
    pub value: U256,
}

/// The place of an allowance: its owner and its spender.
#[derive(Clone, Copy, Debug, PartialEq, Eq, Structural)]
pub struct AllowanceKey {
    pub owner: Address,
    pub spender: Address,
}

impl KeyEq for AllowanceKey {
    fn key_eq(&self, other: &Self) -> (r: bool) {
        *self == *other
    }
}

/// The sum of the amounts in a list of entries.
pub open spec fn sum_values<K>(s: Seq<(K, U256)>) -> nat
    decreases s.len(),
{
    if s.len() == 0 { 0 } else { sum_values(s.drop_last()) + s.last().1.value() }
}

proof fn lemma_sum_update<K>(s: Seq<(K, U256)>, i: int, v: U256)
    requires
        0 <= i < s.len(),
    ensures
        sum_values(s.update(i, (s[i].0, v))) == sum_values(s) - s[i].1.value() + v.value(),
    decreases s.len(),
{
    let t = s.update(i, (s[i].0, v));
    if i < s.len() - 1 {
        assert(t.drop_last() =~= s.drop_last().update(i, (s[i].0, v)));
        assert(s.drop_last()[i] == s[i]);
        lemma_sum_update(s.drop_last(), i, v);
    } else {
        assert(t.drop_last() =~= s.drop_last());
    }
}

proof fn lemma_sum_push<K>(s: Seq<(K, U256)>, k: K, v: U256)
    ensures
        sum_values(s.push((k, v))) == sum_values(s) + v.value(),
{
    assert(s.push((k, v)).drop_last() =~= s);
}

/// One entry, or two distinct ones, take no more than the sum.
proof fn lemma_sum_bounds<K>(s: Seq<(K, U256)>, i: int, j: int)
    requires
        0 <= i < s.len(),
        0 <= j < s.len(),
    ensures
        sum_values(s) >= s[i].1.value(),
        i != j ==> sum_values(s) >= s[i].1.value() + s[j].1.value(),
    decreases s.len(),
{
    let n = s.len() - 1;
    if i < n && j < n {
        assert(s.drop_last()[i] == s[i]);
        assert(s.drop_last()[j] == s[j]);
        lemma_sum_bounds(s.drop_last(), i, j);
    } else if i < n {
        assert(s.drop_last()[i] == s[i]);
        lemma_sum_bounds(s.drop_last(), i, i);
    } else if j < n {
        assert(s.drop_last()[j] == s[j]);
        lemma_sum_bounds(s.drop_last(), j, j);
    }
}

/// A token's state.
pub struct Erc20 {
    decimals: u8,
    symbol: String,
    name: String,
    total_supply: U256,
    balances: Mapping<Address, U256>,
    allowances: Mapping<AllowanceKey, U256>,
}

/// What a map of amounts holds at `key`: the amount there, or zero.
pub open spec fn amount_at<K>(m: Map<K, U256>, key: K) -> nat {
    if m.dom().contains(key) { m[key].value() } else { 0 }
}

impl Erc20 {
    /// The balance of every address (zero where none was ever set).
    pub closed spec fn balances(&self) -> Map<Address, nat> {
        Map::new(|a: Address| true, |a: Address| amount_at(self.balances@, a))
    }

    /// The allowance of every owner and spender (zero where none was set).
    pub closed spec fn allowances(&self) -> Map<(Address, Address), nat> {
        Map::new(|k: (Address, Address)| true,
            |k: (Address, Address)| amount_at(self.allowances@, AllowanceKey { owner: k.0, spender: k.1 }))
    }

    pub closed spec fn supply(&self) -> nat {
        self.total_supply.value()
    }

    /// The sum of all balances.
    pub closed spec fn balances_sum(&self) -> nat {
        sum_values(self.balances.entries@)
    }

    pub closed spec fn name_spec(&self) -> String {
        self.name
    }

    pub closed spec fn symbol_spec(&self) -> String {
        self.symbol
    }

    pub closed spec fn decimals_spec(&self) -> u8 {
        self.decimals
    }

    /// The balances and allowances are well-formed stores.
    pub closed spec fn stores_wf(&self) -> bool {
        self.balances.wf() && self.allowances.wf()
    }

    /// The balances add up to the total supply.
    pub open spec fn wf(&self) -> bool {
        self.stores_wf() && self.balances_sum() == self.supply()
    }

    /// Everything but the balances and the supply is as in `other`.
    pub open spec fn same_metadata(&self, other: &Erc20) -> bool {
        &&& self.name_spec() == other.name_spec()
        &&& self.symbol_spec() == other.symbol_spec()
        &&& self.decimals_spec() == other.decimals_spec()
    }

    proof fn lemma_balance_bounds(&self, a: Address, b: Address)
        requires
            self.wf(),
        ensures
            self.balances()[a] <= self.supply(),
            a != b ==> self.balances()[a] + self.balances()[b] <= self.supply(),
    {
        let s = self.balances.entries@;
        lemma_entries_dom(s, a);
        lemma_entries_dom(s, b);
        if self.balances@.dom().contains(a) {
            let i = choose|i: int| 0 <= i < s.len() && s[i].0 == a;
            lemma_entries_value(s, i);
            if self.balances@.dom().contains(b) {
                let j = choose|j: int| 0 <= j < s.len() && s[j].0 == b;
                lemma_entries_value(s, j);
                lemma_sum_bounds(s, i, j);
            } else {
                lemma_sum_bounds(s, i, i);
            }
        } else if self.balances@.dom().contains(b) {
            let j = choose|j: int| 0 <= j < s.len() && s[j].0 == b;
            lemma_entries_value(s, j);
            lemma_sum_bounds(s, j, j);
        }
    }

    /// Sets the balance of `a` to `v`; the sum moves by the difference.
    fn set_balance(&mut self, a: &Address, v: U256)
        requires
            old(self).stores_wf(),
        ensures
            final(self).stores_wf(),
            final(self).balances() == old(self).balances().insert(*a, v.value()),
            final(self).balances_sum() == old(self).balances_sum() - old(self).balances()[*a] + v.value(),
            final(self).allowances() == old(self).allowances(),
            final(self).supply() == old(self).supply(),
            final(self).same_metadata(old(self)),
    {
        let ghost s = self.balances.entries@;
        proof { lemma_entries_dom(s, *a); }
        self.balances.set(a, v);
        proof {
            if old(self).balances@.dom().contains(*a) {
                let i = choose|i: int| 0 <= i < s.len() && s[i].0 == *a
                    && self.balances.entries@ == s.update(i, (*a, v));
                lemma_entries_value(s, i);
                lemma_sum_update(s, i, v);
            } else {
                lemma_sum_push(s, *a, v);
            }
            assert(self.balances() =~= old(self).balances().insert(*a, v.value()));
            assert(self.allowances() =~= old(self).allowances());
        }
    }

    /// A new token: the caller holds the initial supply, if any; a nonzero
    /// initial supply is announced as a mint to the caller.
    pub fn init(caller: Address, symbol: String, name: String, decimals: u8, initial_supply: Option<U256>)
        -> (r: (Erc20, Option<Transfer>))
        ensures
            r.0.wf(),
            r.0.name_spec() == name,
            r.0.symbol_spec() == symbol,
            r.0.decimals_spec() == decimals,
            r.0.allowances() == Map::new(|k: (Address, Address)| true, |k: (Address, Address)| 0nat),
            match initial_supply {
                Some(s) => {
                    &&& r.0.supply() == s.value()
                    &&& r.0.balances() == Map::new(|a: Address| true, |a: Address| if a == caller { s.value() } else { 0nat })
                    &&& r.1 == (if s.value() == 0 { None } else {
                            Some(Transfer { from: None, to: Some(caller), amount: s }) })
                },
                None => {
                    &&& r.0.supply() == 0
                    &&& r.0.balances() == Map::new(|a: Address| true, |a: Address| 0nat)
                    &&& r.1 == None::<Transfer>
                },
            },
    {
        let mut token = Erc20 {
            decimals,
            symbol,
            name,
            total_supply: U256::zero(),
            balances: Mapping::new(),
            allowances: Mapping::new(),
        };
        assert(token.allowances() =~= Map::new(|k: (Address, Address)| true, |k: (Address, Address)| 0nat));
        assert(token.balances() =~= Map::new(|a: Address| true, |a: Address| 0nat));
        match initial_supply {
            Some(s) => {
                token.total_supply = s;
                token.set_balance(&caller, s);
                assert(token.balances() =~= Map::new(|a: Address| true,
                    |a: Address| if a == caller { s.value() } else { 0nat }));
                if !s.is_zero() {
                    (token, Some(Transfer { from: None, to: Some(caller), amount: s }))
                } else {
                    (token, None)
                }
            }
            None => (token, None),
        }
    }

    /// Moves `amount` from `owner` to `recipient`; an error where the owner
    /// holds less.
    pub fn raw_transfer(&mut self, owner: &Address, recipient: &Address, amount: &U256) -> (r: Result<Transfer, Erc20Error>)
        requires
            old(self).wf(),
        ensures
            final(self).wf(),
            final(self).supply() == old(self).supply(),
            final(self).allowances() == old(self).allowances(),
            final(self).same_metadata(old(self)),
            amount.value() > old(self).balances()[*owner] ==> r == Err::<Transfer, Erc20Error>(Erc20Error::InsufficientBalance)
                && final(self).balances() == old(self).balances(),
            amount.value() <= old(self).balances()[*owner] ==> {
                let b = old(self).balances().insert(*owner, (old(self).balances()[*owner] - amount.value()) as nat);
                &&& r == Ok::<Transfer, Erc20Error>(Transfer { from: Some(*owner), to: Some(*recipient), amount: *amount })
                &&& final(self).balances() == b.insert(*recipient, b[*recipient] + amount.value())
                &&& *owner != *recipient ==> final(self).balances()[*owner] == old(self).balances()[*owner] - amount.value()
                    && final(self).balances()[*recipient] == old(self).balances()[*recipient] + amount.value()
                &&& *owner == *recipient ==> final(self).balances()[*owner] == old(self).balances()[*owner]
                &&& forall|a: Address| a != *owner && a != *recipient
                    ==> #[trigger] final(self).balances()[a] == old(self).balances()[a]
            },
    {
        let owner_balance = self.balance_of(owner);
        if owner_balance.lt(amount) {
            return Err(Erc20Error::InsufficientBalance);
        }
        proof { self.lemma_balance_bounds(*owner, *recipient); }
        self.set_balance(owner, owner_balance.sub(amount));
        let recipient_balance = self.balance_of(recipient);
        self.set_balance(recipient, recipient_balance.add(amount));
        Ok(Transfer { from: Some(*owner), to: Some(*recipient), amount: *amount })
    }

    /// Takes `amount` from what `spender` may move of `owner`'s tokens; an
    /// error where the allowance is smaller.
    fn spend_allowance(&mut self, owner: &Address, spender: &Address, amount: &U256) -> (r: Result<Approval, Erc20Error>)
        requires
            old(self).wf(),
        ensures
            final(self).wf(),
            final(self).supply() == old(self).supply(),
            final(self).balances() == old(self).balances(),
            final(self).same_metadata(old(self)),
            amount.value() > old(self).allowances()[(*owner, *spender)] ==>
                r == Err::<Approval, Erc20Error>(Erc20Error::InsufficientAllowance)
                && final(self).allowances() == old(self).allowances(),
            amount.value() <= old(self).allowances()[(*owner, *spender)] ==> {
                let left = (old(self).allowances()[(*owner, *spender)] - amount.value()) as nat;
                &&& r matches Ok(a) && a.owner == *owner && a.spender == *spender && a.value.value() == left
                &&& final(self).allowances() == old(self).allowances().insert((*owner, *spender), left)
            },
    {
        let allowance = self.allowance(owner, spender);
        if allowance.lt(amount) {
            return Err(Erc20Error::InsufficientAllowance);
        }
        let left = allowance.sub(amount);
        self.set_allowance(owner, spender, left);
        Ok(Approval { owner: *owner, spender: *spender, value: left })
    }

    fn set_allowance(&mut self, owner: &Address, spender: &Address, v: U256)
        requires
            old(self).wf(),
        ensures
            final(self).wf(),
            final(self).allowances() == old(self).allowances().insert((*owner, *spender), v.value()),
            final(self).balances() == old(self).balances(),
            final(self).supply() == old(self).supply(),
            final(self).same_metadata(old(self)),
    {
        self.allowances.set(&AllowanceKey { owner: *owner, spender: *spender }, v);
        proof {
            assert(self.allowances() =~= old(self).allowances().insert((*owner, *spender), v.value()));
            assert(self.balances() =~= old(self).balances());
        }
    }

    /// Moves `amount` from the caller to `recipient`; an error where the
    /// caller holds less.
    pub fn transfer(&mut self, caller: Address, recipient: &Address, amount: &U256) -> (r: Result<Transfer, Erc20Error>)
        requires
            old(self).wf(),
        ensures
            final(self).wf(),
            final(self).supply() == old(self).supply(),
            final(self).allowances() == old(self).allowances(),
            final(self).same_metadata(old(self)),
            amount.value() > old(self).balances()[caller] ==> r == Err::<Transfer, Erc20Error>(Erc20Error::InsufficientBalance)
                && final(self).balances() == old(self).balances(),
            amount.value() <= old(self).balances()[caller] ==> {
                let b = old(self).balances().insert(caller, (old(self).balances()[caller] - amount.value()) as nat);
                &&& r == Ok::<Transfer, Erc20Error>(Transfer { from: Some(caller), to: Some(*recipient), amount: *amount })
                &&& final(self).balances() == b.insert(*recipient, b[*recipient] + amount.value())
                &&& caller != *recipient ==> final(self).balances()[caller] == old(self).balances()[caller] - amount.value()
                    && final(self).balances()[*recipient] == old(self).balances()[*recipient] + amount.value()
                &&& caller == *recipient ==> final(self).balances()[caller] == old(self).balances()[caller]
                &&& forall|a: Address| a != caller && a != *recipient
                    ==> #[trigger] final(self).balances()[a] == old(self).balances()[a]
            },
    {
        self.raw_transfer(&caller, recipient, amount)
    }

    /// The caller moves `amount` of `owner`'s tokens to `recipient`, taking it
    /// from its allowance: an error where the allowance is smaller, else where
    /// the owner holds less. Emits the new allowance, then the transfer.
    pub fn transfer_from(&mut self, caller: Address, owner: &Address, recipient: &Address, amount: &U256)
        -> (r: Result<(Approval, Transfer), Erc20Error>)
        requires
            old(self).wf(),
        ensures
            final(self).wf(),
            final(self).supply() == old(self).supply(),
            final(self).same_metadata(old(self)),
            amount.value() > old(self).allowances()[(*owner, caller)] ==>
                r == Err::<(Approval, Transfer), Erc20Error>(Erc20Error::InsufficientAllowance)
                && final(self).balances() == old(self).balances() && final(self).allowances() == old(self).allowances(),
            amount.value() <= old(self).allowances()[(*owner, caller)] && amount.value() > old(self).balances()[*owner] ==>
                r == Err::<(Approval, Transfer), Erc20Error>(Erc20Error::InsufficientBalance)
                && final(self).balances() == old(self).balances() && final(self).allowances() == old(self).allowances(),
            amount.value() <= old(self).allowances()[(*owner, caller)] && amount.value() <= old(self).balances()[*owner] ==> {
                let left = (old(self).allowances()[(*owner, caller)] - amount.value()) as nat;
                let b = old(self).balances().insert(*owner, (old(self).balances()[*owner] - amount.value()) as nat);
                &&& r matches Ok((a, t)) && a.owner == *owner && a.spender == caller && a.value.value() == left
                    && t == (Transfer { from: Some(*owner), to: Some(*recipient), amount: *amount })
                &&& final(self).allowances() == old(self).allowances().insert((*owner, caller), left)
                &&& final(self).balances() == b.insert(*recipient, b[*recipient] + amount.value())
                &&& *owner != *recipient ==> final(self).balances()[*owner] == old(self).balances()[*owner] - amount.value()
                    && final(self).balances()[*recipient] == old(self).balances()[*recipient] + amount.value()
                &&& *owner == *recipient ==> final(self).balances()[*owner] == old(self).balances()[*owner]
                &&& forall|a: Address| a != *owner && a != *recipient
                    ==> #[trigger] final(self).balances()[a] == old(self).balances()[a]
            },
    {
        let allowance = self.allowance(owner, &caller);
        if allowance.lt(amount) {
            return Err(Erc20Error::InsufficientAllowance);
        }
        let owner_balance = self.balance_of(owner);
        if owner_balance.lt(amount) {
            return Err(Erc20Error::InsufficientBalance);
        }
        let approval = match self.spend_allowance(owner, &caller, amount) {
            Ok(a) => a,
            Err(e) => return Err(e),
        };
        let transfer = match self.raw_transfer(owner, recipient, amount) {
            Ok(t) => t,
            Err(e) => return Err(e),
        };
        Ok((approval, transfer))
    }

    /// Lets `spender` move up to `amount` of the caller's tokens.
    pub fn approve(&mut self, caller: Address, spender: &Address, amount: &U256) -> (r: Approval)
        requires
            old(self).wf(),
        ensures
            final(self).wf(),
            final(self).allowances() == old(self).allowances().insert((caller, *spender), amount.value()),
            final(self).balances() == old(self).balances(),
            final(self).supply() == old(self).supply(),
            final(self).same_metadata(old(self)),
            r == (Approval { owner: caller, spender: *spender, value: *amount }),
    {
        self.set_allowance(&caller, spender, *amount);
        Approval { owner: caller, spender: *spender, value: *amount }
    }

    /// The token's name.
    pub fn name(&self) -> (r: String)
        ensures
            r == self.name_spec(),
    {
        self.name.clone()
    }

    /// The token's symbol.
    pub fn symbol(&self) -> (r: String)
        ensures
            r == self.symbol_spec(),
    {
        self.symbol.clone()
    }

    /// The token's number of decimals.
    pub fn decimals(&self) -> (r: u8)
        ensures
            r == self.decimals_spec(),
    {
        self.decimals
    }

    /// The total supply.
    pub fn total_supply(&self) -> (r: U256)
        ensures
            r.value() == self.supply(),
    {
        self.total_supply
    }

    /// The balance of `address`.
    pub fn balance_of(&self, address: &Address) -> (r: U256)
        requires
            self.stores_wf(),
        ensures
            r.value() == self.balances()[*address],
    {
        match self.balances.get(address) {
            Some(b) => b,
            None => U256::zero(),
        }
    }

    /// What `spender` may move of `owner`'s tokens.
    pub fn allowance(&self, owner: &Address, spender: &Address) -> (r: U256)
        requires
            self.stores_wf(),
        ensures
            r.value() == self.allowances()[(*owner, *spender)],
    {
        match self.allowances.get(&AllowanceKey { owner: *owner, spender: *spender }) {
            Some(a) => a,
            None => U256::zero(),
        }
    }

    /// Creates `amount` new tokens for `address`. The supply must stay in
    /// range.
    pub fn mint(&mut self, address: &Address, amount: &U256) -> (r: Transfer)
        requires
            old(self).wf(),
            old(self).supply() + amount.value() < pow256(),
        ensures
            final(self).wf(),
            final(self).supply() == old(self).supply() + amount.value(),
            final(self).balances() == old(self).balances().insert(*address, old(self).balances()[*address] + amount.value()),
            final(self).allowances() == old(self).allowances(),
            final(self).same_metadata(old(self)),
            r == (Transfer { from: None, to: Some(*address), amount: *amount }),
    {
        proof { self.lemma_balance_bounds(*address, *address); }
        self.total_supply = self.total_supply.add(amount);
        let balance = self.balance_of(address);
        self.set_balance(address, balance.add(amount));
        Transfer { from: None, to: Some(*address), amount: *amount }
    }

    /// Destroys `amount` of the tokens of `address`; an error where it holds
    /// less.
    pub fn burn(&mut self, address: &Address, amount: &U256) -> (r: Result<Transfer, Erc20Error>)
        requires
            old(self).wf(),
        ensures
            final(self).wf(),
            final(self).allowances() == old(self).allowances(),
            final(self).same_metadata(old(self)),
            amount.value() > old(self).balances()[*address] ==> r == Err::<Transfer, Erc20Error>(Erc20Error::InsufficientBalance)
                && final(self).balances() == old(self).balances() && final(self).supply() == old(self).supply(),
            amount.value() <= old(self).balances()[*address] ==> {
                &&& r == Ok::<Transfer, Erc20Error>(Transfer { from: Some(*address), to: None, amount: *amount })
                &&& final(self).supply() == old(self).supply() - amount.value()
                &&& final(self).balances() == old(self).balances().insert(*address,
                        (old(self).balances()[*address] - amount.value()) as nat)
            },
    {
        let balance = self.balance_of(address);
        if balance.lt(amount) {
            return Err(Erc20Error::InsufficientBalance);
        }
        proof { self.lemma_balance_bounds(*address, *address); }
        self.total_supply = self.total_supply.sub(amount);
        self.set_balance(address, balance.sub(amount));
        Ok(Transfer { from: Some(*address), to: None, amount: *amount })
    }
}

/// A transfer creates and destroys no tokens: of the two balances it
/// touches, one loses what the other gains, and every other balance stays.
pub proof fn law_transfer_conserves_tokens(balances: Map<Address, nat>, owner: Address, recipient: Address, amount: nat)
    requires
        amount <= balances[owner],
    ensures
        ({
            let b = balances.insert(owner, (balances[owner] - amount) as nat);
            let after = b.insert(recipient, b[recipient] + amount);
            &&& owner != recipient ==> after[owner] + after[recipient] == balances[owner] + balances[recipient]
            &&& owner == recipient ==> after[owner] == balances[owner]
            &&& forall|a: Address| a != owner && a != recipient ==> #[trigger] after[a] == balances[a]
        }),
{
}

/// Burning what was minted undoes the mint: balances and supply are as before.
pub proof fn law_burn_undoes_mint(balances: Map<Address, nat>, supply: nat, address: Address, amount: nat)
    requires
        balances.dom().contains(address),
    ensures
        ({
            let minted = balances.insert(address, balances[address] + amount);
            &&& minted.insert(address, (minted[address] - amount) as nat) == balances
            &&& (supply + amount) - amount == supply
        }),
{
    let minted = balances.insert(address, balances[address] + amount);
    assert(minted.insert(address, (minted[address] - amount) as nat) =~= balances);
}

} // verus!
