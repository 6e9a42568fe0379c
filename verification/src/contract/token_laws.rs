//! What holds of the token over several calls.

use vstd::prelude::*;

use super::erc20::{zero_address, TokenState, ERC20};
use crate::uint256::{max_value, modulus, U256};

verus! {

/// The sum of the numbers in a table.
pub open spec fn sum(table: Map<Seq<u8>, nat>) -> nat
    decreases table.dom().len(),
    when table.dom().finite()
{
    if table.dom().len() == 0 {
        0
    } else {
        let key = table.dom().choose();
        table[key] + sum(table.remove(key))
    }
}

/// The sum can be taken starting with any key.
proof fn lemma_sum_remove(table: Map<Seq<u8>, nat>, key: Seq<u8>)
    requires
        table.dom().finite(),
        table.contains_key(key),
    ensures
        sum(table) == table[key] + sum(table.remove(key)),
    decreases table.dom().len(),
{
    let first = table.dom().choose();
    assert(table.dom().contains(key));
    assert(table.dom().len() > 0);
    assert(table.dom().contains(first));
    if first != key {
        lemma_sum_remove(table.remove(first), key);
        lemma_sum_remove(table.remove(key), first);
        assert(table.remove(first).remove(key) =~= table.remove(key).remove(first));
    }
}

/// Storing a number changes the sum by what it differs from the number stored before.
proof fn lemma_sum_insert(table: Map<Seq<u8>, nat>, key: Seq<u8>, n: nat)
    requires
        table.dom().finite(),
    ensures
        table.insert(key, n).dom().finite(),
        table.contains_key(key) ==> table[key] <= sum(table),
        sum(table.insert(key, n)) == sum(table) + n - (if table.contains_key(key) {
            table[key]
        } else {
            0
        }),
{
    let changed = table.insert(key, n);
    lemma_sum_remove(changed, key);
    if table.contains_key(key) {
        lemma_sum_remove(table, key);
        assert(changed.remove(key) =~= table.remove(key));
    } else {
        assert(changed.remove(key) =~= table);
    }
}

impl TokenState {
    /// Finitely many accounts, and every number below 2^256.
    pub open spec fn valid(self) -> bool {
        &&& self.balances.dom().finite()
        &&& forall|a: Seq<u8>| #[trigger]
            self.balances.contains_key(a) ==> self.balances[a] <= max_value()
        &&& self.total_supply <= max_value()
    }

    /// The balances add up to the total supply, modulo 2^256.
    pub open spec fn backed(self) -> bool {
        sum(self.balances) % modulus() == self.total_supply
    }

    /// The balances add up to the total supply, which is all that was minted, and the zero
    /// address holds nothing.
    pub open spec fn backed_by(self, minted: nat) -> bool {
        &&& sum(self.balances) == minted
        &&& self.total_supply == minted
        &&& self.balance(zero_address()) == 0
    }
}

impl ERC20 {
    /// The state of a token contract is always valid.
    pub proof fn law_state_is_valid(&self)
        ensures
            self@.valid(),
    {
        self.balances.lemma_finite();
        assert forall|a: Seq<u8>| #[trigger] self@.balances.contains_key(a) implies self@.balances[a]
            <= max_value() by {
            self.balances.lemma_value(a);
            let n = choose|n: U256| #[trigger] n@ == self@.balances[a];
            n.lemma_bound();
        }
        self.total_supply.lemma_bound();
    }
}

/// A token that nobody holds is backed.
pub proof fn law_empty_token_is_backed(s: TokenState)
    requires
        s.balances == Map::<Seq<u8>, nat>::empty(),
        s.total_supply == 0,
    ensures
        s.backed(),
{
    assert(s.balances.dom() =~= Set::<Seq<u8>>::empty());
}

/// A transfer leaves the supply alone and keeps the balances adding up to it.
pub proof fn law_transfer_keeps_backing(s: TokenState, from: Seq<u8>, to: Seq<u8>, value: nat)
    requires
        s.valid(),
        s.transfer_refusal(from, to, value) is None,
    ensures
        s.after_transfer(from, to, value).total_supply == s.total_supply,
        s.backed() ==> s.after_transfer(from, to, value).backed(),
        sum(s.after_transfer(from, to, value).balances) % modulus() == sum(s.balances) % modulus(),
{
    let left = (s.balance(from) - value) as nat;
    let debited = TokenState { balances: s.balances.insert(from, left), ..s };
    lemma_sum_insert(s.balances, from, left);
    let got = (debited.balance(to) + value) % modulus();
    lemma_sum_insert(debited.balances, to, got);
}

/// A mint raises the supply and the balances by one amount, modulo 2^256.
pub proof fn law_mint_keeps_backing(s: TokenState, to: Seq<u8>, amount: nat)
    requires
        s.valid(),
        amount <= max_value(),
    ensures
        s.after_mint(to, amount).total_supply == (s.total_supply + amount) % modulus(),
        s.backed() ==> s.after_mint(to, amount).backed(),
{
    lemma_sum_insert(s.balances, to, (s.balance(to) + amount) % modulus());
}

/// A token that nobody holds is backed by what was minted, which is nothing.
pub proof fn law_empty_token_is_backed_exactly(s: TokenState)
    requires
        s.balances == Map::<Seq<u8>, nat>::empty(),
        s.total_supply == 0,
    ensures
        s.backed_by(0),
{
    assert(s.balances.dom() =~= Set::<Seq<u8>>::empty());
}

/// A mint adds to what was minted, as long as that fits in 256 bits.
pub proof fn law_mint_keeps_exact_backing(s: TokenState, minted: nat, to: Seq<u8>, amount: nat)
    requires
        s.valid(),
        s.backed_by(minted),
        to != zero_address(),
        minted + amount <= max_value(),
    ensures
        s.after_mint(to, amount).backed_by(minted + amount),
        s.after_mint(to, amount).balance(to) == s.balance(to) + amount,
{
    lemma_sum_insert(s.balances, to, (s.balance(to) + amount) % modulus());
}

/// Transfers and allowances leave what was minted, and what backs it, alone.
pub proof fn law_transfer_keeps_exact_backing(
    s: TokenState,
    minted: nat,
    from: Seq<u8>,
    to: Seq<u8>,
    value: nat,
)
    requires
        s.valid(),
        s.backed_by(minted),
    ensures
        s.transfer_refusal(from, to, value) is None ==> s.after_transfer(from, to, value).backed_by(
            minted,
        ),
        s.after_approve(from, to, value).backed_by(minted),
        s.after_spend(from, to, value).backed_by(minted),
{
    if s.transfer_refusal(from, to, value) is None {
        let left = (s.balance(from) - value) as nat;
        let debited = TokenState { balances: s.balances.insert(from, left), ..s };
        lemma_sum_insert(s.balances, from, left);
        let got = (debited.balance(to) + value) % modulus();
        lemma_sum_insert(debited.balances, to, got);
    }
}

/// Approving and using an allowance move no tokens.
pub proof fn law_allowances_move_no_tokens(
    s: TokenState,
    owner: Seq<u8>,
    spender: Seq<u8>,
    value: nat,
)
    ensures
        s.after_approve(owner, spender, value).balances == s.balances,
        s.after_approve(owner, spender, value).total_supply == s.total_supply,
        s.after_spend(owner, spender, value).balances == s.balances,
        s.after_spend(owner, spender, value).total_supply == s.total_supply,
{
}

/// Between two accounts a transfer takes `value` from one and gives it to the other; while
/// all balances together fit in 256 bits nothing is lost.
pub proof fn law_transfer_moves_value(s: TokenState, from: Seq<u8>, to: Seq<u8>, value: nat)
    requires
        s.valid(),
        s.transfer_refusal(from, to, value) is None,
        sum(s.balances) <= max_value(),
        from != to,
    ensures
        s.after_transfer(from, to, value).balance(from) == s.balance(from) - value,
        s.after_transfer(from, to, value).balance(to) == s.balance(to) + value,
        sum(s.after_transfer(from, to, value).balances) == sum(s.balances),
{
    let left = (s.balance(from) - value) as nat;
    let debited = TokenState { balances: s.balances.insert(from, left), ..s };
    lemma_sum_insert(s.balances, from, left);
    let got = (debited.balance(to) + value) % modulus();
    lemma_sum_insert(debited.balances, to, got);
}

/// A transfer to oneself changes no balance.
pub proof fn law_self_transfer_changes_nothing(
    s: TokenState,
    account: Seq<u8>,
    value: nat,
    other: Seq<u8>,
)
    requires
        s.valid(),
        s.transfer_refusal(account, account, value) is None,
    ensures
        s.after_transfer(account, account, value).balance(other) == s.balance(other),
{
    if s.balances.contains_key(account) {
        assert(s.balances[account] <= max_value());
    }
}

/// A transfer changes no balance but those of the two accounts.
pub proof fn law_transfer_leaves_others(
    s: TokenState,
    from: Seq<u8>,
    to: Seq<u8>,
    value: nat,
    other: Seq<u8>,
)
    requires
        other != from,
        other != to,
    ensures
        s.after_transfer(from, to, value).balance(other) == s.balance(other),
{
}

/// Keys of allowances tell their owners and spenders apart.
proof fn lemma_allowance_keys_differ(a: Seq<u8>, b: Seq<u8>, c: Seq<u8>, d: Seq<u8>)
    requires
        a.len() == 20,
        c.len() == 20,
        a + b == c + d,
    ensures
        a == c,
        b == d,
{
    assert((a + b).subrange(0, 20) =~= a);
    assert((c + d).subrange(0, 20) =~= c);
    assert((a + b).subrange(20, (a + b).len() as int) =~= b);
    assert((c + d).subrange(20, (c + d).len() as int) =~= d);
}

/// After an approval the spender has that allowance, and no other allowance has changed.
pub proof fn law_approve_sets_one_allowance(
    s: TokenState,
    owner: Seq<u8>,
    spender: Seq<u8>,
    value: nat,
    other_owner: Seq<u8>,
    other_spender: Seq<u8>,
)
    requires
        owner.len() == 20,
        other_owner.len() == 20,
    ensures
        s.after_approve(owner, spender, value).allowance(owner, spender) == value,
        (other_owner != owner || other_spender != spender) ==> s.after_approve(
            owner,
            spender,
            value,
        ).allowance(other_owner, other_spender) == s.allowance(other_owner, other_spender),
{
    if other_owner + other_spender == owner + spender {
        lemma_allowance_keys_differ(other_owner, other_spender, owner, spender);
    }
}

/// Spending lowers a limited allowance by what was spent, leaves an unlimited one alone, and
/// changes no other allowance.
pub proof fn law_spend_lowers_one_allowance(
    s: TokenState,
    owner: Seq<u8>,
    spender: Seq<u8>,
    value: nat,
    other_owner: Seq<u8>,
    other_spender: Seq<u8>,
)
    requires
        owner.len() == 20,
        other_owner.len() == 20,
        s.may_spend(owner, spender, value),
    ensures
        s.allowance(owner, spender) == max_value() ==> s.after_spend(owner, spender, value) == s,
        s.allowance(owner, spender) != max_value() ==> s.after_spend(
            owner,
            spender,
            value,
        ).allowance(owner, spender) == s.allowance(owner, spender) - value,
        (other_owner != owner || other_spender != spender) ==> s.after_spend(
            owner,
            spender,
            value,
        ).allowance(other_owner, other_spender) == s.allowance(other_owner, other_spender),
{
    if other_owner + other_spender == owner + spender {
        lemma_allowance_keys_differ(other_owner, other_spender, owner, spender);
    }
}

/// A limited allowance is a budget: after `first` was spent, `second` can be spent exactly if
/// both together were within it.
pub proof fn law_allowance_is_a_budget(
    s: TokenState,
    owner: Seq<u8>,
    spender: Seq<u8>,
    first: nat,
    second: nat,
)
    requires
        s.allowance(owner, spender) < max_value(),
        s.may_spend(owner, spender, first),
    ensures
        s.after_spend(owner, spender, first).may_spend(owner, spender, second) <==> first + second
            <= s.allowance(owner, spender),
{
}

} // verus!
