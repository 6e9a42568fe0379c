//! What each call of the token does, and what it leaves alone.

use vstd::prelude::*;
use vstd::utf8::encode_utf8;

use super::erc20::{zero_address, Address, TokenEvent, TokenEventView, TokenState, ERC20};
use super::token_laws::{law_approve_sets_one_allowance, law_spend_lowers_one_allowance};
use crate::uint256::{max_value, modulus, U256};

verus! {

/// A transfer of any value within the balance is accepted, to whoever has an address. One to
/// nobody is refused before one that is not covered.
pub proof fn law_which_transfers_are_refused(s: TokenState, from: Seq<u8>, to: Seq<u8>, value: nat)
    ensures
        s.transfer_refusal(from, to, value) is None <==> to != zero_address() && value <= s.balance(
            from,
        ),
        to == zero_address() ==> s.transfer_refusal(from, to, value) == Some("ZeroAddress"@),
        to != zero_address() && value > s.balance(from) ==> s.transfer_refusal(from, to, value)
            == Some("InsufficientBalance"@),
{
}

/// Whoever may transfer a value may transfer a smaller one, and may still transfer it when the
/// balance has grown; what others hold, and how much there is of the token, does not matter.
pub proof fn law_smaller_transfers_are_accepted(
    s: TokenState,
    other: TokenState,
    from: Seq<u8>,
    to: Seq<u8>,
    value: nat,
    smaller: nat,
)
    requires
        s.transfer_refusal(from, to, value) is None,
        smaller <= value,
        other.balance(from) >= s.balance(from),
    ensures
        other.transfer_refusal(from, to, smaller) is None,
{
}

/// The address that nobody has is twenty zero bytes.
pub proof fn law_the_zero_address(a: [u8; 20])
    ensures
        a@ == zero_address() <==> forall|i: int| 0 <= i < 20 ==> #[trigger] a@[i] == 0,
{
    if forall|i: int| 0 <= i < 20 ==> #[trigger] a@[i] == 0 {
        assert(a@ =~= zero_address());
    }
}

/// What an account holds, and what a spender may spend, is what is kept for them; where nothing
/// is kept, that is nothing.
pub proof fn law_what_is_held(s: TokenState, account: Seq<u8>, spender: Seq<u8>)
    ensures
        s.balances.contains_key(account) ==> s.balance(account) == s.balances[account],
        !s.balances.contains_key(account) ==> s.balance(account) == 0,
        s.allowances.contains_key(account + spender) ==> s.allowance(account, spender)
            == s.allowances[account + spender],
        !s.allowances.contains_key(account + spender) ==> s.allowance(account, spender) == 0,
{
}

/// An allowance covers every value up to itself, and the largest covers everything.
pub proof fn law_what_an_allowance_covers(
    s: TokenState,
    owner: Seq<u8>,
    spender: Seq<u8>,
    value: nat,
)
    ensures
        value <= s.allowance(owner, spender) ==> s.may_spend(owner, spender, value),
        s.allowance(owner, spender) == max_value() ==> s.may_spend(owner, spender, value),
        value > s.allowance(owner, spender) && s.allowance(owner, spender) < max_value()
            ==> !s.may_spend(owner, spender, value),
{
}

/// A transfer takes its value from one account and gives it to the other, modulo 2^256, and
/// emits it. Neither the supply nor an allowance changes.
pub proof fn law_what_a_transfer_does(s: TokenState, from: Seq<u8>, to: Seq<u8>, value: nat)
    requires
        s.transfer_refusal(from, to, value) is None,
        from != to,
    ensures
        ({
            let after = s.after_transfer(from, to, value);
            &&& after.balance(from) == s.balance(from) - value
            &&& after.balance(to) == (s.balance(to) + value) % modulus()
            &&& s.balance(to) + value <= max_value() ==> after.balance(to) == s.balance(to) + value
            &&& after.total_supply == s.total_supply
            &&& after.allowances == s.allowances
            &&& after.log.len() == s.log.len() + 1
            &&& after.log.drop_last() == s.log
            &&& after.log.last() == (TokenEventView::Transfer { from, to, value })
        }),
{
    assert(s.after_transfer(from, to, value).log.drop_last() =~= s.log);
}

/// A transfer to oneself is emitted too, and nothing else changes.
pub proof fn law_what_a_self_transfer_does(s: TokenState, account: Seq<u8>, value: nat)
    ensures
        ({
            let after = s.after_transfer(account, account, value);
            &&& after.total_supply == s.total_supply
            &&& after.allowances == s.allowances
            &&& after.log == s.log.push(
                TokenEventView::Transfer { from: account, to: account, value },
            )
        }),
{
}

/// A mint gives its amount to one account and adds it to the supply, both modulo 2^256, and emits
/// a transfer from nobody. No other balance and no allowance changes.
pub proof fn law_what_a_mint_does(s: TokenState, to: Seq<u8>, amount: nat, other: Seq<u8>)
    requires
        other != to,
    ensures
        ({
            let after = s.after_mint(to, amount);
            &&& after.balance(to) == (s.balance(to) + amount) % modulus()
            &&& s.balance(to) + amount <= max_value() ==> after.balance(to) == s.balance(to)
                + amount
            &&& s.total_supply + amount <= max_value() ==> after.total_supply == s.total_supply
                + amount
            &&& after.total_supply == (s.total_supply + amount) % modulus()
            &&& after.balance(other) == s.balance(other)
            &&& after.allowances == s.allowances
            &&& after.log.len() == s.log.len() + 1
            &&& after.log.drop_last() == s.log
            &&& after.log.last() == (TokenEventView::Transfer {
                from: Seq::new(20, |i: int| 0u8),
                to,
                value: amount,
            })
        }),
{
    assert(s.after_mint(to, amount).log.drop_last() =~= s.log);
    assert(zero_address() =~= Seq::new(20, |i: int| 0u8));
}

/// An approval is emitted; using an allowance is not.
pub proof fn law_what_approvals_emit(s: TokenState, owner: Seq<u8>, spender: Seq<u8>, value: nat)
    ensures
        s.after_approve(owner, spender, value).log.len() == s.log.len() + 1,
        s.after_approve(owner, spender, value).log.drop_last() == s.log,
        s.after_approve(owner, spender, value).log.last() == (TokenEventView::Approval {
            owner,
            spender,
            value,
        }),
        s.after_spend(owner, spender, value).log == s.log,
{
    assert(s.after_approve(owner, spender, value).log.drop_last() =~= s.log);
}

/// What is read of a state is what the contract holds: all its fields, in order and whole.
pub proof fn law_the_state_is_what_is_held(token: ERC20, i: int)
    ensures
        token@.balances == token.balances@,
        token@.allowances == token.allowances@,
        token@.total_supply == token.total_supply@,
        token@.log.len() == token.log@.len(),
        0 <= i < token.log@.len() ==> token@.log[i] == match token.log@[i] {
            TokenEvent::Transfer { from, to, value } => TokenEventView::Transfer {
                from: from@,
                to: to@,
                value: value@,
            },
            TokenEvent::Approval { owner, spender, value } => TokenEventView::Approval {
                owner: owner@,
                spender: spender@,
                value: value@,
            },
        },
{
}

/// A transfer is accepted exactly if it goes to an address and is covered by the caller's balance.
/// It moves its value, and what others hold, the allowances and the supply stay. One that is
/// refused changes nothing, and an address of zeros is told first.
#[verifier::rlimit(40)]
pub proof fn law_tokens_are_transferred(
    token: &mut ERC20,
    caller: Address,
    to: Address,
    value: U256,
    r: Result<bool, Vec<u8>>,
    before: &ERC20,
    caller_before: U256,
    to_before: U256,
    after: &ERC20,
    caller_after: U256,
    to_after: U256,
    other: Address,
    other_before: U256,
    other_after: U256,
)
    requires
        *before == *old(token),
        call_ensures(ERC20::transfer, (token, caller, to, value), r),
        *after == *final(token),
        call_ensures(ERC20::balance_of, (before, caller), caller_before),
        call_ensures(ERC20::balance_of, (before, to), to_before),
        call_ensures(ERC20::balance_of, (after, caller), caller_after),
        call_ensures(ERC20::balance_of, (after, to), to_after),
        other@ != caller@,
        other@ != to@,
        call_ensures(ERC20::balance_of, (before, other), other_before),
        call_ensures(ERC20::balance_of, (after, other), other_after),
    ensures
        call_requires(ERC20::transfer, (token, caller, to, value)),
        ({
            let nobody = forall|i: int| 0 <= i < 20 ==> #[trigger] to@[i] == 0;
            &&& r is Ok <==> !nobody && value@ <= caller_before@
            &&& r is Ok ==> r->Ok_0
            &&& r is Err ==> *after == *before && r->Err_0@ == encode_utf8(
                if nobody {
                    "ZeroAddress"@
                } else {
                    "InsufficientBalance"@
                },
            )
        }),
        r is Ok ==> {
            &&& caller@ != to@ ==> caller_after@ == caller_before@ - value@
            &&& caller@ != to@ && to_before@ + value@ <= max_value() ==> to_after@ == to_before@
                + value@
            &&& caller@ == to@ ==> caller_after@ == caller_before@
            &&& other_after@ == other_before@
            &&& after.total_supply@ == before.total_supply@
            &&& after.allowances@ == before.allowances@
            &&& after.log@.len() == before.log@.len() + 1
            &&& after.log@.last() matches TokenEvent::Transfer { from, to: receiver, value: moved }
                && from@ == caller@ && receiver@ == to@ && moved@ == value@
        },
{
    law_the_zero_address(to);
    if r is Ok {
        let n = before.log@.len() as int;
        assert(before@.log.len() == n && after@.log.len() == after.log@.len());
        assert(after@.log[n] == after.log@[n]@);
        caller_before.lemma_bound();
    }
}

/// An approval is accepted exactly if it goes to an address, and sets that one allowance.
#[verifier::rlimit(40)]
pub proof fn law_allowances_are_set(
    token: &mut ERC20,
    caller: Address,
    spender: Address,
    value: U256,
    r: Result<bool, Vec<u8>>,
    before: &ERC20,
    after: &ERC20,
    allowed: U256,
    other_owner: Address,
    other_spender: Address,
    other_before: U256,
    other_after: U256,
)
    requires
        *before == *old(token),
        call_ensures(ERC20::approve, (token, caller, spender, value), r),
        *after == *final(token),
        call_ensures(ERC20::allowance, (after, caller, spender), allowed),
        other_owner@ != caller@ || other_spender@ != spender@,
        call_ensures(ERC20::allowance, (before, other_owner, other_spender), other_before),
        call_ensures(ERC20::allowance, (after, other_owner, other_spender), other_after),
    ensures
        call_requires(ERC20::approve, (token, caller, spender, value)),
        ({
            let nobody = forall|i: int| 0 <= i < 20 ==> #[trigger] spender@[i] == 0;
            &&& r is Ok <==> !nobody
            &&& r is Ok ==> r->Ok_0
            &&& r is Err ==> *after == *before && r->Err_0@ == encode_utf8("ZeroAddress"@)
        }),
        r is Ok ==> {
            &&& allowed@ == value@
            &&& other_after@ == other_before@
            &&& after.balances@ == before.balances@
            &&& after.total_supply@ == before.total_supply@
            &&& after.log@.len() == before.log@.len() + 1
            &&& after.log@.last() matches TokenEvent::Approval { owner, spender: who, value: n }
                && owner@ == caller@ && who@ == spender@ && n@ == value@
        },
{
    law_the_zero_address(spender);
    law_approve_sets_one_allowance(
        before@,
        caller@,
        spender@,
        value@,
        other_owner@,
        other_spender@,
    );
    if r is Ok {
        let n = before.log@.len() as int;
        assert(before@.log.len() == n && after@.log.len() == after.log@.len());
        assert(after@.log[n] == after.log@[n]@);
    }
}

/// A spender moves tokens of an owner exactly if the allowance covers them and the owner might
/// have transferred them. An allowance that covers the value is lowered by it, unless it is the
/// largest number, which is without limit. No other allowance and no third balance changes.
#[verifier::rlimit(40)]
pub proof fn law_allowances_are_spent(
    token: &mut ERC20,
    caller: Address,
    from: Address,
    to: Address,
    value: U256,
    r: Result<bool, Vec<u8>>,
    before: &ERC20,
    allowed: U256,
    held: U256,
    to_before: U256,
    after: &ERC20,
    left: U256,
    from_after: U256,
    to_after: U256,
    other: Address,
    other_before: U256,
    other_after: U256,
    other_spender: Address,
    other_allowed: U256,
    other_left: U256,
)
    requires
        *before == *old(token),
        call_ensures(ERC20::transfer_from, (token, caller, from, to, value), r),
        *after == *final(token),
        call_ensures(ERC20::allowance, (before, from, caller), allowed),
        call_ensures(ERC20::balance_of, (before, from), held),
        call_ensures(ERC20::balance_of, (before, to), to_before),
        call_ensures(ERC20::allowance, (after, from, caller), left),
        call_ensures(ERC20::balance_of, (after, from), from_after),
        call_ensures(ERC20::balance_of, (after, to), to_after),
        other@ != from@,
        call_ensures(ERC20::balance_of, (before, other), other_before),
        call_ensures(ERC20::balance_of, (after, other), other_after),
        call_ensures(ERC20::allowance, (before, other, other_spender), other_allowed),
        call_ensures(ERC20::allowance, (after, other, other_spender), other_left),
    ensures
        call_requires(ERC20::transfer_from, (token, caller, from, to, value)),
        other@ != to@ ==> other_after@ == other_before@,
        other_left@ == other_allowed@,
        ({
            let nobody = forall|i: int| 0 <= i < 20 ==> #[trigger] to@[i] == 0;
            let covered = value@ <= allowed@ || allowed@ == max_value();
            &&& r is Ok <==> covered && !nobody && value@ <= held@
            &&& r is Ok ==> r->Ok_0
            &&& r is Err ==> r->Err_0@ == encode_utf8(
                if !covered {
                    "InsufficientAllowance"@
                } else if nobody {
                    "ZeroAddress"@
                } else {
                    "InsufficientBalance"@
                },
            )
            &&& !covered ==> *after == *before
            &&& covered && allowed@ == max_value() ==> left@ == allowed@
            &&& covered && allowed@ < max_value() ==> left@ == allowed@ - value@
        }),
        r is Err ==> after.balances@ == before.balances@ && after@.log == before@.log,
        r is Ok ==> {
            &&& from@ != to@ ==> from_after@ == held@ - value@
            &&& from@ != to@ && to_before@ + value@ <= max_value() ==> to_after@ == to_before@
                + value@
            &&& from@ == to@ ==> from_after@ == held@
            &&& after.total_supply@ == before.total_supply@
            &&& after.log@.len() == before.log@.len() + 1
            &&& after.log@.last() matches TokenEvent::Transfer {
                from: giver,
                to: receiver,
                value: moved,
            } && giver@ == from@ && receiver@ == to@ && moved@ == value@
        },
{
    law_the_zero_address(to);
    allowed.lemma_bound();
    held.lemma_bound();
    if before@.may_spend(from@, caller@, value@) {
        law_spend_lowers_one_allowance(
            before@,
            from@,
            caller@,
            value@,
            other@,
            other_spender@,
        );
    }
    if r is Ok {
        let n = before.log@.len() as int;
        assert(before@.log.len() == n && after@.log.len() == after.log@.len());
        assert(after@.log[n] == after.log@[n]@);
    }
}

/// Tokens are made exactly for an address: its balance and the supply grow by the amount, and
/// nothing else changes.
#[verifier::rlimit(40)]
pub proof fn law_tokens_are_made(
    token: &mut ERC20,
    to: Address,
    amount: U256,
    r: Result<(), Vec<u8>>,
    before: &ERC20,
    held: U256,
    supply: U256,
    after: &ERC20,
    held_after: U256,
    supply_after: U256,
    other: Address,
    other_before: U256,
    other_after: U256,
)
    requires
        *before == *old(token),
        call_ensures(ERC20::mint, (token, to, amount), r),
        *after == *final(token),
        call_ensures(ERC20::balance_of, (before, to), held),
        call_ensures(ERC20::total_supply, (before,), supply),
        call_ensures(ERC20::balance_of, (after, to), held_after),
        call_ensures(ERC20::total_supply, (after,), supply_after),
        other@ != to@,
        call_ensures(ERC20::balance_of, (before, other), other_before),
        call_ensures(ERC20::balance_of, (after, other), other_after),
    ensures
        call_requires(ERC20::mint, (token, to, amount)),
        ({
            let nobody = forall|i: int| 0 <= i < 20 ==> #[trigger] to@[i] == 0;
            &&& r is Ok <==> !nobody
            &&& r is Err ==> *after == *before && r->Err_0@ == encode_utf8("ZeroAddress"@)
        }),
        r is Ok ==> {
            &&& held@ + amount@ <= max_value() ==> held_after@ == held@ + amount@
            &&& held@ + amount@ > max_value() ==> held_after@ == held@ + amount@ - modulus()
            &&& supply@ + amount@ <= max_value() ==> supply_after@ == supply@ + amount@
            &&& supply@ + amount@ > max_value() ==> supply_after@ == supply@ + amount@ - modulus()
            &&& other_after@ == other_before@
            &&& after.allowances@ == before.allowances@
            &&& after.log@.len() == before.log@.len() + 1
            &&& after.log@.last() matches TokenEvent::Transfer { from, to: receiver, value: made }
                && (forall|i: int| 0 <= i < 20 ==> #[trigger] from@[i] == 0) && receiver@ == to@
                && made@ == amount@
        },
{
    law_the_zero_address(to);
    held.lemma_bound();
    supply.lemma_bound();
    amount.lemma_bound();
    if r is Ok {
        let n = before.log@.len() as int;
        assert(before@.log.len() == n && after@.log.len() == after.log@.len());
        assert(after@.log[n] == after.log@[n]@);
        if let TokenEvent::Transfer { from, to: _, value: _ } = after.log@[n] {
            law_the_zero_address(from);
        }
    }
}

/// Of a new token there is nothing, nobody holds or may spend any, and nothing was emitted.
pub proof fn law_a_new_token(
    token: ERC20,
    supply: U256,
    account: Address,
    balance: U256,
    spender: Address,
    allowance: U256,
)
    requires
        call_ensures(ERC20::new, (), token),
        call_ensures(ERC20::total_supply, (&token,), supply),
        call_ensures(ERC20::balance_of, (&token, account), balance),
        call_ensures(ERC20::allowance, (&token, account, spender), allowance),
    ensures
        supply@ == 0,
        balance@ == 0,
        allowance@ == 0,
        token.log@.len() == 0,
{
    assert(token@.log.len() == token.log@.len());
}

} // verus!
