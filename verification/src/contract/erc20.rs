//! A fungible token with balances, allowances and an open mint.

use vstd::prelude::*;

use crate::bytes::{append, bytes_equal, text_bytes};
use crate::table::ByteMap;
use crate::uint256::{max_value, modulus, U256};

verus! {

/// The address of an account.
pub type Address = [u8; 20];

/// What the token emits.
#[derive(Clone, Copy, Debug)]
pub enum TokenEvent {
    /// `value` tokens went from one account to another; a mint comes from the zero address.
    Transfer { from: Address, to: Address, value: U256 },
    /// `owner` lets `spender` spend `value` tokens.
    Approval { owner: Address, spender: Address, value: U256 },
}

/// What an event says.
pub enum TokenEventView {
    Transfer { from: Seq<u8>, to: Seq<u8>, value: nat },
    Approval { owner: Seq<u8>, spender: Seq<u8>, value: nat },
}

impl View for TokenEvent {
    type V = TokenEventView;

    open spec fn view(&self) -> TokenEventView {
        match self {
            TokenEvent::Transfer { from, to, value } => TokenEventView::Transfer {
                from: from@,
                to: to@,
                value: value@,
            },
            TokenEvent::Approval { owner, spender, value } => TokenEventView::Approval {
                owner: owner@,
                spender: spender@,
                value: value@,
            },
        }
    }
}

/// The address that no account has.
pub open spec fn zero_address() -> Seq<u8> {
    Seq::new(20, |i: int| 0u8)
}

/// The state of the token.
#[verifier::ext_equal]
pub struct TokenState {
    /// What each account holds; an account without an entry holds nothing.
    pub balances: Map<Seq<u8>, nat>,
    /// What a spender may still spend, keyed by the owner's address and then the spender's.
    pub allowances: Map<Seq<u8>, nat>,
    pub total_supply: nat,
    /// What was emitted, oldest first.
    pub log: Seq<TokenEventView>,
}

impl TokenState {
    /// What `account` holds.
    pub open spec fn balance(self, account: Seq<u8>) -> nat {
        if self.balances.contains_key(account) {
            self.balances[account]
        } else {
            0
        }
    }

    /// What `spender` may still spend of what `owner` holds.
    pub open spec fn allowance(self, owner: Seq<u8>, spender: Seq<u8>) -> nat {
        if self.allowances.contains_key(owner + spender) {
            self.allowances[owner + spender]
        } else {
            0
        }
    }

    /// Why a transfer is refused, if it is.
    pub open spec fn transfer_refusal(self, from: Seq<u8>, to: Seq<u8>, value: nat) -> Option<
        Seq<char>,
    > {
        if to == zero_address() {
            Some("ZeroAddress"@)
        } else if self.balance(from) < value {
            Some("InsufficientBalance"@)
        } else {
            None
        }
    }

    /// The state after `value` tokens went from `from` to `to`.
    pub open spec fn after_transfer(self, from: Seq<u8>, to: Seq<u8>, value: nat) -> TokenState {
        let debited = TokenState {
            balances: self.balances.insert(from, (self.balance(from) - value) as nat),
            ..self
        };
        TokenState {
            balances: debited.balances.insert(to, (debited.balance(to) + value) % modulus()),
            log: self.log.push(TokenEventView::Transfer { from, to, value }),
            ..self
        }
    }

    /// The state after `owner` let `spender` spend `value` tokens.
    pub open spec fn after_approve(
        self,
        owner: Seq<u8>,
        spender: Seq<u8>,
        value: nat,
    ) -> TokenState {
        TokenState {
            allowances: self.allowances.insert(owner + spender, value),
            log: self.log.push(TokenEventView::Approval { owner, spender, value }),
            ..self
        }
    }

    /// Whether `spender` may spend `value` tokens of `owner`; the largest allowance is
    /// without limit.
    pub open spec fn may_spend(self, owner: Seq<u8>, spender: Seq<u8>, value: nat) -> bool {
        self.allowance(owner, spender) == max_value() || value <= self.allowance(owner, spender)
    }

    /// The state after `spender` used `value` of its allowance.
    pub open spec fn after_spend(self, owner: Seq<u8>, spender: Seq<u8>, value: nat) -> TokenState {
        if self.allowance(owner, spender) == max_value() {
            self
        } else {
            TokenState {
                allowances: self.allowances.insert(
                    owner + spender,
                    (self.allowance(owner, spender) - value) as nat,
                ),
                ..self
            }
        }
    }

    /// The state after `amount` tokens were made for `to`.
    pub open spec fn after_mint(self, to: Seq<u8>, amount: nat) -> TokenState {
        TokenState {
            total_supply: (self.total_supply + amount) % modulus(),
            balances: self.balances.insert(to, (self.balance(to) + amount) % modulus()),
            log: self.log.push(
                TokenEventView::Transfer { from: zero_address(), to, value: amount },
            ),
            ..self
        }
    }
}

/// The token contract.
pub struct ERC20 {
    pub balances: ByteMap<U256>,
    pub allowances: ByteMap<U256>,
    pub total_supply: U256,
    pub log: Vec<TokenEvent>,
}

impl View for ERC20 {
    type V = TokenState;

    open spec fn view(&self) -> TokenState {
        TokenState {
            balances: self.balances@,
            allowances: self.allowances@,
            total_supply: self.total_supply@,
            log: self.log@.map_values(|e: TokenEvent| e@),
        }
    }
}

fn is_zero_address(a: &Address) -> (zero: bool)
    ensures
        zero == (a@ == zero_address()),
{
    let zeros: Address = [0u8; 20];
    assert(zeros@ =~= zero_address());
    bytes_equal(a.as_slice(), zeros.as_slice())
}

/// The key under which an allowance is stored.
fn allowance_key(owner: &Address, spender: &Address) -> (key: Vec<u8>)
    ensures
        key@ == owner@ + spender@,
{
    let mut key: Vec<u8> = Vec::new();
    append(&mut key, owner.as_slice());
    append(&mut key, spender.as_slice());
    assert(key@ =~= owner@ + spender@);
    key
}

/// The number in a table, 0 where there is none.
fn number_at(table: &ByteMap<U256>, key: &[u8]) -> (n: U256)
    ensures
        n@ == (if table@.contains_key(key@) {
            table@[key@]
        } else {
            0
        }),
{
    match table.get(key) {
        Some(n) => *n,
        None => U256::zero(),
    }
}

impl ERC20 {
    /// A token of which there is nothing yet.
    pub fn new() -> (token: Self)
        ensures
            token@ == (TokenState {
                balances: Map::empty(),
                allowances: Map::empty(),
                total_supply: 0,
                log: Seq::empty(),
            }),
    {
        let token = ERC20 {
            balances: ByteMap::new(),
            allowances: ByteMap::new(),
            total_supply: U256::zero(),
            log: Vec::new(),
        };
        assert(token@.log =~= Seq::empty());
        token
    }

    /// The total token supply.
    pub fn total_supply(&self) -> (n: U256)
        ensures
            n@ == self@.total_supply,
    {
        self.total_supply
    }

    /// The balance of `account`.
    pub fn balance_of(&self, account: Address) -> (n: U256)
        ensures
            n@ == self@.balance(account@),
    {
        number_at(&self.balances, account.as_slice())
    }

    /// The remaining allowance that `spender` can spend on behalf of `owner`.
    pub fn allowance(&self, owner: Address, spender: Address) -> (n: U256)
        ensures
            n@ == self@.allowance(owner@, spender@),
    {
        number_at(&self.allowances, allowance_key(&owner, &spender).as_slice())
    }

    /// Transfers `value` tokens from the caller to `to`.
    pub fn transfer(&mut self, caller: Address, to: Address, value: U256) -> (r: Result<
        bool,
        Vec<u8>,
    >)
        ensures
            match old(self)@.transfer_refusal(caller@, to@, value@) {
                Some(why) => {
                    &&& r matches Err(e) && e@ == vstd::utf8::encode_utf8(why)
                    &&& *final(self) == *old(self)
                },
                None => {
                    &&& r == Ok::<bool, Vec<u8>>(true)
                    &&& final(self)@ == old(self)@.after_transfer(caller@, to@, value@)
                },
            },
    {
        match self._transfer(caller, to, value) {
            Ok(()) => Ok(true),
            Err(e) => Err(e),
        }
    }

    /// Approves `spender` to spend `value` tokens on behalf of the caller.
    pub fn approve(&mut self, caller: Address, spender: Address, value: U256) -> (r: Result<
        bool,
        Vec<u8>,
    >)
        ensures
            if spender@ == zero_address() {
                &&& r matches Err(e) && e@ == vstd::utf8::encode_utf8("ZeroAddress"@)
                &&& *final(self) == *old(self)
            } else {
                &&& r == Ok::<bool, Vec<u8>>(true)
                &&& final(self)@ == old(self)@.after_approve(caller@, spender@, value@)
            },
    {
        match self._approve(caller, spender, value) {
            Ok(()) => Ok(true),
            Err(e) => Err(e),
        }
    }

    /// Transfers `value` tokens from `from` to `to`, deducting from the caller's allowance.
    ///
    /// Where the transfer is refused after the allowance was used, the allowance stays used
    /// in this value; a chain discards the state of a call that fails.
    pub fn transfer_from(&mut self, caller: Address, from: Address, to: Address, value: U256) -> (r:
        Result<bool, Vec<u8>>)
        ensures
            if !old(self)@.may_spend(from@, caller@, value@) {
                &&& r matches Err(e) && e@ == vstd::utf8::encode_utf8("InsufficientAllowance"@)
                &&& *final(self) == *old(self)
            } else {
                let spent = old(self)@.after_spend(from@, caller@, value@);
                match old(self)@.transfer_refusal(from@, to@, value@) {
                    Some(why) => {
                        &&& r matches Err(e) && e@ == vstd::utf8::encode_utf8(why)
                        &&& final(self)@ == spent
                    },
                    None => {
                        &&& r == Ok::<bool, Vec<u8>>(true)
                        &&& final(self)@ == spent.after_transfer(from@, to@, value@)
                    },
                }
            },
    {
        match self._spend_allowance(from, caller, value) {
            Ok(()) => {},
            Err(e) => {
                return Err(e);
            },
        }
        match self._transfer(from, to, value) {
            Ok(()) => Ok(true),
            Err(e) => Err(e),
        }
    }

    /// Mints `amount` new tokens to `to`. Anyone can call this.
    pub fn mint(&mut self, to: Address, amount: U256) -> (r: Result<(), Vec<u8>>)
        ensures
            if to@ == zero_address() {
                &&& r matches Err(e) && e@ == vstd::utf8::encode_utf8("ZeroAddress"@)
                &&& *final(self) == *old(self)
            } else {
                &&& r == Ok::<(), Vec<u8>>(())
                &&& final(self)@ == old(self)@.after_mint(to@, amount@)
            },
    {
        self._mint_to(to, amount)
    }

    fn _transfer(&mut self, from: Address, to: Address, value: U256) -> (r: Result<(), Vec<u8>>)
        ensures
            match old(self)@.transfer_refusal(from@, to@, value@) {
                Some(why) => {
                    &&& r matches Err(e) && e@ == vstd::utf8::encode_utf8(why)
                    &&& *final(self) == *old(self)
                },
                None => {
                    &&& r is Ok
                    &&& final(self)@ == old(self)@.after_transfer(from@, to@, value@)
                },
            },
    {
        if is_zero_address(&to) {
            return Err(text_bytes("ZeroAddress"));
        }
        let from_balance = number_at(&self.balances, from.as_slice());
        if from_balance.less_than(value) {
            return Err(text_bytes("InsufficientBalance"));
        }
        self.balances.insert(from.as_slice(), from_balance.minus(value));
        let to_balance = number_at(&self.balances, to.as_slice());
        self.balances.insert(to.as_slice(), to_balance.wrapping_add(value));
        self.log.push(TokenEvent::Transfer { from, to, value });
        assert(self@.log =~= old(self)@.log.push(
            TokenEventView::Transfer { from: from@, to: to@, value: value@ },
        ));
        Ok(())
    }

    fn _approve(&mut self, owner: Address, spender: Address, value: U256) -> (r: Result<
        (),
        Vec<u8>,
    >)
        ensures
            if spender@ == zero_address() {
                &&& r matches Err(e) && e@ == vstd::utf8::encode_utf8("ZeroAddress"@)
                &&& *final(self) == *old(self)
            } else {
                &&& r is Ok
                &&& final(self)@ == old(self)@.after_approve(owner@, spender@, value@)
            },
    {
        if is_zero_address(&spender) {
            return Err(text_bytes("ZeroAddress"));
        }
        self.allowances.insert(allowance_key(&owner, &spender).as_slice(), value);
        self.log.push(TokenEvent::Approval { owner, spender, value });
        assert(self@.log =~= old(self)@.log.push(
            TokenEventView::Approval { owner: owner@, spender: spender@, value: value@ },
        ));
        Ok(())
    }

    fn _spend_allowance(&mut self, owner: Address, spender: Address, value: U256) -> (r: Result<
        (),
        Vec<u8>,
    >)
        ensures
            if old(self)@.may_spend(owner@, spender@, value@) {
                &&& r is Ok
                &&& final(self)@ == old(self)@.after_spend(owner@, spender@, value@)
            } else {
                &&& r matches Err(e) && e@ == vstd::utf8::encode_utf8("InsufficientAllowance"@)
                &&& *final(self) == *old(self)
            },
    {
        let key = allowance_key(&owner, &spender);
        let current = number_at(&self.allowances, key.as_slice());
        // the largest number stands for an allowance without limit
        if !current.equals(U256::max()) {
            if current.less_than(value) {
                return Err(text_bytes("InsufficientAllowance"));
            }
            self.allowances.insert(key.as_slice(), current.minus(value));
        }
        Ok(())
    }

    fn _mint_to(&mut self, to: Address, amount: U256) -> (r: Result<(), Vec<u8>>)
        ensures
            if to@ == zero_address() {
                &&& r matches Err(e) && e@ == vstd::utf8::encode_utf8("ZeroAddress"@)
                &&& *final(self) == *old(self)
            } else {
                &&& r == Ok::<(), Vec<u8>>(())
                &&& final(self)@ == old(self)@.after_mint(to@, amount@)
            },
    {
        if is_zero_address(&to) {
            return Err(text_bytes("ZeroAddress"));
        }
        self.total_supply = self.total_supply.wrapping_add(amount);
        let balance = number_at(&self.balances, to.as_slice());
        self.balances.insert(to.as_slice(), balance.wrapping_add(amount));
        let from: Address = [0u8; 20];
        self.log.push(TokenEvent::Transfer { from, to, value: amount });
        assert(from@ =~= zero_address());
        assert(self@.log =~= old(self)@.log.push(
            TokenEventView::Transfer { from: from@, to: to@, value: amount@ },
        ));
        Ok(())
    }
}

} // verus!
