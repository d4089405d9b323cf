//! The token: initialisation, transfers with a fee, and the read accessors.

use vstd::prelude::*;
use crate::address::{Address, Auth};
use crate::amount::{mul_pow10_i128, pow10};
use crate::error::Error;
use crate::holders::{lemma_place, lemma_sum_bounds, lemma_sum_push};
use crate::model::{
    Holder, Ledger, BASE_SUPPLY, DECIMALS, DEFAULT_LISTING_FEE, TOTAL_SUPPLY_RAW,
};
use crate::palette::{default_palette, default_palette_colors};
use crate::state::{Account, SimpleTokenNft};

verus! {

/// The sum of `amounts`.
pub open spec fn sum_amounts(amounts: Seq<i128>) -> int
    decreases amounts.len(),
{
    if amounts.len() == 0 {
        0
    } else {
        sum_amounts(amounts.drop_last()) + amounts.last()
    }
}

/// What `who` receives of a batch: the sum of the amounts whose recipient
/// is `who`.
pub open spec fn received(tos: Seq<Address>, amounts: Seq<i128>, who: Address) -> int
    decreases tos.len(),
{
    if tos.len() == 0 || amounts.len() == 0 {
        0
    } else {
        received(tos.drop_last(), amounts.drop_last(), who) + if tos.last() == who {
            amounts.last() as int
        } else {
            0
        }
    }
}

/// The fault of the first of the first `n` entries of a batch that has one:
/// an amount that is not positive, else a recipient that is the sender,
/// else a running sum beyond the integer range.
pub open spec fn batch_fault(from: Address, tos: Seq<Address>, amounts: Seq<i128>, n: int) -> Option<
    Error,
>
    decreases n,
{
    if n <= 0 {
        None
    } else {
        match batch_fault(from, tos, amounts, n - 1) {
            Some(e) => Some(e),
            None => if amounts[n - 1] <= 0 {
                Some(Error::BadAmountAt)
            } else if tos[n - 1] == from {
                Some(Error::SelfTransferAt)
            } else if sum_amounts(amounts.take(n)) > i128::MAX {
                Some(Error::AmountSumOverflow)
            } else {
                None
            },
        }
    }
}

impl Ledger {
    /// Why `init` is refused, if it is.
    pub open spec fn init_error(self, auth: Set<Address>, admin: Address, decimals: u32) -> Option<
        Error,
    > {
        if self.initialized {
            Some(Error::AlreadyInit)
        } else if !auth.contains(admin) {
            Some(Error::Unauthorized)
        } else if decimals != DECIMALS {
            Some(Error::DecimalsMustBe3)
        } else {
            None
        }
    }

    /// The ledger that `init` makes of `self`: the whole supply credited to
    /// `admin`, the default palette and the default listing fee.
    pub open spec fn after_init(self, admin: Address, name: Seq<char>, symbol: Seq<char>) -> Ledger {
        Ledger {
            initialized: true,
            admin,
            name,
            symbol,
            decimals: DECIMALS,
            total_supply: BASE_SUPPLY * pow10(DECIMALS as nat),
            listing_fee: DEFAULT_LISTING_FEE as int,
            palette: default_palette_colors(),
            holders: seq![Holder { who: admin, balance: BASE_SUPPLY * pow10(DECIMALS as nat), ids: Seq::empty() }],
            ..self
        }
    }

    /// Why a transfer is refused, if it is.
    pub open spec fn transfer_error(
        self,
        auth: Set<Address>,
        from: Address,
        to: Address,
        amount: i128,
    ) -> Option<Error> {
        if !self.initialized {
            Some(Error::NotInited)
        } else if amount <= 0 {
            Some(Error::BadAmount)
        } else if !auth.contains(from) {
            Some(Error::Unauthorized)
        } else if from == to {
            Some(Error::SelfTransfer)
        } else if amount + self.transfer_fee > i128::MAX {
            Some(Error::FeeAddOverflow)
        } else if self.balance_of(from) < amount + self.transfer_fee {
            Some(Error::InsufficientBalanceWithFee)
        } else {
            None
        }
    }

    /// Whether `post` is `self` after a transfer of `amount` from `from` to
    /// `to`: the sender pays the amount and the fee, the recipient gets the
    /// amount, the administrator gets the fee, whoever they are.
    pub open spec fn transferred(self, post: Ledger, from: Address, to: Address, amount: i128) -> bool {
        &&& post.same_but_holders(self)
        &&& post.same_holdings(self)
        &&& forall|a: Address|
            post.balance_of(a) == self.balance_of(a) - (if a == from {
                amount + self.transfer_fee
            } else {
                0
            }) + (if a == to {
                amount as int
            } else {
                0
            }) + (if a == self.admin {
                self.transfer_fee
            } else {
                0
            })
    }

    /// Why a batch of transfers is refused, if it is.
    pub open spec fn transfer_batch_error(
        self,
        auth: Set<Address>,
        from: Address,
        tos: Seq<Address>,
        amounts: Seq<i128>,
    ) -> Option<Error> {
        if !self.initialized {
            Some(Error::NotInited)
        } else if !auth.contains(from) {
            Some(Error::Unauthorized)
        } else if tos.len() == 0 {
            Some(Error::EmptyBatch)
        } else if tos.len() != amounts.len() {
            Some(Error::LengthMismatch)
        } else if batch_fault(from, tos, amounts, tos.len() as int).is_some() {
            batch_fault(from, tos, amounts, tos.len() as int)
        } else if self.transfer_fee * tos.len() > i128::MAX {
            Some(Error::FeeMulOverflow)
        } else if sum_amounts(amounts) + self.transfer_fee * tos.len() > i128::MAX {
            Some(Error::TotalDeductOverflow)
        } else if self.balance_of(from) < sum_amounts(amounts) + self.transfer_fee * tos.len() {
            Some(Error::InsufficientBalanceWithFee)
        } else {
            None
        }
    }

    /// Whether `post` is `self` after the batch: each recipient gets what is
    /// addressed to it, the sender pays the sum and one fee per recipient,
    /// and the administrator gets the fees.
    pub open spec fn batch_transferred(
        self,
        post: Ledger,
        from: Address,
        tos: Seq<Address>,
        amounts: Seq<i128>,
    ) -> bool {
        &&& post.same_but_holders(self)
        &&& post.same_holdings(self)
        &&& forall|a: Address|
            post.balance_of(a) == self.balance_of(a) + received(tos, amounts, a) - (if a == from {
                sum_amounts(amounts) + self.transfer_fee * tos.len()
            } else {
                0
            }) + (if a == self.admin {
                self.transfer_fee * tos.len()
            } else {
                0
            })
    }
}

/// The supply: `BASE_SUPPLY · 10^DECIMALS`.
pub proof fn lemma_total_supply()
    ensures
        BASE_SUPPLY * pow10(DECIMALS as nat) == TOTAL_SUPPLY_RAW,
{
    reveal_with_fuel(pow10, 4);
}

/// The sum of a prefix of positive amounts does not exceed the sum of all.
pub proof fn lemma_prefix_sum(amounts: Seq<i128>, n: int)
    requires
        0 <= n <= amounts.len(),
        forall|k: int| 0 <= k < amounts.len() ==> (#[trigger] amounts[k]) > 0,
    ensures
        0 <= sum_amounts(amounts.take(n)) <= sum_amounts(amounts),
    decreases amounts.len() - n,
{
    if n == amounts.len() {
        assert(amounts.take(n) =~= amounts);
        lemma_sum_amounts_nonnegative(amounts);
    } else {
        lemma_prefix_sum(amounts, n + 1);
        assert(amounts.take(n + 1).drop_last() =~= amounts.take(n));
        lemma_sum_amounts_nonnegative(amounts.take(n));
    }
}

/// A sum of positive amounts is not negative.
pub proof fn lemma_sum_amounts_nonnegative(amounts: Seq<i128>)
    requires
        forall|k: int| 0 <= k < amounts.len() ==> (#[trigger] amounts[k]) > 0,
    ensures
        sum_amounts(amounts) >= 0,
    decreases amounts.len(),
{
    if amounts.len() > 0 {
        lemma_sum_amounts_nonnegative(amounts.drop_last());
    }
}

/// A batch without a fault has only positive amounts and no recipient that
/// is the sender.
pub proof fn lemma_no_fault(from: Address, tos: Seq<Address>, amounts: Seq<i128>, n: int)
    requires
        0 <= n <= tos.len(),
        tos.len() == amounts.len(),
        batch_fault(from, tos, amounts, n).is_none(),
    ensures
        forall|k: int| 0 <= k < n ==> (#[trigger] amounts[k]) > 0,
        forall|k: int| 0 <= k < n ==> (#[trigger] tos[k]) != from,
        received(tos.take(n), amounts.take(n), from) == 0,
    decreases n,
{
    if n > 0 {
        lemma_no_fault(from, tos, amounts, n - 1);
        assert(tos.take(n).drop_last() =~= tos.take(n - 1));
        assert(amounts.take(n).drop_last() =~= amounts.take(n - 1));
    }
}

impl SimpleTokenNft {
    /// Initialises the ledger: `admin`, who must consent, becomes the
    /// administrator and holds the whole supply.
    pub fn init(
        &mut self,
        auth: &Auth,
        admin: Address,
        name: String,
        symbol: String,
        decimals: u32,
    ) -> (r: Result<(), Error>)
        requires
            old(self)@.wf(),
        ensures
            final(self)@.wf(),
            match r {
                Ok(()) => {
                    &&& old(self)@.init_error(auth@, admin, decimals).is_none()
                    &&& final(self)@ == old(self)@.after_init(admin, name@, symbol@)
                },
                Err(e) => {
                    &&& old(self)@.init_error(auth@, admin, decimals) == Some(e)
                    &&& *final(self) == *old(self)
                },
            },
    {
        if self.initialized {
            return Err(Error::AlreadyInit);
        }
        if !auth.approves(admin) {
            return Err(Error::Unauthorized);
        }
        if decimals != DECIMALS {
            return Err(Error::DecimalsMustBe3);
        }
        proof {
            lemma_total_supply();
        }
        let total: i128 = mul_pow10_i128(BASE_SUPPLY, decimals).unwrap();
        self.admin = admin;
        self.name = name;
        self.symbol = symbol;
        self.decimals = decimals;
        self.total_supply = total;
        self.initialized = true;
        self.accounts.push(Account { who: admin, balance: total, ids: Vec::new() });
        self.palette = default_palette();
        self.listing_fee = DEFAULT_LISTING_FEE;
        proof {
            let pre = old(self)@;
            let post = self@;
            let first = Holder { who: admin, balance: total as int, ids: Seq::empty() };
            assert(post.holders =~= seq![first]);
            assert(post.assets =~= pre.assets);
            assert(post.index =~= pre.index);
            assert(post == pre.after_init(admin, name@, symbol@));
            lemma_sum_push(Seq::empty(), first);
            assert(Seq::<Holder>::empty().push(first) =~= seq![first]);
            assert(post.ownership_wf());
            assert(post.index_wf()) by {
                assert forall|pos: int, color: int| post.search(pos, color) == pre.search(pos, color) by {}
            }
        }
        Ok(())
    }

    /// Moves `amount` from `from`, who must consent, to `to`. The sender
    /// pays the transfer fee on top, which goes to the
    /// administrator.
    pub fn transfer(&mut self, auth: &Auth, from: Address, to: Address, amount: i128) -> (r: Result<
        (),
        Error,
    >)
        requires
            old(self)@.wf(),
        ensures
            final(self)@.wf(),
            match r {
                Ok(()) => {
                    &&& old(self)@.transfer_error(auth@, from, to, amount).is_none()
                    &&& old(self)@.transferred(final(self)@, from, to, amount)
                },
                Err(e) => {
                    &&& old(self)@.transfer_error(auth@, from, to, amount) == Some(e)
                    &&& *final(self) == *old(self)
                },
            },
    {
        if !self.initialized {
            return Err(Error::NotInited);
        }
        if amount <= 0 {
            return Err(Error::BadAmount);
        }
        if !auth.approves(from) {
            return Err(Error::Unauthorized);
        }
        if from == to {
            return Err(Error::SelfTransfer);
        }
        let fee = self.transfer_fee;
        let total_deduct: i128 = match amount.checked_add(fee) {
            Some(t) => t,
            None => {
                return Err(Error::FeeAddOverflow);
            },
        };
        let payer = match self.find_account(from) {
            Some(i) => i,
            None => {
                return Err(Error::InsufficientBalanceWithFee);
            },
        };
        proof {
            lemma_place(self@, payer as int);
        }
        let from_bal = self.balance_at(payer);
        if from_bal < total_deduct {
            return Err(Error::InsufficientBalanceWithFee);
        }
        self.set_balance(payer, from_bal - total_deduct);
        self.pay(to, amount);
        self.pay(self.admin, fee);
        Ok(())
    }

    /// Adds `amount` to the balance of `who`.
    pub(crate) fn pay(&mut self, who: Address, amount: i128)
        requires
            old(self)@.structure_wf(),
            amount >= 0,
            old(self)@.total_balance() + amount <= i128::MAX,
        ensures
            final(self)@.structure_wf(),
            final(self)@.same_but_holders(old(self)@),
            final(self)@.same_holdings(old(self)@),
            final(self)@.total_balance() == old(self)@.total_balance() + amount,
            forall|a: Address|
                final(self)@.balance_of(a) == old(self)@.balance_of(a) + if a == who {
                    amount as int
                } else {
                    0
                },
    {
        let i = self.account_of(who);
        proof {
            lemma_place(self@, i as int);
            lemma_sum_bounds(self@.holders, i as int);
        }
        let balance = self.balance_at(i);
        self.set_balance(i, balance + amount);
    }

    /// Moves `amounts[i]` from `from`, who must consent, to `tos[i]`, for
    /// every `i`, or nothing at all. The sender pays the transfer fee per
    /// recipient on top, which goes to the administrator. Returns the fees
    /// paid.
    pub fn transfer_batch(
        &mut self,
        auth: &Auth,
        from: Address,
        tos: &Vec<Address>,
        amounts: &Vec<i128>,
    ) -> (r: Result<i128, Error>)
        requires
            old(self)@.wf(),
        ensures
            final(self)@.wf(),
            match r {
                Ok(total_fee) => {
                    &&& old(self)@.transfer_batch_error(auth@, from, tos@, amounts@).is_none()
                    &&& old(self)@.batch_transferred(final(self)@, from, tos@, amounts@)
                    &&& total_fee == old(self)@.transfer_fee * tos@.len()
                },
                Err(e) => {
                    &&& old(self)@.transfer_batch_error(auth@, from, tos@, amounts@) == Some(e)
                    &&& *final(self) == *old(self)
                },
            },
    {
        if !self.initialized {
            return Err(Error::NotInited);
        }
        if !auth.approves(from) {
            return Err(Error::Unauthorized);
        }
        let n: usize = tos.len();
        if n == 0 {
            return Err(Error::EmptyBatch);
        }
        if n != amounts.len() {
            return Err(Error::LengthMismatch);
        }
        let mut sum: i128 = 0;
        let mut i: usize = 0;
        assert(amounts@.take(0) =~= Seq::<i128>::empty());
        while i < n
            invariant
                i <= n,
                n == tos@.len(),
                n == amounts@.len(),
                0 < n,
                old(self)@.wf(),
                old(self)@.initialized,
                auth@.contains(from),
                batch_fault(from, tos@, amounts@, i as int).is_none(),
                sum == sum_amounts(amounts@.take(i as int)),
                *self == *old(self),
            decreases n - i,
        {
            let amt = amounts[i];
            proof {
                assert(amounts@.take(i + 1).drop_last() =~= amounts@.take(i as int));
            }
            if amt <= 0 {
                proof {
                    lemma_fault_stays(from, tos@, amounts@, i + 1, n as int);
                }
                return Err(Error::BadAmountAt);
            }
            if tos[i] == from {
                proof {
                    lemma_fault_stays(from, tos@, amounts@, i + 1, n as int);
                }
                return Err(Error::SelfTransferAt);
            }
            sum = match sum.checked_add(amt) {
                Some(s) => s,
                None => {
                    proof {
                        lemma_fault_stays(from, tos@, amounts@, i + 1, n as int);
                    }
                    return Err(Error::AmountSumOverflow);
                },
            };
            i += 1;
        }
        proof {
            assert(amounts@.take(n as int) =~= amounts@);
            lemma_no_fault(from, tos@, amounts@, n as int);
            lemma_sum_amounts_nonnegative(amounts@);
        }
        let fee = self.transfer_fee;
        assert(fee * n >= 0) by (nonlinear_arith)
            requires
                fee >= 0,
                n >= 0,
        ;
        let total_fee: i128 = match fee.checked_mul(n as i128) {
            Some(t) => t,
            None => {
                return Err(Error::FeeMulOverflow);
            },
        };
        let total_deduct: i128 = match sum.checked_add(total_fee) {
            Some(t) => t,
            None => {
                return Err(Error::TotalDeductOverflow);
            },
        };
        let payer = match self.find_account(from) {
            Some(i) => i,
            None => {
                proof {
                    lemma_sum_amounts_nonnegative(amounts@.drop_last());
                    assert(amounts@.last() > 0);
                }
                return Err(Error::InsufficientBalanceWithFee);
            },
        };
        proof {
            lemma_place(self@, payer as int);
        }
        let from_bal = self.balance_at(payer);
        if from_bal < total_deduct {
            return Err(Error::InsufficientBalanceWithFee);
        }
        self.set_balance(payer, from_bal - total_deduct);
        let mut k: usize = 0;
        proof {
            assert(tos@.take(0) =~= Seq::<Address>::empty());
        }
        while k < n
            invariant
                k <= n,
                n == tos@.len(),
                n == amounts@.len(),
                forall|j: int| 0 <= j < n ==> (#[trigger] amounts@[j]) > 0,
                old(self)@.wf(),
                old(self)@.initialized,
                self@.structure_wf(),
                self@.same_but_holders(old(self)@),
                self@.same_holdings(old(self)@),
                total_deduct == sum_amounts(amounts@) + total_fee,
                total_fee >= 0,
                total_fee == old(self)@.transfer_fee * n,
                self@.total_balance() == old(self)@.total_balance() - total_deduct + sum_amounts(
                    amounts@.take(k as int),
                ),
                forall|a: Address|
                    self@.balance_of(a) == old(self)@.balance_of(a) + received(
                        tos@.take(k as int),
                        amounts@.take(k as int),
                        a,
                    ) - if a == from {
                        total_deduct as int
                    } else {
                        0
                    },
            decreases n - k,
        {
            proof {
                lemma_prefix_sum(amounts@, k + 1);
                assert(amounts@.take(k + 1).drop_last() =~= amounts@.take(k as int));
                assert(tos@.take(k + 1).drop_last() =~= tos@.take(k as int));
            }
            self.pay(tos[k], amounts[k]);
            k += 1;
        }
        proof {
            assert(amounts@.take(n as int) =~= amounts@);
            assert(tos@.take(n as int) =~= tos@);
        }
        self.pay(self.admin, total_fee);
        Ok(total_fee)
    }

    /// The token's display name.
    pub fn name(&self) -> (r: Result<String, Error>)
        ensures
            match r {
                Ok(name) => self@.initialized && name@ == self@.name,
                Err(e) => !self@.initialized && e == Error::NoName,
            },
    {
        if !self.initialized {
            return Err(Error::NoName);
        }
        Ok(self.name.clone())
    }

    /// The token's symbol.
    pub fn symbol(&self) -> (r: Result<String, Error>)
        ensures
            match r {
                Ok(symbol) => self@.initialized && symbol@ == self@.symbol,
                Err(e) => !self@.initialized && e == Error::NoSymbol,
            },
    {
        if !self.initialized {
            return Err(Error::NoSymbol);
        }
        Ok(self.symbol.clone())
    }

    /// The token's decimal precision.
    pub fn decimals(&self) -> (r: Result<u32, Error>)
        ensures
            match r {
                Ok(decimals) => self@.initialized && decimals == self@.decimals,
                Err(e) => !self@.initialized && e == Error::NoDecimals,
            },
    {
        if !self.initialized {
            return Err(Error::NoDecimals);
        }
        Ok(self.decimals)
    }

    /// The number of raw units in existence.
    pub fn total_supply(&self) -> (r: Result<i128, Error>)
        ensures
            match r {
                Ok(supply) => self@.initialized && supply == self@.total_supply,
                Err(e) => !self@.initialized && e == Error::NoSupply,
            },
    {
        if !self.initialized {
            return Err(Error::NoSupply);
        }
        Ok(self.total_supply)
    }

    /// The balance of `of`: zero for an actor the ledger has no record of.
    pub fn balance_of(&self, of: Address) -> (balance: i128)
        requires
            self@.wf(),
        ensures
            balance == self@.balance_of(of),
    {
        match self.find_account(of) {
            Some(i) => {
                proof {
                    lemma_place(self@, i as int);
                }
                self.balance_at(i)
            },
            None => 0,
        }
    }

    /// The administrator, once the ledger is initialised.
    pub fn admin(&self) -> (r: Option<Address>)
        ensures
            r == if self@.initialized {
                Some(self@.admin)
            } else {
                None
            },
    {
        if self.initialized {
            Some(self.admin)
        } else {
            None
        }
    }
}

/// A fault among the first `n` entries of a batch is the fault of every
/// longer prefix.
pub proof fn lemma_fault_stays(from: Address, tos: Seq<Address>, amounts: Seq<i128>, n: int, m: int)
    requires
        0 <= n <= m,
        batch_fault(from, tos, amounts, n).is_some(),
    ensures
        batch_fault(from, tos, amounts, m) == batch_fault(from, tos, amounts, n),
    decreases m - n,
{
    if n < m {
        lemma_fault_stays(from, tos, amounts, n, m - 1);
    }
}

} // verus!
