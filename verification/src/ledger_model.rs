//! The balance ledger as a mathematical state, and what each operation makes
//! of it.

use vstd::prelude::*;
use crate::arith::share_of;
use crate::arith::usdc_to_bitcoin;
use crate::arith::CONVERSION_THRESHOLD;
use crate::gate::valid_cross_chain_caller;
use crate::ledger_types::InjectiveConfig;
use crate::sums::amount_at;

verus! {

/// The ledger's state: two maps from a principal's name to an amount, the
/// pooled yield and the running count of what conversions produced. A
/// principal without an entry has a balance of zero.
pub struct LedgerView {
    pub balances: Map<Seq<char>, nat>,
    pub bitcoin_balances: Map<Seq<char>, nat>,
    pub yield_accumulator: nat,
    pub total_bitcoin_converted: nat,
    pub injective_config: InjectiveConfig,
}

/// A call that changes the ledger, with the identity of who makes it.
pub enum LedgerCall {
    /// `caller` deposits `amount` for itself.
    DepositYield { caller: Seq<char>, amount: nat },
    /// Anyone asks for a conversion of the pool.
    ConvertYield,
    /// `caller` asks to convert `usdc_amount` of the balance of `principal`.
    ManualConversion { caller: Seq<char>, principal: Seq<char>, usdc_amount: nat },
    /// `caller` forwards a deposit of `amount` for `user` from the other chain.
    ForwardedDeposit { caller: Seq<char>, user: Seq<char>, amount: nat },
    /// `caller` asks to withdraw all that `principal` holds.
    EmergencyWithdraw { caller: Seq<char>, principal: Seq<char> },
}

impl LedgerView {
    /// The stable-asset balance of `principal`.
    pub open spec fn balance_of(self, principal: Seq<char>) -> nat {
        amount_at(self.balances, principal)
    }

    /// The secondary-asset balance of `principal`.
    pub open spec fn bitcoin_of(self, principal: Seq<char>) -> nat {
        amount_at(self.bitcoin_balances, principal)
    }

    /// What `principal` receives when `bitcoin_amount` is handed out over
    /// `total_yield`.
    pub open spec fn share(
        self,
        principal: Seq<char>,
        bitcoin_amount: nat,
        total_yield: nat,
    ) -> nat {
        if self.balances.contains_key(principal) {
            share_of(self.balances[principal], bitcoin_amount, total_yield)
        } else {
            0
        }
    }

    /// The state with `amount` added to the balance of `principal`.
    pub open spec fn credit(self, principal: Seq<char>, amount: nat) -> LedgerView {
        LedgerView {
            balances: self.balances.insert(principal, self.balance_of(principal) + amount),
            ..self
        }
    }

    /// The secondary-asset balances after every principal among `receivers`
    /// has been given its share. A share of zero creates no entry.
    pub open spec fn bitcoin_balances_after(
        self,
        receivers: Set<Seq<char>>,
        bitcoin_amount: nat,
        total_yield: nat,
    ) -> Map<Seq<char>, nat> {
        Map::new(
            |p: Seq<char>|
                self.bitcoin_balances.contains_key(p) || (receivers.contains(p) && self.share(
                    p,
                    bitcoin_amount,
                    total_yield,
                ) > 0),
            |p: Seq<char>|
                if receivers.contains(p) {
                    self.bitcoin_of(p) + self.share(p, bitcoin_amount, total_yield)
                } else {
                    self.bitcoin_of(p)
                },
        )
    }

    /// The state after `bitcoin_amount` has been distributed: each principal
    /// with a balance receives the floor of `balance * bitcoin_amount /
    /// total_yield`, computed from the balances as they stand at the start.
    /// What the rounding leaves over is given to nobody.
    pub open spec fn distribute(self, bitcoin_amount: nat, total_yield: nat) -> LedgerView {
        LedgerView {
            bitcoin_balances: self.bitcoin_balances_after(
                self.balances.dom(),
                bitcoin_amount,
                total_yield,
            ),
            ..self
        }
    }

    /// Whether every balance that a distribution writes fits its integer.
    pub open spec fn distribution_fits(self, bitcoin_amount: nat, total_yield: nat) -> bool {
        forall|p: Seq<char>| #[trigger]
            self.balances.contains_key(p) ==> self.bitcoin_of(p) + self.share(
                p,
                bitcoin_amount,
                total_yield,
            ) <= u64::MAX
    }

    /// Whether the pool has reached the conversion threshold.
    pub open spec fn conversion_due(self) -> bool {
        self.yield_accumulator >= CONVERSION_THRESHOLD
    }

    /// The state after a conversion attempt. Below the threshold nothing
    /// changes. At or above it the whole pool is converted at the fixed rate
    /// and distributed with the pool's size as divisor, the pool is emptied
    /// and the running total grows by what was produced.
    pub open spec fn convert(self) -> LedgerView {
        if !self.conversion_due() {
            self
        } else {
            let produced = usdc_to_bitcoin(self.yield_accumulator);
            let distributed = self.distribute(produced, self.yield_accumulator);
            LedgerView {
                yield_accumulator: 0,
                total_bitcoin_converted: self.total_bitcoin_converted + produced,
                ..distributed
            }
        }
    }

    /// Whether a conversion attempt stays within the integers of the ledger.
    pub open spec fn conversion_fits(self) -> bool {
        self.conversion_due() ==> {
            &&& self.total_bitcoin_converted + usdc_to_bitcoin(self.yield_accumulator) <= u64::MAX
            &&& self.distribution_fits(
                usdc_to_bitcoin(self.yield_accumulator),
                self.yield_accumulator,
            )
        }
    }

    /// The state with `amount` credited to `caller` and added to the pool,
    /// before any conversion.
    pub open spec fn pooled(self, caller: Seq<char>, amount: nat) -> LedgerView {
        LedgerView {
            yield_accumulator: self.yield_accumulator + amount,
            ..self.credit(caller, amount)
        }
    }

    /// The state after `caller` deposits `amount`: the credit, then a
    /// conversion attempt.
    pub open spec fn deposit(self, caller: Seq<char>, amount: nat) -> LedgerView {
        self.pooled(caller, amount).convert()
    }

    /// Whether a deposit stays within the integers of the ledger.
    pub open spec fn deposit_fits(self, caller: Seq<char>, amount: nat) -> bool {
        &&& self.balance_of(caller) + amount <= u128::MAX
        &&& self.yield_accumulator + amount <= u128::MAX
        &&& self.pooled(caller, amount).conversion_fits()
    }

    /// The state after `principal` converts `usdc_amount` of its own balance
    /// at the fixed rate. The pool is not involved.
    pub open spec fn manual_conversion(self, principal: Seq<char>, usdc_amount: nat) -> LedgerView {
        LedgerView {
            balances: if self.balances.contains_key(principal) {
                self.balances.insert(
                    principal,
                    (self.balances[principal] - usdc_amount) as nat,
                )
            } else {
                self.balances
            },
            bitcoin_balances: self.bitcoin_balances.insert(
                principal,
                self.bitcoin_of(principal) + usdc_to_bitcoin(usdc_amount),
            ),
            total_bitcoin_converted: self.total_bitcoin_converted + usdc_to_bitcoin(usdc_amount),
            ..self
        }
    }

    /// Whether a manual conversion stays within the integers of the ledger.
    pub open spec fn manual_conversion_fits(self, principal: Seq<char>, usdc_amount: nat) -> bool {
        &&& self.bitcoin_of(principal) + usdc_to_bitcoin(usdc_amount) <= u64::MAX
        &&& self.total_bitcoin_converted + usdc_to_bitcoin(usdc_amount) <= u64::MAX
    }

    /// The state with both entries of `principal` removed.
    pub open spec fn withdraw(self, principal: Seq<char>) -> LedgerView {
        LedgerView {
            balances: self.balances.remove(principal),
            bitcoin_balances: self.bitcoin_balances.remove(principal),
            ..self
        }
    }

    /// Whether `call` takes effect: the caller is authorized, a debit is
    /// covered, and every amount written fits its integer.
    pub open spec fn accepts(self, call: LedgerCall) -> bool {
        match call {
            LedgerCall::DepositYield { caller, amount } => self.deposit_fits(caller, amount),
            LedgerCall::ConvertYield => self.conversion_fits(),
            LedgerCall::ManualConversion { caller, principal, usdc_amount } => {
                &&& caller == principal
                &&& self.balance_of(principal) >= usdc_amount
                &&& self.manual_conversion_fits(principal, usdc_amount)
            },
            LedgerCall::ForwardedDeposit { caller, user, amount } => {
                &&& valid_cross_chain_caller(caller)
                &&& self.balance_of(user) + amount <= u128::MAX
            },
            LedgerCall::EmergencyWithdraw { caller, principal } => caller == principal,
        }
    }

    /// The state after `call`. A call that is not accepted changes nothing.
    pub open spec fn after(self, call: LedgerCall) -> LedgerView {
        if !self.accepts(call) {
            self
        } else {
            match call {
                LedgerCall::DepositYield { caller, amount } => self.deposit(caller, amount),
                LedgerCall::ConvertYield => self.convert(),
                LedgerCall::ManualConversion { caller, principal, usdc_amount } =>
                    self.manual_conversion(principal, usdc_amount),
                LedgerCall::ForwardedDeposit { caller, user, amount } => self.credit(user, amount),
                LedgerCall::EmergencyWithdraw { caller, principal } => self.withdraw(principal),
            }
        }
    }

    /// The state with the configuration replaced as a whole.
    pub open spec fn with_config(self, config: InjectiveConfig) -> LedgerView {
        LedgerView { injective_config: config, ..self }
    }
}

} // verus!
