//! What holds of the two ledgers whatever calls are made.

use vstd::prelude::*;
use crate::arith::lemma_share_bounded;
use crate::arith::lemma_share_superadditive;
use crate::arith::share_of;
use crate::arith::usdc_to_bitcoin;
use crate::arith::CONVERSION_THRESHOLD;
use crate::ledger_model::LedgerCall;
use crate::ledger_model::LedgerView;
use crate::sums::amount_at;
use crate::sums::lemma_total_drop;
use crate::sums::lemma_total_insert;
use crate::sums::lemma_total_remove;
use crate::sums::total;
use crate::vault_model::VaultView;

verus! {

/// What `call` adds to the stable-asset balances of `state`.
pub open spec fn credited(state: LedgerView, call: LedgerCall) -> nat {
    if !state.accepts(call) {
        0
    } else {
        match call {
            LedgerCall::DepositYield { caller, amount } => amount,
            LedgerCall::ForwardedDeposit { caller, user, amount } => amount,
            _ => 0,
        }
    }
}

/// What `call` takes off the stable-asset balances of `state`: the amount
/// converted away or withdrawn.
pub open spec fn debited(state: LedgerView, call: LedgerCall) -> nat {
    if !state.accepts(call) {
        0
    } else {
        match call {
            LedgerCall::ManualConversion { caller, principal, usdc_amount } => usdc_amount,
            LedgerCall::EmergencyWithdraw { caller, principal } => state.balance_of(principal),
            _ => 0,
        }
    }
}

/// The state after `calls` have been made in order.
pub open spec fn after_all(state: LedgerView, calls: Seq<LedgerCall>) -> LedgerView
    decreases calls.len(),
{
    if calls.len() == 0 {
        state
    } else {
        after_all(state, calls.drop_last()).after(calls.last())
    }
}

/// All that `calls` credit, one after the other.
pub open spec fn credited_by(state: LedgerView, calls: Seq<LedgerCall>) -> nat
    decreases calls.len(),
{
    if calls.len() == 0 {
        0
    } else {
        credited_by(state, calls.drop_last()) + credited(
            after_all(state, calls.drop_last()),
            calls.last(),
        )
    }
}

/// All that `calls` debit, one after the other.
pub open spec fn debited_by(state: LedgerView, calls: Seq<LedgerCall>) -> nat
    decreases calls.len(),
{
    if calls.len() == 0 {
        0
    } else {
        debited_by(state, calls.drop_last()) + debited(
            after_all(state, calls.drop_last()),
            calls.last(),
        )
    }
}

/// One call changes the sum of the stable-asset balances by what it credits
/// less what it debits, and leaves the set of holders finite.
pub proof fn law_call_conserves_balances(state: LedgerView, call: LedgerCall)
    requires
        state.balances.dom().finite(),
    ensures
        state.after(call).balances.dom().finite(),
        total(state.after(call).balances) + debited(state, call) == total(state.balances)
            + credited(state, call),
{
    if state.accepts(call) {
        match call {
            LedgerCall::DepositYield { caller, amount } => {
                lemma_total_insert(state.balances, caller, state.balance_of(caller) + amount);
            },
            LedgerCall::ConvertYield => {},
            LedgerCall::ManualConversion { caller, principal, usdc_amount } => {
                if state.balances.contains_key(principal) {
                    lemma_total_insert(
                        state.balances,
                        principal,
                        (state.balances[principal] - usdc_amount) as nat,
                    );
                }
            },
            LedgerCall::ForwardedDeposit { caller, user, amount } => {
                lemma_total_insert(state.balances, user, state.balance_of(user) + amount);
            },
            LedgerCall::EmergencyWithdraw { caller, principal } => {
                lemma_total_drop(state.balances, principal);
            },
        }
    }
}

/// Conservation: after any sequence of calls the stable-asset balances sum to
/// what they summed to at the start, plus all that was deposited, less all
/// that was withdrawn or converted away.
pub proof fn law_conservation(state: LedgerView, calls: Seq<LedgerCall>)
    requires
        state.balances.dom().finite(),
    ensures
        after_all(state, calls).balances.dom().finite(),
        total(after_all(state, calls).balances) + debited_by(state, calls) == total(state.balances)
            + credited_by(state, calls),
    decreases calls.len(),
{
    if calls.len() > 0 {
        law_conservation(state, calls.drop_last());
        law_call_conserves_balances(after_all(state, calls.drop_last()), calls.last());
    }
}

/// Whether every call in `calls` asks for a conversion of the pool.
pub open spec fn only_conversions(calls: Seq<LedgerCall>) -> bool {
    forall|i: int| 0 <= i < calls.len() ==> (#[trigger] calls[i]) is ConvertYield
}

/// While the pool is below the threshold, asking for a conversion any number
/// of times changes nothing.
pub proof fn law_conversion_below_threshold_is_noop(state: LedgerView, calls: Seq<LedgerCall>)
    requires
        state.yield_accumulator < CONVERSION_THRESHOLD,
        only_conversions(calls),
    ensures
        after_all(state, calls) == state,
    decreases calls.len(),
{
    if calls.len() > 0 {
        assert(calls.last() is ConvertYield);
        assert(only_conversions(calls.drop_last())) by {
            assert forall|i: int| 0 <= i < calls.drop_last().len() implies (
            #[trigger] calls.drop_last()[i]) is ConvertYield by {
                assert(calls[i] is ConvertYield);
            }
        }
        law_conversion_below_threshold_is_noop(state, calls.drop_last());
    }
}

/// A manual conversion asked for by anyone but the principal changes nothing.
pub proof fn law_self_authorization(
    state: LedgerView,
    caller: Seq<char>,
    principal: Seq<char>,
    usdc_amount: nat,
)
    requires
        caller != principal,
    ensures
        state.after(LedgerCall::ManualConversion { caller, principal, usdc_amount }) == state,
{
}

/// Nothing tells a forwarded deposit that arrives twice from two deposits:
/// where both are accepted, the user is credited twice.
pub proof fn law_forwarded_deposit_is_not_deduplicated(
    state: LedgerView,
    caller: Seq<char>,
    user: Seq<char>,
    amount: nat,
)
    requires
        state.accepts(LedgerCall::ForwardedDeposit { caller, user, amount }),
        state.after(LedgerCall::ForwardedDeposit { caller, user, amount }).accepts(
            LedgerCall::ForwardedDeposit { caller, user, amount },
        ),
    ensures
        state.after(LedgerCall::ForwardedDeposit { caller, user, amount }).after(
            LedgerCall::ForwardedDeposit { caller, user, amount },
        ).balance_of(user) == state.balance_of(user) + 2 * amount,
{
}

/// The running total of what conversions produced never goes down.
pub proof fn law_total_converted_monotonic(state: LedgerView, call: LedgerCall)
    ensures
        state.after(call).total_bitcoin_converted >= state.total_bitcoin_converted,
{
}

/// The pool is emptied only by a conversion that took effect, and then the
/// distribution has been applied in full.
pub proof fn law_pool_reset_is_atomic(state: LedgerView)
    requires
        state.conversion_due(),
        state.conversion_fits(),
    ensures
        state.after(LedgerCall::ConvertYield).yield_accumulator == 0,
        state.after(LedgerCall::ConvertYield).bitcoin_balances == state.distribute(
            usdc_to_bitcoin(state.yield_accumulator),
            state.yield_accumulator,
        ).bitcoin_balances,
{
}

/// The shares that a distribution of `bitcoin_amount` over `total_yield`
/// hands to the holders in `balances`.
pub open spec fn shares(
    balances: Map<Seq<char>, nat>,
    bitcoin_amount: nat,
    total_yield: nat,
) -> Map<Seq<char>, nat> {
    Map::new(
        |p: Seq<char>| balances.contains_key(p),
        |p: Seq<char>| share_of(balances[p], bitcoin_amount, total_yield),
    )
}

/// The shares of a distribution sum to no more than the share of all
/// balances taken as one.
pub proof fn law_shares_bounded_by_joint_share(
    balances: Map<Seq<char>, nat>,
    bitcoin_amount: nat,
    total_yield: nat,
)
    requires
        balances.dom().finite(),
        total_yield > 0,
    ensures
        shares(balances, bitcoin_amount, total_yield).dom().finite(),
        total(shares(balances, bitcoin_amount, total_yield)) <= share_of(
            total(balances),
            bitcoin_amount,
            total_yield,
        ),
    decreases balances.dom().len(),
{
    let all = shares(balances, bitcoin_amount, total_yield);
    assert(all.dom() =~= balances.dom());
    if balances.dom().is_empty() {
        assert(all.dom().is_empty());
        assert(0nat * bitcoin_amount == 0) by (nonlinear_arith);
    } else {
        let p = balances.dom().choose();
        let rest = balances.remove(p);
        law_shares_bounded_by_joint_share(rest, bitcoin_amount, total_yield);
        assert(all.remove(p) =~= shares(rest, bitcoin_amount, total_yield));
        lemma_total_remove(all, p);
        lemma_total_remove(balances, p);
        lemma_share_superadditive(balances[p], total(rest), bitcoin_amount, total_yield);
    }
}

/// Distribution bound: where the balances together are no more than the
/// divisor, the shares handed out are no more than the amount produced, and
/// what is left over is not negative.
pub proof fn law_distribution_bound(state: LedgerView, bitcoin_amount: nat, total_yield: nat)
    requires
        state.balances.dom().finite(),
        total_yield > 0,
        total(state.balances) <= total_yield,
    ensures
        total(shares(state.balances, bitcoin_amount, total_yield)) <= bitcoin_amount,
{
    law_shares_bounded_by_joint_share(state.balances, bitcoin_amount, total_yield);
    lemma_share_bounded(total(state.balances), bitcoin_amount, total_yield);
}

/// The shares of the holders among `receivers`.
pub open spec fn shares_among(
    state: LedgerView,
    receivers: Set<Seq<char>>,
    bitcoin_amount: nat,
    total_yield: nat,
) -> Map<Seq<char>, nat> {
    Map::new(
        |p: Seq<char>| receivers.contains(p) && state.balances.contains_key(p),
        |p: Seq<char>| share_of(state.balances[p], bitcoin_amount, total_yield),
    )
}

/// Giving the holders among `receivers` their shares raises the sum of the
/// secondary-asset balances by the sum of those shares.
pub proof fn lemma_crediting_adds_shares(
    state: LedgerView,
    receivers: Set<Seq<char>>,
    bitcoin_amount: nat,
    total_yield: nat,
)
    requires
        receivers.finite(),
        state.bitcoin_balances.dom().finite(),
    ensures
        state.bitcoin_balances_after(receivers, bitcoin_amount, total_yield).dom().finite(),
        shares_among(state, receivers, bitcoin_amount, total_yield).dom().finite(),
        total(state.bitcoin_balances_after(receivers, bitcoin_amount, total_yield)) == total(
            state.bitcoin_balances,
        ) + total(shares_among(state, receivers, bitcoin_amount, total_yield)),
    decreases receivers.len(),
{
    let now = state.bitcoin_balances_after(receivers, bitcoin_amount, total_yield);
    let given = shares_among(state, receivers, bitcoin_amount, total_yield);
    if receivers.is_empty() {
        assert(now =~= state.bitcoin_balances);
        assert(given.dom() =~= Set::<Seq<char>>::empty());
    } else {
        let r = receivers.choose();
        let others = receivers.remove(r);
        lemma_crediting_adds_shares(state, others, bitcoin_amount, total_yield);
        let before = state.bitcoin_balances_after(others, bitcoin_amount, total_yield);
        let given_before = shares_among(state, others, bitcoin_amount, total_yield);
        let share = state.share(r, bitcoin_amount, total_yield);
        assert(amount_at(before, r) == state.bitcoin_of(r));
        if state.bitcoin_balances.contains_key(r) || share > 0 {
            assert(now =~= before.insert(r, state.bitcoin_of(r) + share));
            lemma_total_insert(before, r, state.bitcoin_of(r) + share);
        } else {
            assert(now =~= before);
        }
        if state.balances.contains_key(r) {
            assert(given =~= given_before.insert(r, share));
            lemma_total_insert(given_before, r, share);
        } else {
            assert(given =~= given_before);
        }
    }
}

/// A distribution raises the sum of the secondary-asset balances by exactly
/// the sum of the shares.
pub proof fn law_distribution_hands_out_shares(
    state: LedgerView,
    bitcoin_amount: nat,
    total_yield: nat,
)
    requires
        state.balances.dom().finite(),
        state.bitcoin_balances.dom().finite(),
    ensures
        state.distribute(bitcoin_amount, total_yield).bitcoin_balances.dom().finite(),
        total(state.distribute(bitcoin_amount, total_yield).bitcoin_balances) == total(
            state.bitcoin_balances,
        ) + total(shares(state.balances, bitcoin_amount, total_yield)),
{
    lemma_crediting_adds_shares(state, state.balances.dom(), bitcoin_amount, total_yield);
    assert(shares_among(state, state.balances.dom(), bitcoin_amount, total_yield) =~= shares(
        state.balances,
        bitcoin_amount,
        total_yield,
    ));
}

/// What a conversion credits to a principal depends on that principal's own
/// balance and on the pool alone: however much others hold or deposit later,
/// the share is the same.
pub proof fn law_share_is_not_diluted(first: LedgerView, second: LedgerView, principal: Seq<char>)
    requires
        first.conversion_due(),
        first.yield_accumulator == second.yield_accumulator,
        first.balances.contains_key(principal),
        second.balances.contains_key(principal),
        first.balances[principal] == second.balances[principal],
    ensures
        first.convert().bitcoin_of(principal) - first.bitcoin_of(principal)
            == second.convert().bitcoin_of(principal) - second.bitcoin_of(principal),
{
}

/// A distribution gives each holder exactly its share and nobody else
/// anything.
pub proof fn law_distribution_credits_shares(
    state: LedgerView,
    bitcoin_amount: nat,
    total_yield: nat,
    principal: Seq<char>,
)
    ensures
        state.distribute(bitcoin_amount, total_yield).bitcoin_of(principal) == state.bitcoin_of(
            principal,
        ) + amount_at(shares(state.balances, bitcoin_amount, total_yield), principal),
        state.distribute(bitcoin_amount, total_yield).balances == state.balances,
{
}

/// Vault conservation: a deposit keeps the aggregate principal equal to the
/// sum of the recorded entries.
pub proof fn law_deposit_conserves_principal(vault: VaultView, depositor: Seq<char>, amount: nat)
    requires
        vault.conserved(),
    ensures
        vault.deposit(depositor, amount).conserved(),
{
    lemma_total_insert(
        vault.principal_balances,
        depositor,
        vault.principal_of(depositor) + amount,
    );
}

/// Realised yield is the surplus of the holding over the recorded principal
/// where there is one, and nothing otherwise.
pub proof fn law_realized_yield(vault: VaultView, holding: nat)
    ensures
        vault.yield_available(holding) ==> vault.realized_yield(holding) + vault.total_principal
            == holding,
        !vault.yield_available(holding) ==> vault.realized_yield(holding) == 0,
{
}

} // verus!
