//! The balance ledger: per-principal balances, the pooled yield and the
//! conversion engine that turns the pool into secondary-asset balances.
//!
//! Every operation either takes effect as a whole or leaves the ledger as it
//! was and says why.

use vstd::prelude::*;
use vstd::hash_map::StringHashMap;
use crate::arith::convert_usdc_to_bitcoin;
use crate::arith::mul_div;
use crate::arith::usdc_conversion_fits;
use crate::arith::bitcoin_usd_value;
use crate::arith::BITCOIN_PRICE_USD;
use crate::arith::CONVERSION_THRESHOLD;
use crate::gate::admin_principal;
use crate::gate::is_admin;
use crate::gate::is_self;
use crate::gate::is_valid_cross_chain_caller;
use crate::gate::valid_cross_chain_caller;
use crate::ledger_model::LedgerCall;
use crate::ledger_model::LedgerView;
use crate::ledger_types::is_skim_request;
use crate::ledger_types::BalanceResponse;
use crate::ledger_types::BitcoinBalanceResponse;
use crate::ledger_types::CrossChainMessage;
use crate::ledger_types::InjectiveConfig;
use crate::ledger_types::LedgerError;
use crate::sums::naturals;
use crate::text::str_eq;

verus! {

/// The balance ledger. Balances live in two hash maps; `holders` lists the
/// keys of the stable-asset map, each once, so that a distribution can walk
/// them.
pub struct Ledger {
    balances: StringHashMap<u128>,
    bitcoin_balances: StringHashMap<u64>,
    holders: Vec<String>,
    yield_accumulator: u128,
    total_bitcoin_converted: u64,
    injective_config: InjectiveConfig,
}

/// The amounts of a secondary-asset map as naturals.
spec fn bitcoin_amounts(m: Map<Seq<char>, u64>) -> Map<Seq<char>, nat> {
    Map::new(|p: Seq<char>| m.contains_key(p), |p: Seq<char>| m[p] as nat)
}

/// Whether `p` is among the first `upto` names of `holders`.
spec fn listed(holders: Seq<String>, upto: int, p: Seq<char>) -> bool {
    exists|j: int| 0 <= j < upto && (#[trigger] holders[j])@ == p
}

/// The names among the first `upto` of `holders`.
spec fn listed_set(holders: Seq<String>, upto: int) -> Set<Seq<char>> {
    Set::new(|p: Seq<char>| listed(holders, upto, p))
}

/// No name occurs twice in `holders`.
spec fn distinct(holders: Seq<String>) -> bool {
    forall|i: int, j: int|
        0 <= i < j < holders.len() ==> (#[trigger] holders[i])@ != (#[trigger] holders[j])@
}

impl View for Ledger {
    type V = LedgerView;

    closed spec fn view(&self) -> LedgerView {
        LedgerView {
            balances: naturals(self.balances@),
            bitcoin_balances: bitcoin_amounts(self.bitcoin_balances@),
            yield_accumulator: self.yield_accumulator as nat,
            total_bitcoin_converted: self.total_bitcoin_converted as nat,
            injective_config: self.injective_config,
        }
    }
}

impl Ledger {
    /// The index of holders names exactly the principals with a stable-asset
    /// entry, each once, and both maps hold finitely many entries.
    pub closed spec fn wf(&self) -> bool {
        &&& distinct(self.holders@)
        &&& forall|p: Seq<char>|
            self.balances@.contains_key(p) <==> listed(self.holders@, self.holders@.len() as int, p)
        &&& self.balances@.dom().finite()
        &&& self.bitcoin_balances@.dom().finite()
    }

    /// A well-formed ledger has finitely many balances, so that they can be
    /// summed.
    pub proof fn lemma_wf_is_finite(&self)
        requires
            self.wf(),
        ensures
            self@.balances.dom().finite(),
            self@.bitcoin_balances.dom().finite(),
    {
        assert(self@.balances.dom() =~= self.balances@.dom());
        assert(self@.bitcoin_balances.dom() =~= self.bitcoin_balances@.dom());
    }

    /// A ledger without balances, with an empty pool and a blank
    /// configuration.
    pub fn new() -> (ledger: Ledger)
        ensures
            ledger.wf(),
            ledger@.balances == Map::<Seq<char>, nat>::empty(),
            ledger@.bitcoin_balances == Map::<Seq<char>, nat>::empty(),
            ledger@.yield_accumulator == 0,
            ledger@.total_bitcoin_converted == 0,
            ledger@.injective_config.contract_address@ == Seq::<char>::empty(),
            ledger@.injective_config.axelar_gateway@ == Seq::<char>::empty(),
            ledger@.injective_config.yield_collector@ == Seq::<char>::empty(),
            ledger@.injective_config.bitcoin_price_oracle@ == Seq::<char>::empty(),
    {
        let ledger = Ledger {
            balances: StringHashMap::new(),
            bitcoin_balances: StringHashMap::new(),
            holders: Vec::new(),
            yield_accumulator: 0,
            total_bitcoin_converted: 0,
            injective_config: InjectiveConfig::default(),
        };
        assert(ledger@.balances =~= Map::<Seq<char>, nat>::empty());
        assert(ledger@.bitcoin_balances =~= Map::<Seq<char>, nat>::empty());
        ledger
    }

    /// The recorded stable-asset balance, zero without an entry.
    fn balance(&self, principal: &str) -> (amount: u128)
        ensures
            amount == self@.balance_of(principal@),
            self.balances@.contains_key(principal@) ==> amount == self.balances@[principal@],
            !self.balances@.contains_key(principal@) ==> amount == 0,
    {
        match self.balances.get(principal) {
            Some(amount) => *amount,
            None => 0,
        }
    }

    /// The recorded secondary-asset balance, zero without an entry.
    fn bitcoin_balance(&self, principal: &str) -> (amount: u64)
        ensures
            amount == self@.bitcoin_of(principal@),
            self.bitcoin_balances@.contains_key(principal@) ==> amount
                == self.bitcoin_balances@[principal@],
            !self.bitcoin_balances@.contains_key(principal@) ==> amount == 0,
    {
        match self.bitcoin_balances.get(principal) {
            Some(amount) => *amount,
            None => 0,
        }
    }

    /// Records `amount` as the stable-asset balance of `principal`.
    fn set_balance(&mut self, principal: &str, amount: u128)
        requires
            old(self).wf(),
        ensures
            final(self).wf(),
            final(self)@ == (LedgerView {
                balances: old(self)@.balances.insert(principal@, amount as nat),
                ..old(self)@
            }),
    {
        if !self.balances.contains_key(principal) {
            self.holders.push(principal.to_owned());
            proof {
                let before = old(self).holders@;
                let after = self.holders@;
                let n = before.len() as int;
                assert(after[n]@ == principal@);
                assert forall|p: Seq<char>| listed(after, n + 1, p) <==> (listed(before, n, p) || p
                    == principal@) by {
                    if listed(before, n, p) {
                        let j = choose|j: int| 0 <= j < n && (#[trigger] before[j])@ == p;
                        assert(after[j]@ == p);
                    }
                    if listed(after, n + 1, p) && p != principal@ {
                        let j = choose|j: int| 0 <= j < n + 1 && (#[trigger] after[j])@ == p;
                        assert(before[j]@ == p);
                    }
                }
                assert forall|i: int, j: int| 0 <= i < j < after.len() implies (
                #[trigger] after[i])@ != (#[trigger] after[j])@ by {
                    if j == n {
                        assert(before[i]@ == after[i]@);
                        assert(listed(before, n, after[i]@));
                    } else {
                        assert(before[i]@ == after[i]@);
                        assert(before[j]@ == after[j]@);
                    }
                }
            }
        }
        self.balances.insert(principal.to_owned(), amount);
        proof {
            assert(self@.balances =~= old(self)@.balances.insert(principal@, amount as nat));
            assert(self@.bitcoin_balances == old(self)@.bitcoin_balances);
        }
    }

    /// Records `amount` as the secondary-asset balance of `principal`.
    fn set_bitcoin_balance(&mut self, principal: &str, amount: u64)
        requires
            old(self).wf(),
        ensures
            final(self).wf(),
            final(self).holders == old(self).holders,
            final(self).balances == old(self).balances,
            final(self)@ == (LedgerView {
                bitcoin_balances: old(self)@.bitcoin_balances.insert(principal@, amount as nat),
                ..old(self)@
            }),
    {
        self.bitcoin_balances.insert(principal.to_owned(), amount);
        proof {
            assert(self@.bitcoin_balances =~= old(self)@.bitcoin_balances.insert(
                principal@,
                amount as nat,
            ));
        }
    }

    /// Takes the name `principal` off the index of holders.
    fn unlist(&mut self, principal: &str)
        requires
            distinct(old(self).holders@),
        ensures
            distinct(final(self).holders@),
            forall|p: Seq<char>|
                listed(final(self).holders@, final(self).holders@.len() as int, p) <==> (listed(
                    old(self).holders@,
                    old(self).holders@.len() as int,
                    p,
                ) && p != principal@),
            final(self).balances == old(self).balances,
            final(self).bitcoin_balances == old(self).bitcoin_balances,
            final(self).yield_accumulator == old(self).yield_accumulator,
            final(self).total_bitcoin_converted == old(self).total_bitcoin_converted,
            final(self).injective_config == old(self).injective_config,
    {
        let n = self.holders.len();
        let mut i: usize = 0;
        while i < n
            invariant
                i <= n,
                n == self.holders@.len(),
                *self == *old(self),
                distinct(self.holders@),
                !listed(self.holders@, i as int, principal@),
            decreases n - i,
        {
            if str_eq(self.holders[i].as_str(), principal) {
                let ghost before = self.holders@;
                self.holders.remove(i);
                proof {
                    let after = self.holders@;
                    assert forall|a: int, b: int| 0 <= a < b < after.len() implies (
                    #[trigger] after[a])@ != (#[trigger] after[b])@ by {
                        let a0 = if a < i { a } else { a + 1 };
                        let b0 = if b < i { b } else { b + 1 };
                        assert(after[a] == before[a0]);
                        assert(after[b] == before[b0]);
                    }
                    assert forall|p: Seq<char>| listed(after, after.len() as int, p) <==> (listed(
                        before,
                        before.len() as int,
                        p,
                    ) && p != principal@) by {
                        if listed(after, after.len() as int, p) {
                            let j = choose|j: int|
                                0 <= j < after.len() && (#[trigger] after[j])@ == p;
                            let j0 = if j < i { j } else { j + 1 };
                            assert(before[j0]@ == p);
                            assert(before[i as int]@ == principal@);
                        }
                        if listed(before, before.len() as int, p) && p != principal@ {
                            let j = choose|j: int|
                                0 <= j < before.len() && (#[trigger] before[j])@ == p;
                            let j1 = if j < i { j } else { j - 1 };
                            assert(after[j1]@ == p);
                        }
                    }
                }
                return ;
            }
            proof {
                assert forall|j: int| 0 <= j < i + 1 implies (#[trigger] self.holders@[j])@
                    != principal@ by {
                    if j < i {
                        assert(!listed(self.holders@, i as int, principal@));
                    }
                }
            }
            i = i + 1;
        }
    }

    /// Removes the stable-asset entry of `principal`, if there is one.
    fn clear_balance(&mut self, principal: &str)
        requires
            old(self).wf(),
        ensures
            final(self).wf(),
            final(self)@ == (LedgerView {
                balances: old(self)@.balances.remove(principal@),
                ..old(self)@
            }),
    {
        self.balances.remove(principal);
        self.unlist(principal);
        proof {
            assert(self@.balances =~= old(self)@.balances.remove(principal@));
        }
    }

    /// Removes the secondary-asset entry of `principal`, if there is one.
    fn clear_bitcoin_balance(&mut self, principal: &str)
        requires
            old(self).wf(),
        ensures
            final(self).wf(),
            final(self)@ == (LedgerView {
                bitcoin_balances: old(self)@.bitcoin_balances.remove(principal@),
                ..old(self)@
            }),
    {
        self.bitcoin_balances.remove(principal);
        proof {
            assert(self@.bitcoin_balances =~= old(self)@.bitcoin_balances.remove(principal@));
        }
    }
}

/// One more name is listed exactly when it was listed before or is the one
/// just reached.
proof fn lemma_listed_step(holders: Seq<String>, upto: int, p: Seq<char>)
    requires
        0 <= upto < holders.len(),
    ensures
        listed(holders, upto + 1, p) <==> (listed(holders, upto, p) || holders[upto]@ == p),
{
    if listed(holders, upto, p) {
        let j = choose|j: int| 0 <= j < upto && (#[trigger] holders[j])@ == p;
        assert(0 <= j < upto + 1 && holders[j]@ == p);
    }
    if holders[upto]@ == p {
        assert(0 <= upto < upto + 1 && holders[upto]@ == p);
    }
}

/// A name is not listed before its own place in a list without repeats.
proof fn lemma_not_listed_before(holders: Seq<String>, at: int)
    requires
        distinct(holders),
        0 <= at < holders.len(),
    ensures
        !listed(holders, at, holders[at]@),
{
    if listed(holders, at, holders[at]@) {
        let j = choose|j: int| 0 <= j < at && (#[trigger] holders[j])@ == holders[at]@;
        assert(holders[j]@ != holders[at]@);
    }
}

/// Hands `bitcoin_amount` out to the holders of a stable-asset balance, each
/// receiving the floor of `balance * bitcoin_amount / total_yield`. All shares
/// are computed from the balances as they stand on entry, and nothing is
/// written unless every new balance fits.
pub fn distribute_bitcoin_to_users(
    ledger: &mut Ledger,
    bitcoin_amount: u64,
    total_yield: u128,
) -> (done: Result<(), LedgerError>)
    requires
        old(ledger).wf(),
        total_yield > 0,
    ensures
        final(ledger).wf(),
        old(ledger)@.distribution_fits(bitcoin_amount as nat, total_yield as nat) ==> done is Ok
            && final(ledger)@ == old(ledger)@.distribute(bitcoin_amount as nat, total_yield as nat),
        !old(ledger)@.distribution_fits(bitcoin_amount as nat, total_yield as nat) ==> done
            == Err::<(), LedgerError>(LedgerError::Overflow) && final(ledger)@ == old(ledger)@,
{
    let ghost start = old(ledger)@;
    let ghost names = old(ledger).holders@;
    let n = ledger.holders.len();
    let mut credited: Vec<u64> = Vec::new();
    let mut i: usize = 0;
    while i < n
        invariant
            i <= n,
            n == names.len(),
            total_yield > 0,
            *ledger == *old(ledger),
            ledger.wf(),
            start == ledger@,
            names == ledger.holders@,
            credited@.len() == i,
            forall|j: int|
                0 <= j < i ==> (#[trigger] credited@[j]) as nat == start.bitcoin_of(names[j]@)
                    + start.share(names[j]@, bitcoin_amount as nat, total_yield as nat),
        decreases n - i,
    {
        let balance = ledger.balance(ledger.holders[i].as_str());
        let held = ledger.bitcoin_balance(ledger.holders[i].as_str());
        proof {
            assert(listed(names, n as int, names[i as int]@));
            assert(ledger.balances@.contains_key(names[i as int]@));
            assert(start.balances.contains_key(names[i as int]@));
        }
        let share = match mul_div(balance, bitcoin_amount, total_yield) {
            Some(share) => share,
            None => {
                return Err(LedgerError::Overflow);
            },
        };
        let sum = match held.checked_add(share) {
            Some(sum) => sum,
            None => {
                return Err(LedgerError::Overflow);
            },
        };
        credited.push(sum);
        i = i + 1;
    }
    proof {
        assert forall|p: Seq<char>| #[trigger]
            start.balances.contains_key(p) implies start.bitcoin_of(p) + start.share(
            p,
            bitcoin_amount as nat,
            total_yield as nat,
        ) <= u64::MAX by {
            assert(ledger.balances@.contains_key(p));
            let j = choose|j: int| 0 <= j < n && (#[trigger] names[j])@ == p;
            assert(credited@[j] as nat == start.bitcoin_of(names[j]@) + start.share(
                names[j]@,
                bitcoin_amount as nat,
                total_yield as nat,
            ));
        }
        assert(listed_set(names, 0) =~= Set::<Seq<char>>::empty());
        assert(start.bitcoin_balances_after(
            listed_set(names, 0),
            bitcoin_amount as nat,
            total_yield as nat,
        ) =~= start.bitcoin_balances);
    }
    let mut k: usize = 0;
    while k < n
        invariant
            k <= n,
            n == names.len(),
            names == ledger.holders@,
            credited@.len() == n,
            ledger.wf(),
            start == old(ledger)@,
            forall|j: int|
                0 <= j < n ==> (#[trigger] credited@[j]) as nat == start.bitcoin_of(names[j]@)
                    + start.share(names[j]@, bitcoin_amount as nat, total_yield as nat),
            ledger@ == (LedgerView {
                bitcoin_balances: start.bitcoin_balances_after(
                    listed_set(names, k as int),
                    bitcoin_amount as nat,
                    total_yield as nat,
                ),
                ..start
            }),
        decreases n - k,
    {
        let name = ledger.holders[k].clone();
        let held = ledger.bitcoin_balance(name.as_str());
        let sum = credited[k];
        let ghost reached = listed_set(names, k as int);
        let ghost next = listed_set(names, k as int + 1);
        proof {
            lemma_not_listed_before(names, k as int);
            assert(!reached.contains(name@));
            assert(held as nat == start.bitcoin_of(name@));
            assert forall|p: Seq<char>| next.contains(p) <==> (reached.contains(p) || p
                == name@) by {
                lemma_listed_step(names, k as int, p);
            }
        }
        if sum > held {
            ledger.set_bitcoin_balance(name.as_str(), sum);
        }
        proof {
            assert(ledger@.bitcoin_balances =~= start.bitcoin_balances_after(
                next,
                bitcoin_amount as nat,
                total_yield as nat,
            ));
        }
        k = k + 1;
    }
    proof {
        assert(listed_set(names, n as int) =~= start.balances.dom()) by {
            assert forall|p: Seq<char>| listed_set(names, n as int).contains(p)
                <==> start.balances.dom().contains(p) by {
                assert(ledger.balances@.contains_key(p) <==> listed(names, n as int, p));
            }
        }
    }
    Ok(())
}

/// Converts the pooled yield once it has reached the threshold: the pool is
/// emptied, converted at the fixed rate and distributed with the pool's size
/// as divisor, and the running total grows by the amount produced. Below the
/// threshold nothing changes.
pub fn convert_yield_to_bitcoin(ledger: &mut Ledger) -> (done: Result<(), LedgerError>)
    requires
        old(ledger).wf(),
    ensures
        final(ledger).wf(),
        old(ledger)@.conversion_fits() ==> done is Ok && final(ledger)@ == old(ledger)@.convert(),
        !old(ledger)@.conversion_fits() ==> done == Err::<(), LedgerError>(LedgerError::Overflow)
            && final(ledger)@ == old(ledger)@,
        old(ledger)@.yield_accumulator < CONVERSION_THRESHOLD ==> done is Ok && final(ledger)@
            == old(ledger)@,
        final(ledger)@ == old(ledger)@.after(LedgerCall::ConvertYield),
{
    if ledger.yield_accumulator < CONVERSION_THRESHOLD {
        return Ok(());
    }
    let conversion_amount = ledger.yield_accumulator;
    if !usdc_conversion_fits(conversion_amount) {
        return Err(LedgerError::Overflow);
    }
    let bitcoin_amount = convert_usdc_to_bitcoin(conversion_amount);
    let new_total = match ledger.total_bitcoin_converted.checked_add(bitcoin_amount) {
        Some(total) => total,
        None => {
            return Err(LedgerError::Overflow);
        },
    };
    match distribute_bitcoin_to_users(ledger, bitcoin_amount, conversion_amount) {
        Ok(()) => {},
        Err(_) => {
            return Err(LedgerError::Overflow);
        },
    }
    ledger.yield_accumulator = 0;
    ledger.total_bitcoin_converted = new_total;
    Ok(())
}

/// Credits `amount` to the caller's own balance and to the pool, then
/// attempts a conversion. A caller can credit no identity but its own.
pub fn deposit_yield(
    ledger: &mut Ledger,
    caller: &str,
    amount: u128,
) -> (done: Result<(), LedgerError>)
    requires
        old(ledger).wf(),
    ensures
        final(ledger).wf(),
        old(ledger)@.deposit_fits(caller@, amount as nat) ==> done is Ok && final(ledger)@ == old(
            ledger,
        )@.deposit(caller@, amount as nat),
        !old(ledger)@.deposit_fits(caller@, amount as nat) ==> done == Err::<(), LedgerError>(
            LedgerError::Overflow,
        ) && final(ledger)@ == old(ledger)@,
        final(ledger)@ == old(ledger)@.after(
            LedgerCall::DepositYield { caller: caller@, amount: amount as nat },
        ),
{
    let had_entry = ledger.balances.contains_key(caller);
    let balance = ledger.balance(caller);
    let pool = ledger.yield_accumulator;
    let new_balance = match balance.checked_add(amount) {
        Some(sum) => sum,
        None => {
            return Err(LedgerError::Overflow);
        },
    };
    let new_pool = match pool.checked_add(amount) {
        Some(sum) => sum,
        None => {
            return Err(LedgerError::Overflow);
        },
    };
    ledger.set_balance(caller, new_balance);
    ledger.yield_accumulator = new_pool;
    assert(ledger@ == old(ledger)@.pooled(caller@, amount as nat));
    match convert_yield_to_bitcoin(ledger) {
        Ok(()) => Ok(()),
        Err(_) => {
            if had_entry {
                ledger.set_balance(caller, balance);
            } else {
                ledger.clear_balance(caller);
            }
            ledger.yield_accumulator = pool;
            proof {
                assert(old(ledger)@.balances.contains_key(caller@) == had_entry);
                assert(ledger@.balances =~= old(ledger)@.balances);
            }
            Err(LedgerError::Overflow)
        },
    }
}

/// Converts `usdc_amount` of the caller's own balance at the fixed rate,
/// apart from the pool.
pub fn manual_bitcoin_conversion(
    ledger: &mut Ledger,
    caller: &str,
    principal: String,
    usdc_amount: u128,
) -> (done: Result<(), LedgerError>)
    requires
        old(ledger).wf(),
    ensures
        final(ledger).wf(),
        done is Err ==> final(ledger)@ == old(ledger)@,
        done is Ok ==> final(ledger)@ == old(ledger)@.manual_conversion(
            principal@,
            usdc_amount as nat,
        ),
        done == (if caller@ != principal@ {
            Err::<(), LedgerError>(LedgerError::Unauthorized)
        } else if old(ledger)@.balance_of(principal@) < usdc_amount {
            Err(LedgerError::InsufficientBalance)
        } else if !old(ledger)@.manual_conversion_fits(principal@, usdc_amount as nat) {
            Err(LedgerError::Overflow)
        } else {
            Ok(())
        }),
        final(ledger)@ == old(ledger)@.after(
            LedgerCall::ManualConversion {
                caller: caller@,
                principal: principal@,
                usdc_amount: usdc_amount as nat,
            },
        ),
{
    if !is_self(caller, principal.as_str()) {
        return Err(LedgerError::Unauthorized);
    }
    let balance = ledger.balance(principal.as_str());
    if balance < usdc_amount {
        return Err(LedgerError::InsufficientBalance);
    }
    if !usdc_conversion_fits(usdc_amount) {
        return Err(LedgerError::Overflow);
    }
    let bitcoin_amount = convert_usdc_to_bitcoin(usdc_amount);
    let held = ledger.bitcoin_balance(principal.as_str());
    let new_held = match held.checked_add(bitcoin_amount) {
        Some(sum) => sum,
        None => {
            return Err(LedgerError::Overflow);
        },
    };
    let new_total = match ledger.total_bitcoin_converted.checked_add(bitcoin_amount) {
        Some(sum) => sum,
        None => {
            return Err(LedgerError::Overflow);
        },
    };
    if ledger.balances.contains_key(principal.as_str()) {
        ledger.set_balance(principal.as_str(), balance - usdc_amount);
    }
    ledger.set_bitcoin_balance(principal.as_str(), new_held);
    ledger.total_bitcoin_converted = new_total;
    Ok(())
}

/// Removes both balances of the caller's own identity and returns what they
/// held. A second call finds nothing and returns zeros.
pub fn emergency_withdraw(
    ledger: &mut Ledger,
    caller: &str,
    principal: String,
) -> (taken: Result<(u128, u64), LedgerError>)
    requires
        old(ledger).wf(),
    ensures
        final(ledger).wf(),
        caller@ != principal@ ==> taken == Err::<(u128, u64), LedgerError>(
            LedgerError::Unauthorized,
        ) && final(ledger)@ == old(ledger)@,
        caller@ == principal@ ==> final(ledger)@ == old(ledger)@.withdraw(principal@) && (
        taken matches Ok(pair) && pair.0 == old(ledger)@.balance_of(principal@) && pair.1 == old(
            ledger,
        )@.bitcoin_of(principal@)),
        final(ledger)@ == old(ledger)@.after(
            LedgerCall::EmergencyWithdraw { caller: caller@, principal: principal@ },
        ),
{
    if !is_self(caller, principal.as_str()) {
        return Err(LedgerError::Unauthorized);
    }
    let balance = ledger.balance(principal.as_str());
    let bitcoin_balance = ledger.bitcoin_balance(principal.as_str());
    ledger.clear_balance(principal.as_str());
    ledger.clear_bitcoin_balance(principal.as_str());
    Ok((balance, bitcoin_balance))
}

/// Replaces the configuration as a whole. Only the administrator may.
pub fn set_injective_config(
    ledger: &mut Ledger,
    caller: &str,
    config: InjectiveConfig,
) -> (done: Result<(), LedgerError>)
    requires
        old(ledger).wf(),
    ensures
        final(ledger).wf(),
        caller@ == admin_principal() ==> done is Ok && final(ledger)@ == old(ledger)@.with_config(
            config,
        ),
        caller@ != admin_principal() ==> done == Err::<(), LedgerError>(LedgerError::Unauthorized)
            && final(ledger)@ == old(ledger)@,
{
    if !is_admin(caller) {
        return Err(LedgerError::Unauthorized);
    }
    ledger.injective_config = config;
    Ok(())
}

/// The message that asks the vault to skim its yield for `recipient`.
pub fn trigger_injective_yield_skim(recipient: &str) -> (message: CrossChainMessage)
    ensures
        is_skim_request(message, recipient@),
{
    CrossChainMessage {
        action: "skim_yield".to_owned(),
        user: String::new(),
        amount: 0,
        recipient: Some(recipient.to_owned()),
    }
}

/// Credits a deposit that the bridge forwards for `user`, and answers with
/// the skim request to send back. The pool is not touched. Only a caller
/// whose name marks it as a bridge origin may.
pub fn execute_injective_deposit(
    ledger: &mut Ledger,
    caller: &str,
    user: String,
    amount: u128,
) -> (sent: Result<CrossChainMessage, LedgerError>)
    requires
        old(ledger).wf(),
    ensures
        final(ledger).wf(),
        sent is Err ==> final(ledger)@ == old(ledger)@,
        !valid_cross_chain_caller(caller@) ==> sent == Err::<CrossChainMessage, LedgerError>(
            LedgerError::Unauthorized,
        ),
        valid_cross_chain_caller(caller@) && old(ledger)@.balance_of(user@) + amount > u128::MAX
            ==> sent == Err::<CrossChainMessage, LedgerError>(LedgerError::Overflow),
        valid_cross_chain_caller(caller@) && old(ledger)@.balance_of(user@) + amount <= u128::MAX
            ==> final(ledger)@ == old(ledger)@.credit(user@, amount as nat) && (
        sent matches Ok(message) && is_skim_request(message, user@)),
        final(ledger)@ == old(ledger)@.after(
            LedgerCall::ForwardedDeposit { caller: caller@, user: user@, amount: amount as nat },
        ),
{
    if !is_valid_cross_chain_caller(caller) {
        return Err(LedgerError::Unauthorized);
    }
    let balance = ledger.balance(user.as_str());
    let new_balance = match balance.checked_add(amount) {
        Some(sum) => sum,
        None => {
            return Err(LedgerError::Overflow);
        },
    };
    ledger.set_balance(user.as_str(), new_balance);
    Ok(trigger_injective_yield_skim(user.as_str()))
}

/// Accepts a new price for the secondary asset from the administrator and
/// hands it back for the record. The conversion rate itself stays fixed.
pub fn set_bitcoin_price(caller: &str, price_usd: u128) -> (accepted: Result<u128, LedgerError>)
    ensures
        accepted == (if caller@ == admin_principal() {
            Ok::<u128, LedgerError>(price_usd)
        } else {
            Err(LedgerError::Unauthorized)
        }),
{
    if !is_admin(caller) {
        return Err(LedgerError::Unauthorized);
    }
    Ok(price_usd)
}

/// Both balances of `principal`.
pub fn get_balance(ledger: &Ledger, principal: String) -> (response: BalanceResponse)
    ensures
        response.principal == principal,
        response.balance == ledger@.balance_of(principal@),
        response.bitcoin_balance == ledger@.bitcoin_of(principal@),
{
    let balance = ledger.balance(principal.as_str());
    let bitcoin_balance = ledger.bitcoin_balance(principal.as_str());
    BalanceResponse { principal, balance, bitcoin_balance }
}

/// Both balances of the caller.
pub fn my_balance(ledger: &Ledger, caller: &str) -> (response: BalanceResponse)
    ensures
        response.principal@ == caller@,
        response.balance == ledger@.balance_of(caller@),
        response.bitcoin_balance == ledger@.bitcoin_of(caller@),
{
    get_balance(ledger, caller.to_owned())
}

/// The secondary-asset balance of `principal` and its value at 45 000 per
/// unit.
pub fn get_bitcoin_balance(ledger: &Ledger, principal: String) -> (response: BitcoinBalanceResponse)
    ensures
        response.principal == principal,
        response.bitcoin_balance == ledger@.bitcoin_of(principal@),
        response.usd_value == bitcoin_usd_value(ledger@.bitcoin_of(principal@)),
{
    let bitcoin_balance = ledger.bitcoin_balance(principal.as_str());
    let usd_value: u128 = bitcoin_balance as u128 * BITCOIN_PRICE_USD;
    BitcoinBalanceResponse { principal, bitcoin_balance, usd_value }
}

/// All that conversions have produced so far.
pub fn get_total_bitcoin_converted(ledger: &Ledger) -> (total: u64)
    ensures
        total == ledger@.total_bitcoin_converted,
{
    ledger.total_bitcoin_converted
}

/// The pooled yield that awaits conversion.
pub fn get_yield_accumulator(ledger: &Ledger) -> (pool: u128)
    ensures
        pool == ledger@.yield_accumulator,
{
    ledger.yield_accumulator
}

/// A copy of the configuration.
pub fn get_injective_config(ledger: &Ledger) -> (config: InjectiveConfig)
    ensures
        config == ledger@.injective_config,
{
    ledger.injective_config.duplicate()
}

} // verus!
