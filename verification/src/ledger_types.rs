//! Values that the balance ledger takes and hands out.

use vstd::prelude::*;

verus! {

/// Why the balance ledger left its state as it was.
#[derive(Clone, Copy, Debug, PartialEq, Eq)]
pub enum LedgerError {
    /// The caller is not authorized for the operation.
    Unauthorized,
    /// The debit is more than the recorded balance.
    InsufficientBalance,
    /// An amount would no longer fit the integer that records it.
    Overflow,
}

/// A principal's two balances.
#[derive(Clone, Debug, PartialEq, Eq)]
pub struct BalanceResponse {
    pub principal: String,
    pub balance: u128,
    pub bitcoin_balance: u64,
}

/// A principal's secondary-asset balance and its value at the fixed rate.
#[derive(Clone, Debug, PartialEq, Eq)]
pub struct BitcoinBalanceResponse {
    pub principal: String,
    pub bitcoin_balance: u64,
    pub usd_value: u128,
}

/// Where the vault on the other chain and its collaborators are found.
#[derive(Clone, Debug, PartialEq, Eq)]
pub struct InjectiveConfig {
    pub contract_address: String,
    pub axelar_gateway: String,
    pub yield_collector: String,
    pub bitcoin_price_oracle: String,
}

impl InjectiveConfig {
    /// A copy with the same four addresses.
    pub fn duplicate(&self) -> (copy: InjectiveConfig)
        ensures
            copy == *self,
    {
        InjectiveConfig {
            contract_address: self.contract_address.clone(),
            axelar_gateway: self.axelar_gateway.clone(),
            yield_collector: self.yield_collector.clone(),
            bitcoin_price_oracle: self.bitcoin_price_oracle.clone(),
        }
    }
}

impl Default for InjectiveConfig {
    fn default() -> (config: InjectiveConfig)
        ensures
            config.contract_address@ == Seq::<char>::empty(),
            config.axelar_gateway@ == Seq::<char>::empty(),
            config.yield_collector@ == Seq::<char>::empty(),
            config.bitcoin_price_oracle@ == Seq::<char>::empty(),
    {
        InjectiveConfig {
            contract_address: String::new(),
            axelar_gateway: String::new(),
            yield_collector: String::new(),
            bitcoin_price_oracle: String::new(),
        }
    }
}

/// A message handed to the transport between the two ledgers.
#[derive(Clone, Debug, PartialEq, Eq)]
pub struct CrossChainMessage {
    pub action: String,
    pub user: String,
    pub amount: u128,
    pub recipient: Option<String>,
}

/// A request to convert part of a principal's balance.
#[derive(Clone, Debug, PartialEq, Eq)]
pub struct BitcoinConversionRequest {
    pub principal: String,
    pub usdc_amount: u128,
}

/// Whether `message` asks the vault to skim its yield for `recipient`.
pub open spec fn is_skim_request(message: CrossChainMessage, recipient: Seq<char>) -> bool {
    &&& message.action@ == "skim_yield"@
    &&& message.user@ == Seq::<char>::empty()
    &&& message.amount == 0
    &&& message.recipient matches Some(r)
    &&& r@ == recipient
}

} // verus!
