//! Messages that the vault takes and the instructions it hands out.
//!
//! Amounts are plain `u128`, addresses and token names plain strings. The
//! vault emits typed instructions; putting them on the wire is left to
//! whoever embeds it.

use vstd::prelude::*;
use crate::text::decimal;

verus! {

/// Why the vault refused a call. A refused call changes nothing.
#[derive(Clone, Copy, Debug, PartialEq, Eq)]
pub enum VaultError {
    /// The sender is not authorized for the operation.
    Unauthorized,
    /// The reported holding is no more than the recorded principal.
    NoYieldAvailable,
    /// The host chain does not accept the address named in the message.
    InvalidAddress,
    /// The recorded principal would no longer fit its integer.
    Overflow,
}

impl VaultError {
    /// The words that describe the refusal.
    pub fn message(&self) -> (text: String)
        ensures
            text@ == self.message_text(),
    {
        match self {
            VaultError::Unauthorized => "Unauthorized".to_owned(),
            VaultError::NoYieldAvailable => "No yield available".to_owned(),
            VaultError::InvalidAddress => "Invalid address".to_owned(),
            VaultError::Overflow => "Overflow".to_owned(),
        }
    }

    /// The words of `message`.
    pub open spec fn message_text(&self) -> Seq<char> {
        match self {
            VaultError::Unauthorized => "Unauthorized"@,
            VaultError::NoYieldAvailable => "No yield available"@,
            VaultError::InvalidAddress => "Invalid address"@,
            VaultError::Overflow => "Overflow"@,
        }
    }
}

/// Where the vault's tokens and collaborators are found, and who collects
/// the yield.
#[derive(Clone, Debug, PartialEq, Eq)]
pub struct Config {
    pub token_usdc: String,
    pub token_nusdc: String,
    pub astroport_router: String,
    pub axelar_gateway: String,
    pub icp_canister_id: String,
    pub yield_collector: String,
    pub pool_id_usdc_nusdc: u64,
    pub pool_id_nusdc_usdc: u64,
}

impl Config {
    /// A copy with the same fields.
    pub fn duplicate(&self) -> (copy: Config)
        ensures
            copy == *self,
    {
        Config {
            token_usdc: self.token_usdc.clone(),
            token_nusdc: self.token_nusdc.clone(),
            astroport_router: self.astroport_router.clone(),
            axelar_gateway: self.axelar_gateway.clone(),
            icp_canister_id: self.icp_canister_id.clone(),
            yield_collector: self.yield_collector.clone(),
            pool_id_usdc_nusdc: self.pool_id_usdc_nusdc,
            pool_id_nusdc_usdc: self.pool_id_nusdc_usdc,
        }
    }
}

/// What a vault is set up with.
#[derive(Clone, Debug, PartialEq, Eq)]
pub struct InstantiateMsg {
    pub token_usdc: String,
    pub token_nusdc: String,
    pub astroport_router: String,
    pub axelar_gateway: String,
    pub icp_canister_id: String,
    pub yield_collector: String,
    pub pool_id_usdc_nusdc: u64,
    pub pool_id_nusdc_usdc: u64,
    pub icp_manager: String,
}

/// An action that the manager on the other chain asks for.
#[derive(Clone, Debug, PartialEq, Eq)]
pub enum IcpAction {
    Deposit { user: String, amount: u128 },
    SkimYield { recipient: String },
    UpdateConfig { config: Config },
}

/// A call that changes the vault or makes it emit instructions.
#[derive(Clone, Debug, PartialEq, Eq)]
pub enum ExecuteMsg {
    Deposit { amount: u128 },
    SkimYield {  },
    SetIcpManager { manager: String },
    ExecuteFromIcp { action: IcpAction },
}

/// A read-only question to the vault.
#[derive(Clone, Debug, PartialEq, Eq)]
pub enum QueryMsg {
    Config {  },
    Principal { address: String },
    TotalPrincipal {  },
    NusdcBalance {  },
    IcpManager {  },
}

/// A token transfer.
#[derive(Clone, Debug, PartialEq, Eq)]
pub struct TransferMsg {
    pub recipient: String,
    pub amount: u128,
}

/// A token transfer that carries a message for the receiving contract.
#[derive(Clone, Debug, PartialEq, Eq)]
pub struct SendMsg {
    pub contract: String,
    pub amount: u128,
    pub msg: Vec<u8>,
}

/// An allowance for `spender`.
#[derive(Clone, Debug, PartialEq, Eq)]
pub struct ApproveMsg {
    pub spender: String,
    pub amount: u128,
}

/// A call to a token contract; exactly one of the three is set in the calls
/// that the vault makes.
#[derive(Clone, Debug, PartialEq, Eq)]
pub struct Cw20ExecuteMsg {
    pub transfer: Option<TransferMsg>,
    pub send: Option<SendMsg>,
    pub approve: Option<ApproveMsg>,
}

/// The holder whose token balance is asked for.
#[derive(Clone, Debug, PartialEq, Eq)]
pub struct BalanceQuery {
    pub address: String,
}

/// A question to a token contract.
#[derive(Clone, Debug, PartialEq, Eq)]
pub struct Cw20QueryMsg {
    pub balance: Option<BalanceQuery>,
}

/// An asset as the swap router names it.
#[derive(Clone, Debug, PartialEq, Eq)]
pub enum AssetInfo {
    Token { contract_addr: String },
    NativeToken { denom: String },
}

/// The asset and amount offered in a swap.
#[derive(Clone, Debug, PartialEq, Eq)]
pub struct OfferAsset {
    pub info: AssetInfo,
    pub amount: u128,
}

/// A swap of one asset for another.
#[derive(Clone, Debug, PartialEq, Eq)]
pub struct AstroportSwap {
    pub offer_asset: OfferAsset,
    pub ask_asset_info: AssetInfo,
    pub minimum_receive: Option<u128>,
}

/// A call to the swap router.
#[derive(Clone, Debug, PartialEq, Eq)]
pub struct AstroportSwapMsg {
    pub swap: AstroportSwap,
}

/// What the balance ledger on the other chain is asked to do.
#[derive(Clone, Debug, PartialEq, Eq)]
pub struct IcpPayload {
    pub principal: String,
    pub amount: u128,
    pub action: String,
}

/// A call to the bridge gateway, with the payload still in typed form.
#[derive(Clone, Debug, PartialEq, Eq)]
pub struct AxelarGmpMsg {
    pub destination_chain: String,
    pub destination_address: String,
    pub payload: IcpPayload,
    pub symbol: String,
    pub amount: u128,
}

/// The body of a call to another contract.
#[derive(Clone, Debug, PartialEq, Eq)]
pub enum ContractMsg {
    Token(Cw20ExecuteMsg),
    Swap(AstroportSwapMsg),
    Bridge(AxelarGmpMsg),
}

/// An instruction to call the contract at `contract_addr`, without funds.
#[derive(Clone, Debug, PartialEq, Eq)]
pub struct WasmExecute {
    pub contract_addr: String,
    pub msg: ContractMsg,
}

/// A key and value that describe what a call did. An amount is written as
/// its decimal numeral.
#[derive(Clone, Debug, PartialEq, Eq)]
pub struct Attribute {
    pub key: String,
    pub value: String,
}

/// What a successful call hands back: instructions to carry out, in order,
/// and attributes for the record.
#[derive(Clone, Debug, PartialEq, Eq)]
pub struct Response {
    pub messages: Vec<WasmExecute>,
    pub attributes: Vec<Attribute>,
}

/// A question to put to the token contract at `contract_addr`.
#[derive(Clone, Debug, PartialEq, Eq)]
pub struct WasmQuery {
    pub contract_addr: String,
    pub msg: Cw20QueryMsg,
}

/// What has to be asked of the host chain before a message can be handled.
#[derive(Clone, Debug, PartialEq, Eq)]
pub enum HostRequest {
    /// The message needs nothing from the host.
    Nothing,
    /// The host has to check this address and give its canonical form.
    ValidateAddress { address: String },
    /// The host has to put this question to the token contract.
    QueryBalance { query: WasmQuery },
}

/// What the host chain reported. A field that was not asked for is not read.
#[derive(Clone, Debug, PartialEq, Eq)]
pub struct HostFacts {
    /// The canonical form of the address named in the message, or `None`
    /// where the host refused it.
    pub validated_address: Option<String>,
    /// The vault's own holding of the yield-bearing token.
    pub nusdc_balance: u128,
}

/// The answer to a query.
#[derive(Clone, Debug, PartialEq, Eq)]
pub enum QueryResponse {
    Config(Config),
    Amount(u128),
    Address(String),
}

/// Whether `call` transfers `amount` of `token` to `recipient`.
pub open spec fn is_transfer(
    call: WasmExecute,
    token: Seq<char>,
    recipient: Seq<char>,
    amount: u128,
) -> bool {
    &&& call.contract_addr@ == token
    &&& call.msg matches ContractMsg::Token(m)
    &&& m.send is None
    &&& m.approve is None
    &&& m.transfer matches Some(t)
    &&& t.recipient@ == recipient
    &&& t.amount == amount
}

/// Whether `call` lets `spender` spend `amount` of `token`.
pub open spec fn is_approval(
    call: WasmExecute,
    token: Seq<char>,
    spender: Seq<char>,
    amount: u128,
) -> bool {
    &&& call.contract_addr@ == token
    &&& call.msg matches ContractMsg::Token(m)
    &&& m.transfer is None
    &&& m.send is None
    &&& m.approve matches Some(a)
    &&& a.spender@ == spender
    &&& a.amount == amount
}

/// Whether `call` asks `router` to swap `amount` of the token `offer` for the
/// token `ask`, without a minimum.
pub open spec fn is_swap(
    call: WasmExecute,
    router: Seq<char>,
    offer: Seq<char>,
    ask: Seq<char>,
    amount: u128,
) -> bool {
    &&& call.contract_addr@ == router
    &&& call.msg matches ContractMsg::Swap(m)
    &&& m.swap.minimum_receive is None
    &&& m.swap.offer_asset.amount == amount
    &&& m.swap.offer_asset.info matches AssetInfo::Token { contract_addr: offered }
    &&& offered@ == offer
    &&& m.swap.ask_asset_info matches AssetInfo::Token { contract_addr: asked }
    &&& asked@ == ask
}

/// Whether `call` asks `gateway` to carry `amount` of yield to the balance
/// ledger at `canister`, to be deposited for `recipient`.
pub open spec fn is_bridge_deposit(
    call: WasmExecute,
    gateway: Seq<char>,
    canister: Seq<char>,
    recipient: Seq<char>,
    amount: u128,
) -> bool {
    &&& call.contract_addr@ == gateway
    &&& call.msg matches ContractMsg::Bridge(m)
    &&& m.destination_chain@ == "icp"@
    &&& m.destination_address@ == canister
    &&& m.symbol@ == "USDC"@
    &&& m.amount == amount
    &&& m.payload.principal@ == recipient
    &&& m.payload.amount == amount
    &&& m.payload.action@ == "deposit_yield"@
}

/// Whether `attribute` records the word `text` under `key`.
pub open spec fn is_text_attribute(attribute: Attribute, key: Seq<char>, text: Seq<char>) -> bool {
    &&& attribute.key@ == key
    &&& attribute.value@ == text
}

/// Whether `attribute` records `amount` under `key`, as a decimal numeral.
pub open spec fn is_amount_attribute(attribute: Attribute, key: Seq<char>, amount: u128) -> bool {
    &&& attribute.key@ == key
    &&& attribute.value@ == decimal(amount as nat)
}

/// Whether `query` asks the token contract `token` for the balance of
/// `holder`.
pub open spec fn is_balance_query(query: WasmQuery, token: Seq<char>, holder: Seq<char>) -> bool {
    &&& query.contract_addr@ == token
    &&& query.msg.balance matches Some(b)
    &&& b.address@ == holder
}

} // verus!
