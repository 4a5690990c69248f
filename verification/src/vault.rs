//! The vault ledger: recorded principal, the realisation of yield, and the
//! handlers of the vault's calls.
//!
//! A handler is given the sender, the vault's own address and what the host
//! chain reported, and answers with the instructions to carry out. A call
//! that is refused changes nothing.

use vstd::prelude::*;
use vstd::hash_map::StringHashMap;
use crate::sums::lemma_total_bounds_entry;
use crate::sums::lemma_total_insert;
use crate::sums::naturals;
use crate::text::amount_text;
use crate::text::str_eq;
use crate::vault_model::asks_for_address;
use crate::vault_model::asks_for_holding;
use crate::vault_model::deposit_outcome;
use crate::vault_model::execute_outcome;
use crate::vault_model::from_icp_outcome;
use crate::vault_model::query_outcome;
use crate::vault_model::query_request_outcome;
use crate::vault_model::request_outcome;
use crate::vault_model::set_manager_outcome;
use crate::vault_model::skim_outcome;
use crate::vault_model::yield_outcome;
use crate::vault_model::restored;
use crate::vault_model::lemma_restored_total_grows;
use crate::vault_model::VaultView;
use crate::vault_types::is_approval;
use crate::vault_types::is_balance_query;
use crate::vault_types::is_bridge_deposit;
use crate::vault_types::is_swap;
use crate::vault_types::is_transfer;
use crate::vault_types::is_amount_attribute;
use crate::vault_types::is_text_attribute;
use crate::vault_types::ApproveMsg;
use crate::vault_types::AssetInfo;
use crate::vault_types::AstroportSwap;
use crate::vault_types::AstroportSwapMsg;
use crate::vault_types::Attribute;
use crate::vault_types::AxelarGmpMsg;
use crate::vault_types::BalanceQuery;
use crate::vault_types::Config;
use crate::vault_types::ContractMsg;
use crate::vault_types::Cw20ExecuteMsg;
use crate::vault_types::Cw20QueryMsg;
use crate::vault_types::ExecuteMsg;
use crate::vault_types::HostFacts;
use crate::vault_types::HostRequest;
use crate::vault_types::IcpAction;
use crate::vault_types::IcpPayload;
use crate::vault_types::InstantiateMsg;
use crate::vault_types::OfferAsset;
use crate::vault_types::QueryMsg;
use crate::vault_types::QueryResponse;
use crate::vault_types::Response;
use crate::vault_types::TransferMsg;
use crate::vault_types::VaultError;
use crate::vault_types::WasmExecute;
use crate::vault_types::WasmQuery;

verus! {

/// The vault ledger.
pub struct Vault {
    config: Config,
    principal_balances: StringHashMap<u128>,
    total_principal: u128,
    icp_manager: String,
}

impl View for Vault {
    type V = VaultView;

    closed spec fn view(&self) -> VaultView {
        VaultView {
            config: self.config,
            principal_balances: naturals(self.principal_balances@),
            total_principal: self.total_principal as nat,
            icp_manager: self.icp_manager@,
        }
    }
}

/// Whether `config` holds what `msg` names, with `collector` as the yield
/// collector.
pub open spec fn configured_by(config: Config, msg: InstantiateMsg, collector: String) -> bool {
    &&& config.token_usdc == msg.token_usdc
    &&& config.token_nusdc == msg.token_nusdc
    &&& config.astroport_router == msg.astroport_router
    &&& config.axelar_gateway == msg.axelar_gateway
    &&& config.icp_canister_id == msg.icp_canister_id
    &&& config.yield_collector == collector
    &&& config.pool_id_usdc_nusdc == msg.pool_id_usdc_nusdc
    &&& config.pool_id_nusdc_usdc == msg.pool_id_nusdc_usdc
}

impl Vault {
    /// The aggregate principal equals the sum of the recorded entries.
    pub open spec fn wf(&self) -> bool {
        self@.conserved()
    }

    /// The principal recorded for `address`, zero without an entry.
    fn principal(&self, address: &str) -> (amount: u128)
        ensures
            amount == self@.principal_of(address@),
    {
        match self.principal_balances.get(address) {
            Some(amount) => *amount,
            None => 0,
        }
    }

    /// Records `amount` more principal for `depositor`, unless the aggregate
    /// would overflow.
    fn record_deposit(&mut self, depositor: &str, amount: u128) -> (recorded: bool)
        requires
            old(self).wf(),
        ensures
            final(self).wf(),
            recorded == (old(self)@.total_principal + amount <= u128::MAX),
            recorded ==> final(self)@ == old(self)@.deposit(depositor@, amount as nat),
            !recorded ==> final(self)@ == old(self)@,
    {
        let new_total = match self.total_principal.checked_add(amount) {
            Some(sum) => sum,
            None => {
                return false;
            },
        };
        let held = self.principal(depositor);
        proof {
            lemma_total_bounds_entry(old(self)@.principal_balances, depositor@);
            lemma_total_insert(
                old(self)@.principal_balances,
                depositor@,
                (held + amount) as nat,
            );
        }
        self.principal_balances.insert(depositor.to_owned(), held + amount);
        self.total_principal = new_total;
        proof {
            assert(self@.principal_balances =~= old(self)@.principal_balances.insert(
                depositor@,
                (held + amount) as nat,
            ));
        }
        true
    }
}

/// Sets up a vault from `msg`. The two addresses in it are taken in the form
/// that the host chain validated; a refused one refuses the whole.
pub fn instantiate(
    msg: InstantiateMsg,
    yield_collector: Option<String>,
    icp_manager: Option<String>,
) -> (made: Result<Vault, VaultError>)
    ensures
        yield_collector is None || icp_manager is None ==> made is Err && made->Err_0
            == VaultError::InvalidAddress,
        yield_collector is Some && icp_manager is Some ==> (made matches Ok(vault) && vault.wf()
            && configured_by(vault@.config, msg, yield_collector->Some_0)
            && vault@.principal_balances == Map::<Seq<char>, nat>::empty() && vault@.total_principal
            == 0 && vault@.icp_manager == icp_manager->Some_0@),
{
    let collector = match yield_collector {
        Some(address) => address,
        None => {
            return Err(VaultError::InvalidAddress);
        },
    };
    let manager = match icp_manager {
        Some(address) => address,
        None => {
            return Err(VaultError::InvalidAddress);
        },
    };
    let vault = Vault {
        config: Config {
            token_usdc: msg.token_usdc,
            token_nusdc: msg.token_nusdc,
            astroport_router: msg.astroport_router,
            axelar_gateway: msg.axelar_gateway,
            icp_canister_id: msg.icp_canister_id,
            yield_collector: collector,
            pool_id_usdc_nusdc: msg.pool_id_usdc_nusdc,
            pool_id_nusdc_usdc: msg.pool_id_nusdc_usdc,
        },
        principal_balances: StringHashMap::new(),
        total_principal: 0,
        icp_manager: manager,
    };
    proof {
        assert(vault@.principal_balances =~= Map::<Seq<char>, nat>::empty());
    }
    Ok(vault)
}

/// Rebuilds a vault from what was kept of it: the configuration, the manager
/// and the principal entries, which are recorded one after the other. Entries
/// whose sum does not fit are refused.
pub fn restore(
    config: Config,
    icp_manager: String,
    entries: Vec<(String, u128)>,
) -> (made: Result<Vault, VaultError>)
    ensures
        restored(config, icp_manager@, entries@).total_principal <= u128::MAX ==> (
        made matches Ok(vault) && vault.wf() && vault@ == restored(
            config,
            icp_manager@,
            entries@,
        )),
        restored(config, icp_manager@, entries@).total_principal > u128::MAX ==> made is Err
            && made->Err_0 == VaultError::Overflow,
{
    let ghost manager = icp_manager@;
    let mut vault = Vault {
        config,
        principal_balances: StringHashMap::new(),
        total_principal: 0,
        icp_manager: icp_manager.clone(),
    };
    proof {
        assert(vault@.principal_balances =~= Map::<Seq<char>, nat>::empty());
        assert(entries@.take(0) =~= Seq::<(String, u128)>::empty());
    }
    let n = entries.len();
    let mut i: usize = 0;
    while i < n
        invariant
            i <= n,
            n == entries@.len(),
            manager == icp_manager@,
            vault.wf(),
            vault@ == restored(config, manager, entries@.take(i as int)),
        decreases n - i,
    {
        proof {
            assert(entries@.take(i + 1).drop_last() =~= entries@.take(i as int));
            assert(entries@.take(i + 1).last() == entries@[i as int]);
            assert(restored(config, manager, entries@.take(i + 1)) == restored(
                config,
                manager,
                entries@.take(i as int),
            ).deposit(entries@[i as int].0@, entries@[i as int].1 as nat));
            lemma_restored_total_grows(config, manager, entries@, i + 1);
        }
        if !vault.record_deposit(entries[i].0.as_str(), entries[i].1) {
            return Err(VaultError::Overflow);
        }
        i = i + 1;
    }
    proof {
        assert(entries@.take(n as int) =~= entries@);
    }
    Ok(vault)
}

/// An attribute that records a word.
fn text_attribute(key: &str, text: &str) -> (attribute: Attribute)
    ensures
        is_text_attribute(attribute, key@, text@),
{
    Attribute { key: key.to_owned(), value: text.to_owned() }
}

/// An attribute that records an amount.
fn amount_attribute(key: &str, amount: u128) -> (attribute: Attribute)
    ensures
        is_amount_attribute(attribute, key@, amount),
{
    Attribute { key: key.to_owned(), value: amount_text(amount) }
}

/// The call that transfers `amount` of `token` to `recipient`.
fn build_transfer_msg(token: &str, recipient: &str, amount: u128) -> (call: WasmExecute)
    ensures
        is_transfer(call, token@, recipient@, amount),
{
    WasmExecute {
        contract_addr: token.to_owned(),
        msg: ContractMsg::Token(
            Cw20ExecuteMsg {
                transfer: Some(TransferMsg { recipient: recipient.to_owned(), amount }),
                send: None,
                approve: None,
            },
        ),
    }
}

/// The call that lets `spender` spend `amount` of `token`.
fn build_approve_msg(token: &str, spender: &str, amount: u128) -> (call: WasmExecute)
    ensures
        is_approval(call, token@, spender@, amount),
{
    WasmExecute {
        contract_addr: token.to_owned(),
        msg: ContractMsg::Token(
            Cw20ExecuteMsg {
                transfer: None,
                send: None,
                approve: Some(ApproveMsg { spender: spender.to_owned(), amount }),
            },
        ),
    }
}

/// The call that asks `router` to swap `amount` of `offer` for `ask`.
fn build_swap(router: &str, offer: &str, ask: &str, amount: u128) -> (call: WasmExecute)
    ensures
        is_swap(call, router@, offer@, ask@, amount),
{
    WasmExecute {
        contract_addr: router.to_owned(),
        msg: ContractMsg::Swap(
            AstroportSwapMsg {
                swap: AstroportSwap {
                    offer_asset: OfferAsset {
                        info: AssetInfo::Token { contract_addr: offer.to_owned() },
                        amount,
                    },
                    ask_asset_info: AssetInfo::Token { contract_addr: ask.to_owned() },
                    minimum_receive: None,
                },
            },
        ),
    }
}

/// The swap of `amount` of the stable token into the yield-bearing token.
pub fn build_astroport_swap_msg(config: &Config, amount: u128) -> (call: WasmExecute)
    ensures
        is_swap(
            call,
            config.astroport_router@,
            config.token_usdc@,
            config.token_nusdc@,
            amount,
        ),
{
    build_swap(
        config.astroport_router.as_str(),
        config.token_usdc.as_str(),
        config.token_nusdc.as_str(),
        amount,
    )
}

/// The swap of `amount` of the yield-bearing token back into the stable
/// token.
pub fn build_astroport_swap_msg_nusdc_to_usdc(config: &Config, amount: u128) -> (call: WasmExecute)
    ensures
        is_swap(
            call,
            config.astroport_router@,
            config.token_nusdc@,
            config.token_usdc@,
            amount,
        ),
{
    build_swap(
        config.astroport_router.as_str(),
        config.token_nusdc.as_str(),
        config.token_usdc.as_str(),
        amount,
    )
}

/// The bridge message that carries `amount` to the balance ledger, to be
/// deposited there for `recipient_principal`.
pub fn build_axelar_gmp_msg(
    config: &Config,
    amount: u128,
    recipient_principal: String,
) -> (call: WasmExecute)
    ensures
        is_bridge_deposit(
            call,
            config.axelar_gateway@,
            config.icp_canister_id@,
            recipient_principal@,
            amount,
        ),
{
    let payload = IcpPayload {
        principal: recipient_principal,
        amount,
        action: "deposit_yield".to_owned(),
    };
    WasmExecute {
        contract_addr: config.axelar_gateway.clone(),
        msg: ContractMsg::Bridge(
            AxelarGmpMsg {
                destination_chain: "icp".to_owned(),
                destination_address: config.icp_canister_id.clone(),
                payload,
                symbol: "USDC".to_owned(),
                amount,
            },
        ),
    }
}

/// The question that asks the token contract `token` for the balance of
/// `address`.
pub fn query_cw20_balance(token: &str, address: &str) -> (query: WasmQuery)
    ensures
        is_balance_query(query, token@, address@),
{
    WasmQuery {
        contract_addr: token.to_owned(),
        msg: Cw20QueryMsg { balance: Some(BalanceQuery { address: address.to_owned() }) },
    }
}

/// Whether `sender` is the manager.
pub fn is_manager(vault: &Vault, sender: &str) -> (allowed: bool)
    ensures
        allowed == vault@.is_manager(sender@),
{
    str_eq(sender, vault.icp_manager.as_str())
}

/// Whether `sender` may skim: the yield collector or the manager.
pub fn may_skim(vault: &Vault, sender: &str) -> (allowed: bool)
    ensures
        allowed == vault@.may_skim(sender@),
{
    str_eq(sender, vault.config.yield_collector.as_str()) || str_eq(
        sender,
        vault.icp_manager.as_str(),
    )
}

/// Records a deposit of `amount` by `sender` and answers with the
/// instructions that move the funds into the yield-bearing token.
pub fn execute_deposit(
    vault: &mut Vault,
    contract: &str,
    sender: &str,
    amount: u128,
) -> (result: Result<Response, VaultError>)
    requires
        old(vault).wf(),
    ensures
        final(vault).wf(),
        deposit_outcome(old(vault)@, final(vault)@, contract@, sender@, amount, result),
{
    if !vault.record_deposit(sender, amount) {
        return Err(VaultError::Overflow);
    }
    let mut messages: Vec<WasmExecute> = Vec::new();
    messages.push(build_transfer_msg(vault.config.token_usdc.as_str(), contract, amount));
    messages.push(
        build_approve_msg(
            vault.config.token_usdc.as_str(),
            vault.config.astroport_router.as_str(),
            amount,
        ),
    );
    messages.push(build_astroport_swap_msg(&vault.config, amount));
    let mut attributes: Vec<Attribute> = Vec::new();
    attributes.push(text_attribute("action", "deposit"));
    attributes.push(amount_attribute("amount", amount));
    Ok(Response { messages, attributes })
}

/// The instructions that realise the yield in a holding of `holding` and
/// carry it to `recipient`: the surplus of the holding over the recorded
/// principal, or a refusal where there is none.
fn realize_yield(
    vault: &Vault,
    recipient: String,
    holding: u128,
    action: &str,
) -> (result: Result<Response, VaultError>)
    ensures
        yield_outcome(vault@, recipient@, holding, action@, result),
{
    if holding <= vault.total_principal {
        return Err(VaultError::NoYieldAvailable);
    }
    let yield_amount: u128 = holding - vault.total_principal;
    let mut messages: Vec<WasmExecute> = Vec::new();
    messages.push(
        build_approve_msg(
            vault.config.token_nusdc.as_str(),
            vault.config.astroport_router.as_str(),
            yield_amount,
        ),
    );
    messages.push(build_astroport_swap_msg_nusdc_to_usdc(&vault.config, yield_amount));
    messages.push(build_axelar_gmp_msg(&vault.config, yield_amount, recipient));
    let mut attributes: Vec<Attribute> = Vec::new();
    attributes.push(text_attribute("action", action));
    attributes.push(amount_attribute("yield_amount", yield_amount));
    Ok(Response { messages, attributes })
}

/// Skims the yield for the configured collector. Only the collector or the
/// manager may; `nusdc_balance` is the vault's holding of the yield-bearing
/// token as the token contract reports it.
pub fn execute_skim(vault: &Vault, sender: &str, nusdc_balance: u128) -> (result: Result<
    Response,
    VaultError,
>)
    ensures
        skim_outcome(vault@, sender@, nusdc_balance, result),
{
    if !may_skim(vault, sender) {
        return Err(VaultError::Unauthorized);
    }
    realize_yield(vault, vault.config.yield_collector.clone(), nusdc_balance, "skim_yield")
}

/// Hands the manager's role to another address. Only the current manager
/// may; `validated` is the new address in the form that the host accepted.
pub fn execute_set_icp_manager(
    vault: &mut Vault,
    sender: &str,
    manager: String,
    validated: Option<String>,
) -> (result: Result<Response, VaultError>)
    requires
        old(vault).wf(),
    ensures
        final(vault).wf(),
        set_manager_outcome(old(vault)@, final(vault)@, sender@, manager@, validated, result),
{
    if !is_manager(vault, sender) {
        return Err(VaultError::Unauthorized);
    }
    let address = match validated {
        Some(address) => address,
        None => {
            return Err(VaultError::InvalidAddress);
        },
    };
    vault.icp_manager = address;
    let mut attributes: Vec<Attribute> = Vec::new();
    attributes.push(text_attribute("action", "set_icp_manager"));
    attributes.push(text_attribute("manager", manager.as_str()));
    Ok(Response { messages: Vec::new(), attributes })
}

/// Carries out an action that the manager on the other chain forwards: a
/// deposit for a named user, a skim for a named recipient, or the
/// replacement of the configuration as a whole.
pub fn execute_from_icp(
    vault: &mut Vault,
    sender: &str,
    action: IcpAction,
    host: HostFacts,
) -> (result: Result<Response, VaultError>)
    requires
        old(vault).wf(),
    ensures
        final(vault).wf(),
        from_icp_outcome(old(vault)@, final(vault)@, sender@, action, host, result),
{
    if !is_manager(vault, sender) {
        return Err(VaultError::Unauthorized);
    }
    match action {
        IcpAction::Deposit { user, amount } => {
            let address = match host.validated_address {
                Some(address) => address,
                None => {
                    return Err(VaultError::InvalidAddress);
                },
            };
            if !vault.record_deposit(address.as_str(), amount) {
                return Err(VaultError::Overflow);
            }
            let mut attributes: Vec<Attribute> = Vec::new();
            attributes.push(text_attribute("action", "icp_deposit"));
            attributes.push(text_attribute("user", user.as_str()));
            attributes.push(amount_attribute("amount", amount));
            Ok(Response { messages: Vec::new(), attributes })
        },
        IcpAction::SkimYield { recipient } => realize_yield(
            vault,
            recipient,
            host.nusdc_balance,
            "icp_skim_yield",
        ),
        IcpAction::UpdateConfig { config } => {
            vault.config = config;
            let mut attributes: Vec<Attribute> = Vec::new();
            attributes.push(text_attribute("action", "update_config"));
            Ok(Response { messages: Vec::new(), attributes })
        },
    }
}

/// Handles a call by the kind of message.
pub fn execute(
    vault: &mut Vault,
    contract: &str,
    sender: &str,
    msg: ExecuteMsg,
    host: HostFacts,
) -> (result: Result<Response, VaultError>)
    requires
        old(vault).wf(),
    ensures
        final(vault).wf(),
        execute_outcome(old(vault)@, final(vault)@, contract@, sender@, msg, host, result),
{
    match msg {
        ExecuteMsg::Deposit { amount } => execute_deposit(vault, contract, sender, amount),
        ExecuteMsg::SkimYield {  } => execute_skim(vault, sender, host.nusdc_balance),
        ExecuteMsg::SetIcpManager { manager } => execute_set_icp_manager(
            vault,
            sender,
            manager,
            host.validated_address,
        ),
        ExecuteMsg::ExecuteFromIcp { action } => execute_from_icp(vault, sender, action, host),
    }
}

/// The request for the vault's own holding of the yield-bearing token.
fn holding_request(vault: &Vault, contract: &str) -> (result: Result<HostRequest, VaultError>)
    ensures
        asks_for_holding(vault@, contract@, result),
{
    Ok(
        HostRequest::QueryBalance {
            query: query_cw20_balance(vault.config.token_nusdc.as_str(), contract),
        },
    )
}

/// The request to check `address`.
fn address_request(address: &str) -> (result: Result<HostRequest, VaultError>)
    ensures
        asks_for_address(address@, result),
{
    Ok(HostRequest::ValidateAddress { address: address.to_owned() })
}

/// What has to be asked of the host before `msg` can be handled. A sender
/// who is not authorized is refused here, before the host is asked anything.
pub fn host_request(
    vault: &Vault,
    contract: &str,
    sender: &str,
    msg: &ExecuteMsg,
) -> (result: Result<HostRequest, VaultError>)
    ensures
        request_outcome(vault@, contract@, sender@, *msg, result),
{
    match msg {
        ExecuteMsg::Deposit { amount } => Ok(HostRequest::Nothing),
        ExecuteMsg::SkimYield {  } => {
            if !may_skim(vault, sender) {
                return Err(VaultError::Unauthorized);
            }
            holding_request(vault, contract)
        },
        ExecuteMsg::SetIcpManager { manager } => {
            if !is_manager(vault, sender) {
                return Err(VaultError::Unauthorized);
            }
            address_request(manager.as_str())
        },
        ExecuteMsg::ExecuteFromIcp { action } => {
            if !is_manager(vault, sender) {
                return Err(VaultError::Unauthorized);
            }
            match action {
                IcpAction::Deposit { user, amount } => address_request(user.as_str()),
                IcpAction::SkimYield { recipient } => holding_request(vault, contract),
                IcpAction::UpdateConfig { config } => Ok(HostRequest::Nothing),
            }
        },
    }
}

/// Answers a query from the vault's state and what the host reported.
pub fn query(
    vault: &Vault,
    msg: QueryMsg,
    host: HostFacts,
) -> (result: Result<QueryResponse, VaultError>)
    ensures
        query_outcome(vault@, msg, host, result),
{
    match msg {
        QueryMsg::Config {  } => Ok(QueryResponse::Config(vault.config.duplicate())),
        QueryMsg::Principal { address } => match host.validated_address {
            Some(valid) => Ok(QueryResponse::Amount(vault.principal(valid.as_str()))),
            None => Err(VaultError::InvalidAddress),
        },
        QueryMsg::TotalPrincipal {  } => Ok(QueryResponse::Amount(vault.total_principal)),
        QueryMsg::NusdcBalance {  } => Ok(QueryResponse::Amount(host.nusdc_balance)),
        QueryMsg::IcpManager {  } => Ok(QueryResponse::Address(vault.icp_manager.clone())),
    }
}

/// What has to be asked of the host before `msg` can be answered.
pub fn query_request(vault: &Vault, contract: &str, msg: &QueryMsg) -> (request: HostRequest)
    ensures
        query_request_outcome(vault@, contract@, *msg, request),
{
    match msg {
        QueryMsg::Principal { address } => HostRequest::ValidateAddress {
            address: address.clone(),
        },
        QueryMsg::NusdcBalance {  } => HostRequest::QueryBalance {
            query: query_cw20_balance(vault.config.token_nusdc.as_str(), contract),
        },
        _ => HostRequest::Nothing,
    }
}

} // verus!
