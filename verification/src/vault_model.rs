//! The vault as a mathematical state, and what each call makes of it.

use vstd::prelude::*;
use crate::sums::amount_at;
use crate::sums::total;
use crate::vault_types::is_amount_attribute;
use crate::vault_types::is_approval;
use crate::vault_types::is_balance_query;
use crate::vault_types::is_bridge_deposit;
use crate::vault_types::is_swap;
use crate::vault_types::is_text_attribute;
use crate::vault_types::is_transfer;
use crate::vault_types::Config;
use crate::vault_types::ExecuteMsg;
use crate::vault_types::HostFacts;
use crate::vault_types::HostRequest;
use crate::vault_types::IcpAction;
use crate::vault_types::QueryMsg;
use crate::vault_types::QueryResponse;
use crate::vault_types::Response;
use crate::vault_types::VaultError;

verus! {

/// The vault's state: its configuration, the principal recorded for each
/// address, the aggregate principal and the manager on the other chain.
pub struct VaultView {
    pub config: Config,
    pub principal_balances: Map<Seq<char>, nat>,
    pub total_principal: nat,
    pub icp_manager: Seq<char>,
}

impl VaultView {
    /// The principal recorded for `address`, zero without an entry.
    pub open spec fn principal_of(self, address: Seq<char>) -> nat {
        amount_at(self.principal_balances, address)
    }

    /// The aggregate equals the sum of the entries.
    pub open spec fn conserved(self) -> bool {
        &&& self.principal_balances.dom().finite()
        &&& total(self.principal_balances) == self.total_principal
    }

    /// The state with `amount` more principal recorded for `depositor`.
    pub open spec fn deposit(self, depositor: Seq<char>, amount: nat) -> VaultView {
        VaultView {
            principal_balances: self.principal_balances.insert(
                depositor,
                self.principal_of(depositor) + amount,
            ),
            total_principal: self.total_principal + amount,
            ..self
        }
    }

    /// The state with the configuration replaced as a whole.
    pub open spec fn with_config(self, config: Config) -> VaultView {
        VaultView { config, ..self }
    }

    /// The state with another manager.
    pub open spec fn with_manager(self, manager: Seq<char>) -> VaultView {
        VaultView { icp_manager: manager, ..self }
    }

    /// Whether `sender` is the manager.
    pub open spec fn is_manager(self, sender: Seq<char>) -> bool {
        sender == self.icp_manager
    }

    /// Whether `sender` may skim: the yield collector or the manager.
    pub open spec fn may_skim(self, sender: Seq<char>) -> bool {
        sender == self.config.yield_collector@ || sender == self.icp_manager
    }

    /// Whether a holding of `holding` leaves any yield.
    pub open spec fn yield_available(self, holding: nat) -> bool {
        holding > self.total_principal
    }

    /// The yield that a holding of `holding` realises: what it exceeds the
    /// recorded principal by, and never less than nothing.
    pub open spec fn realized_yield(self, holding: nat) -> nat {
        if holding > self.total_principal {
            (holding - self.total_principal) as nat
        } else {
            0
        }
    }
}

/// The state that holds `config` and `manager` and the principal that
/// `entries` record, taken one after the other as deposits.
pub open spec fn restored(
    config: Config,
    manager: Seq<char>,
    entries: Seq<(String, u128)>,
) -> VaultView
    decreases entries.len(),
{
    if entries.len() == 0 {
        VaultView {
            config,
            principal_balances: Map::empty(),
            total_principal: 0,
            icp_manager: manager,
        }
    } else {
        restored(config, manager, entries.drop_last()).deposit(
            entries.last().0@,
            entries.last().1 as nat,
        )
    }
}

/// Recording more entries never lowers the aggregate.
pub proof fn lemma_restored_total_grows(
    config: Config,
    manager: Seq<char>,
    entries: Seq<(String, u128)>,
    upto: int,
)
    requires
        0 <= upto <= entries.len(),
    ensures
        restored(config, manager, entries.take(upto)).total_principal <= restored(
            config,
            manager,
            entries,
        ).total_principal,
    decreases entries.len(),
{
    if upto == entries.len() {
        assert(entries.take(upto) =~= entries);
    } else {
        assert(entries.drop_last().take(upto) =~= entries.take(upto));
        lemma_restored_total_grows(config, manager, entries.drop_last(), upto);
    }
}

/// The response to a deposit of `amount`: a transfer of the stable token to
/// the vault, an allowance for the router, the swap into the yield-bearing
/// token, and two attributes.
pub open spec fn is_deposit_response(
    response: Response,
    config: Config,
    contract: Seq<char>,
    amount: u128,
) -> bool {
    &&& response.messages@.len() == 3
    &&& is_transfer(response.messages@[0], config.token_usdc@, contract, amount)
    &&& is_approval(response.messages@[1], config.token_usdc@, config.astroport_router@, amount)
    &&& is_swap(
        response.messages@[2],
        config.astroport_router@,
        config.token_usdc@,
        config.token_nusdc@,
        amount,
    )
    &&& response.attributes@.len() == 2
    &&& is_text_attribute(response.attributes@[0], "action"@, "deposit"@)
    &&& is_amount_attribute(response.attributes@[1], "amount"@, amount)
}

/// The response to a skim of `yield_amount`: an allowance for the router, the
/// swap back into the stable token, the bridge message that deposits the yield
/// for `recipient`, and two attributes, the first naming `action`.
pub open spec fn is_skim_response(
    response: Response,
    config: Config,
    recipient: Seq<char>,
    yield_amount: u128,
    action: Seq<char>,
) -> bool {
    &&& response.messages@.len() == 3
    &&& is_approval(
        response.messages@[0],
        config.token_nusdc@,
        config.astroport_router@,
        yield_amount,
    )
    &&& is_swap(
        response.messages@[1],
        config.astroport_router@,
        config.token_nusdc@,
        config.token_usdc@,
        yield_amount,
    )
    &&& is_bridge_deposit(
        response.messages@[2],
        config.axelar_gateway@,
        config.icp_canister_id@,
        recipient,
        yield_amount,
    )
    &&& response.attributes@.len() == 2
    &&& is_text_attribute(response.attributes@[0], "action"@, action)
    &&& is_amount_attribute(response.attributes@[1], "yield_amount"@, yield_amount)
}

/// The response to a change of manager: no instruction, two attributes.
pub open spec fn is_manager_response(response: Response, manager: Seq<char>) -> bool {
    &&& response.messages@.len() == 0
    &&& response.attributes@.len() == 2
    &&& is_text_attribute(response.attributes@[0], "action"@, "set_icp_manager"@)
    &&& is_text_attribute(response.attributes@[1], "manager"@, manager)
}

/// The response to a forwarded deposit: no instruction, three attributes.
pub open spec fn is_forwarded_deposit_response(
    response: Response,
    user: Seq<char>,
    amount: u128,
) -> bool {
    &&& response.messages@.len() == 0
    &&& response.attributes@.len() == 3
    &&& is_text_attribute(response.attributes@[0], "action"@, "icp_deposit"@)
    &&& is_text_attribute(response.attributes@[1], "user"@, user)
    &&& is_amount_attribute(response.attributes@[2], "amount"@, amount)
}

/// The response to a replaced configuration: no instruction, one attribute.
pub open spec fn is_config_response(response: Response) -> bool {
    &&& response.messages@.len() == 0
    &&& response.attributes@.len() == 1
    &&& is_text_attribute(response.attributes@[0], "action"@, "update_config"@)
}

/// What a deposit by `sender` does: it is refused where the aggregate would
/// overflow, and otherwise recorded and answered with the deposit response.
pub open spec fn deposit_outcome(
    before: VaultView,
    after: VaultView,
    contract: Seq<char>,
    sender: Seq<char>,
    amount: u128,
    result: Result<Response, VaultError>,
) -> bool {
    if before.total_principal + amount > u128::MAX {
        result == Err::<Response, VaultError>(VaultError::Overflow) && after == before
    } else {
        &&& after == before.deposit(sender, amount as nat)
        &&& result matches Ok(response)
        &&& is_deposit_response(response, before.config, contract, amount)
    }
}

/// What a skim for `recipient` yields once the caller is known to be authorized: a
/// refusal where the holding leaves no yield, else the skim response for the
/// surplus.
pub open spec fn yield_outcome(
    vault: VaultView,
    recipient: Seq<char>,
    holding: u128,
    action: Seq<char>,
    result: Result<Response, VaultError>,
) -> bool {
    if !vault.yield_available(holding as nat) {
        result == Err::<Response, VaultError>(VaultError::NoYieldAvailable)
    } else {
        &&& result matches Ok(response)
        &&& is_skim_response(
            response,
            vault.config,
            recipient,
            vault.realized_yield(holding as nat) as u128,
            action,
        )
    }
}

/// What a skim by `sender` yields.
pub open spec fn skim_outcome(
    vault: VaultView,
    sender: Seq<char>,
    holding: u128,
    result: Result<Response, VaultError>,
) -> bool {
    if !vault.may_skim(sender) {
        result == Err::<Response, VaultError>(VaultError::Unauthorized)
    } else {
        yield_outcome(vault, vault.config.yield_collector@, holding, "skim_yield"@, result)
    }
}

/// What a change of manager by `sender` does.
pub open spec fn set_manager_outcome(
    before: VaultView,
    after: VaultView,
    sender: Seq<char>,
    manager: Seq<char>,
    validated: Option<String>,
    result: Result<Response, VaultError>,
) -> bool {
    if !before.is_manager(sender) {
        result == Err::<Response, VaultError>(VaultError::Unauthorized) && after == before
    } else {
        match validated {
            None => result == Err::<Response, VaultError>(VaultError::InvalidAddress) && after
                == before,
            Some(address) => {
                &&& after == before.with_manager(address@)
                &&& result matches Ok(response)
                &&& is_manager_response(response, manager)
            },
        }
    }
}

/// What an action forwarded by `sender` does.
pub open spec fn from_icp_outcome(
    before: VaultView,
    after: VaultView,
    sender: Seq<char>,
    action: IcpAction,
    host: HostFacts,
    result: Result<Response, VaultError>,
) -> bool {
    if !before.is_manager(sender) {
        result == Err::<Response, VaultError>(VaultError::Unauthorized) && after == before
    } else {
        match action {
            IcpAction::Deposit { user, amount } => match host.validated_address {
                None => result == Err::<Response, VaultError>(VaultError::InvalidAddress) && after
                    == before,
                Some(address) => if before.total_principal + amount > u128::MAX {
                    result == Err::<Response, VaultError>(VaultError::Overflow) && after == before
                } else {
                    &&& after == before.deposit(address@, amount as nat)
                    &&& result matches Ok(response)
                    &&& is_forwarded_deposit_response(response, user@, amount)
                },
            },
            IcpAction::SkimYield { recipient } => after == before && yield_outcome(
                before,
                recipient@,
                host.nusdc_balance,
                "icp_skim_yield"@,
                result,
            ),
            IcpAction::UpdateConfig { config } => {
                &&& after == before.with_config(config)
                &&& result matches Ok(response)
                &&& is_config_response(response)
            },
        }
    }
}

/// What a call does, by the kind of message.
pub open spec fn execute_outcome(
    before: VaultView,
    after: VaultView,
    contract: Seq<char>,
    sender: Seq<char>,
    msg: ExecuteMsg,
    host: HostFacts,
    result: Result<Response, VaultError>,
) -> bool {
    match msg {
        ExecuteMsg::Deposit { amount } => deposit_outcome(
            before,
            after,
            contract,
            sender,
            amount,
            result,
        ),
        ExecuteMsg::SkimYield {  } => after == before && skim_outcome(
            before,
            sender,
            host.nusdc_balance,
            result,
        ),
        ExecuteMsg::SetIcpManager { manager } => set_manager_outcome(
            before,
            after,
            sender,
            manager@,
            host.validated_address,
            result,
        ),
        ExecuteMsg::ExecuteFromIcp { action } => from_icp_outcome(
            before,
            after,
            sender,
            action,
            host,
            result,
        ),
    }
}

/// What a call needs from the host before it can be handled. A sender who
/// is not authorized is refused before the host is asked anything.
pub open spec fn request_outcome(
    vault: VaultView,
    contract: Seq<char>,
    sender: Seq<char>,
    msg: ExecuteMsg,
    result: Result<HostRequest, VaultError>,
) -> bool {
    match msg {
        ExecuteMsg::Deposit { amount } => result matches Ok(HostRequest::Nothing),
        ExecuteMsg::SkimYield {  } => if !vault.may_skim(sender) {
            result == Err::<HostRequest, VaultError>(VaultError::Unauthorized)
        } else {
            asks_for_holding(vault, contract, result)
        },
        ExecuteMsg::SetIcpManager { manager } => if !vault.is_manager(sender) {
            result == Err::<HostRequest, VaultError>(VaultError::Unauthorized)
        } else {
            asks_for_address(manager@, result)
        },
        ExecuteMsg::ExecuteFromIcp { action } => if !vault.is_manager(sender) {
            result == Err::<HostRequest, VaultError>(VaultError::Unauthorized)
        } else {
            match action {
                IcpAction::Deposit { user, amount } => asks_for_address(user@, result),
                IcpAction::SkimYield { recipient } => asks_for_holding(vault, contract, result),
                IcpAction::UpdateConfig { config } => result matches Ok(HostRequest::Nothing),
            }
        },
    }
}

/// Whether `result` asks the host for the vault's own holding of the
/// yield-bearing token.
pub open spec fn asks_for_holding(
    vault: VaultView,
    contract: Seq<char>,
    result: Result<HostRequest, VaultError>,
) -> bool {
    &&& result matches Ok(HostRequest::QueryBalance { query })
    &&& is_balance_query(query, vault.config.token_nusdc@, contract)
}

/// Whether `result` asks the host to check `address`.
pub open spec fn asks_for_address(
    address: Seq<char>,
    result: Result<HostRequest, VaultError>,
) -> bool {
    &&& result matches Ok(HostRequest::ValidateAddress { address: asked })
    &&& asked@ == address
}

/// What a query answers.
pub open spec fn query_outcome(
    vault: VaultView,
    msg: QueryMsg,
    host: HostFacts,
    result: Result<QueryResponse, VaultError>,
) -> bool {
    match msg {
        QueryMsg::Config {  } => result matches Ok(QueryResponse::Config(config)) && config
            == vault.config,
        QueryMsg::Principal { address } => match host.validated_address {
            None => result == Err::<QueryResponse, VaultError>(VaultError::InvalidAddress),
            Some(valid) => result matches Ok(QueryResponse::Amount(amount)) && amount
                == vault.principal_of(valid@),
        },
        QueryMsg::TotalPrincipal {  } => result matches Ok(QueryResponse::Amount(amount)) && amount
            == vault.total_principal,
        QueryMsg::NusdcBalance {  } => result matches Ok(QueryResponse::Amount(amount)) && amount
            == host.nusdc_balance,
        QueryMsg::IcpManager {  } => result matches Ok(QueryResponse::Address(manager)) && manager@
            == vault.icp_manager,
    }
}

/// What a query needs from the host before it can be answered.
pub open spec fn query_request_outcome(
    vault: VaultView,
    contract: Seq<char>,
    msg: QueryMsg,
    request: HostRequest,
) -> bool {
    match msg {
        QueryMsg::Principal { address } => asks_for_address(
            address@,
            Ok::<HostRequest, VaultError>(request),
        ),
        QueryMsg::NusdcBalance {  } => asks_for_holding(
            vault,
            contract,
            Ok::<HostRequest, VaultError>(request),
        ),
        _ => request is Nothing,
    }
}

} // verus!
