use yield_vault::vault::build_astroport_swap_msg;
use yield_vault::vault::build_astroport_swap_msg_nusdc_to_usdc;
use yield_vault::vault::build_axelar_gmp_msg;
use yield_vault::vault::execute;
use yield_vault::vault::execute_deposit;
use yield_vault::vault::execute_from_icp;
use yield_vault::vault::execute_set_icp_manager;
use yield_vault::vault::execute_skim;
use yield_vault::vault::host_request;
use yield_vault::vault::instantiate;
use yield_vault::vault::is_manager;
use yield_vault::vault::may_skim;
use yield_vault::vault::query;
use yield_vault::vault::query_cw20_balance;
use yield_vault::vault::query_request;
use yield_vault::vault::Vault;
use yield_vault::vault_types::ApproveMsg;
use yield_vault::vault_types::AssetInfo;
use yield_vault::vault_types::AstroportSwap;
use yield_vault::vault_types::AstroportSwapMsg;
use yield_vault::vault_types::Attribute;
use yield_vault::vault_types::AxelarGmpMsg;
use yield_vault::vault_types::BalanceQuery;
use yield_vault::vault_types::Config;
use yield_vault::vault_types::ContractMsg;
use yield_vault::vault_types::Cw20ExecuteMsg;
use yield_vault::vault_types::Cw20QueryMsg;
use yield_vault::vault_types::ExecuteMsg;
use yield_vault::vault_types::HostFacts;
use yield_vault::vault_types::HostRequest;
use yield_vault::vault_types::IcpAction;
use yield_vault::vault_types::IcpPayload;
use yield_vault::vault_types::InstantiateMsg;
use yield_vault::vault_types::OfferAsset;
use yield_vault::vault_types::QueryMsg;
use yield_vault::vault_types::QueryResponse;
use yield_vault::vault_types::Response;
use yield_vault::vault_types::SendMsg;
use yield_vault::vault_types::TransferMsg;
use yield_vault::vault_types::VaultError;
use yield_vault::vault_types::WasmExecute;
use yield_vault::vault_types::WasmQuery;

const VAULT: &str = "inj1vault";

fn setup_msg() -> InstantiateMsg {
    InstantiateMsg {
        token_usdc: "usdc".to_string(),
        token_nusdc: "nusdc".to_string(),
        astroport_router: "router".to_string(),
        axelar_gateway: "gateway".to_string(),
        icp_canister_id: "canister".to_string(),
        yield_collector: "Collector".to_string(),
        pool_id_usdc_nusdc: 1,
        pool_id_nusdc_usdc: 2,
        icp_manager: "Manager".to_string(),
    }
}

fn config() -> Config {
    Config {
        token_usdc: "usdc".to_string(),
        token_nusdc: "nusdc".to_string(),
        astroport_router: "router".to_string(),
        axelar_gateway: "gateway".to_string(),
        icp_canister_id: "canister".to_string(),
        yield_collector: "collector".to_string(),
        pool_id_usdc_nusdc: 1,
        pool_id_nusdc_usdc: 2,
    }
}

fn vault() -> Vault {
    instantiate(setup_msg(), Some("collector".to_string()), Some("manager".to_string())).unwrap()
}

fn nothing() -> HostFacts {
    HostFacts { validated_address: None, nusdc_balance: 0 }
}

fn holding(nusdc_balance: u128) -> HostFacts {
    HostFacts { validated_address: None, nusdc_balance }
}

fn address(text: &str) -> HostFacts {
    HostFacts { validated_address: Some(text.to_string()), nusdc_balance: 0 }
}

fn total(vault: &Vault) -> u128 {
    match query(vault, QueryMsg::TotalPrincipal {}, nothing()) {
        Ok(QueryResponse::Amount(amount)) => amount,
        other => panic!("unexpected answer {:?}", other),
    }
}

fn principal(vault: &Vault, who: &str) -> u128 {
    match query(vault, QueryMsg::Principal { address: who.to_string() }, address(who)) {
        Ok(QueryResponse::Amount(amount)) => amount,
        other => panic!("unexpected answer {:?}", other),
    }
}

fn text(key: &str, value: &str) -> Attribute {
    Attribute { key: key.to_string(), value: value.to_string() }
}

fn amount(key: &str, value: u128) -> Attribute {
    Attribute { key: key.to_string(), value: value.to_string() }
}

fn approve(token: &str, spender: &str, value: u128) -> WasmExecute {
    WasmExecute {
        contract_addr: token.to_string(),
        msg: ContractMsg::Token(Cw20ExecuteMsg {
            transfer: None,
            send: None,
            approve: Some(ApproveMsg { spender: spender.to_string(), amount: value }),
        }),
    }
}

fn swap(router: &str, offer: &str, ask: &str, value: u128) -> WasmExecute {
    WasmExecute {
        contract_addr: router.to_string(),
        msg: ContractMsg::Swap(AstroportSwapMsg {
            swap: AstroportSwap {
                offer_asset: OfferAsset {
                    info: AssetInfo::Token { contract_addr: offer.to_string() },
                    amount: value,
                },
                ask_asset_info: AssetInfo::Token { contract_addr: ask.to_string() },
                minimum_receive: None,
            },
        }),
    }
}

fn bridge(recipient: &str, value: u128) -> WasmExecute {
    WasmExecute {
        contract_addr: "gateway".to_string(),
        msg: ContractMsg::Bridge(AxelarGmpMsg {
            destination_chain: "icp".to_string(),
            destination_address: "canister".to_string(),
            payload: IcpPayload {
                principal: recipient.to_string(),
                amount: value,
                action: "deposit_yield".to_string(),
            },
            symbol: "USDC".to_string(),
            amount: value,
        }),
    }
}

fn skim_response(recipient: &str, value: u128, action: &str) -> Response {
    Response {
        messages: vec![
            approve("nusdc", "router", value),
            swap("router", "nusdc", "usdc", value),
            bridge(recipient, value),
        ],
        attributes: vec![text("action", action), amount("yield_amount", value)],
    }
}

#[test]
fn instantiate_takes_validated_addresses() {
    let vault = vault();
    assert_eq!(query(&vault, QueryMsg::Config {}, nothing()), Ok(QueryResponse::Config(config())));
    assert_eq!(
        query(&vault, QueryMsg::IcpManager {}, nothing()),
        Ok(QueryResponse::Address("manager".to_string()))
    );
    assert_eq!(total(&vault), 0);
    assert_eq!(principal(&vault, "anyone"), 0);
}

#[test]
fn instantiate_refuses_invalid_addresses() {
    assert!(matches!(
        instantiate(setup_msg(), None, Some("manager".to_string())),
        Err(VaultError::InvalidAddress)
    ));
    assert!(matches!(
        instantiate(setup_msg(), Some("collector".to_string()), None),
        Err(VaultError::InvalidAddress)
    ));
    assert!(matches!(instantiate(setup_msg(), None, None), Err(VaultError::InvalidAddress)));
}

#[test]
fn deposit_records_principal_and_emits_swap() {
    let mut vault = vault();
    let response = execute_deposit(&mut vault, VAULT, "alice", 1_000);
    assert_eq!(
        response,
        Ok(Response {
            messages: vec![
                WasmExecute {
                    contract_addr: "usdc".to_string(),
                    msg: ContractMsg::Token(Cw20ExecuteMsg {
                        transfer: Some(TransferMsg {
                            recipient: VAULT.to_string(),
                            amount: 1_000,
                        }),
                        send: None,
                        approve: None,
                    }),
                },
                approve("usdc", "router", 1_000),
                swap("router", "usdc", "nusdc", 1_000),
            ],
            attributes: vec![text("action", "deposit"), amount("amount", 1_000)],
        })
    );
    assert_eq!(principal(&vault, "alice"), 1_000);
    assert_eq!(total(&vault), 1_000);
}

#[test]
fn total_principal_is_the_sum_of_entries() {
    let mut vault = vault();
    assert!(execute_deposit(&mut vault, VAULT, "alice", 1_000).is_ok());
    assert!(execute_deposit(&mut vault, VAULT, "bob", 250).is_ok());
    assert!(execute_deposit(&mut vault, VAULT, "alice", 7).is_ok());
    assert!(execute_from_icp(
        &mut vault,
        "manager",
        IcpAction::Deposit { user: "Carol".to_string(), amount: 40 },
        address("carol"),
    )
    .is_ok());
    assert!(execute_deposit(&mut vault, VAULT, "dave", 0).is_ok());
    assert_eq!(principal(&vault, "alice"), 1_007);
    assert_eq!(principal(&vault, "bob"), 250);
    assert_eq!(principal(&vault, "carol"), 40);
    assert_eq!(principal(&vault, "dave"), 0);
    assert_eq!(
        total(&vault),
        principal(&vault, "alice")
            + principal(&vault, "bob")
            + principal(&vault, "carol")
            + principal(&vault, "dave")
    );
    assert_eq!(total(&vault), 1_297);
}

#[test]
fn deposit_that_overflows_is_refused() {
    let mut vault = vault();
    assert!(execute_deposit(&mut vault, VAULT, "alice", u128::MAX).is_ok());
    assert_eq!(execute_deposit(&mut vault, VAULT, "bob", 1), Err(VaultError::Overflow));
    assert_eq!(principal(&vault, "bob"), 0);
    assert_eq!(total(&vault), u128::MAX);
    assert_eq!(
        execute_from_icp(
            &mut vault,
            "manager",
            IcpAction::Deposit { user: "bob".to_string(), amount: 1 },
            address("bob"),
        ),
        Err(VaultError::Overflow)
    );
    assert_eq!(total(&vault), u128::MAX);
}

#[test]
fn scenario_skim_without_yield_is_refused() {
    let mut vault = vault();
    assert!(execute_deposit(&mut vault, VAULT, "alice", 500).is_ok());
    assert_eq!(execute_skim(&vault, "collector", 500), Err(VaultError::NoYieldAvailable));
    assert_eq!(execute_skim(&vault, "collector", 499), Err(VaultError::NoYieldAvailable));
    assert_eq!(execute_skim(&vault, "collector", 0), Err(VaultError::NoYieldAvailable));
    assert_eq!(total(&vault), 500);
    assert_eq!(principal(&vault, "alice"), 500);
    assert_eq!(query(&vault, QueryMsg::Config {}, nothing()), Ok(QueryResponse::Config(config())));
}

#[test]
fn skim_realizes_surplus_over_principal() {
    let mut vault = vault();
    assert!(execute_deposit(&mut vault, VAULT, "alice", 500).is_ok());
    assert_eq!(
        execute_skim(&vault, "collector", 501),
        Ok(skim_response("collector", 1, "skim_yield"))
    );
    assert_eq!(
        execute_skim(&vault, "manager", 725),
        Ok(skim_response("collector", 225, "skim_yield"))
    );
    assert_eq!(total(&vault), 500);
}

#[test]
fn skim_of_empty_vault_takes_the_whole_holding() {
    let vault = vault();
    assert_eq!(
        execute_skim(&vault, "collector", u128::MAX),
        Ok(skim_response("collector", u128::MAX, "skim_yield"))
    );
}

#[test]
fn skim_is_for_collector_or_manager() {
    let mut vault = vault();
    assert!(execute_deposit(&mut vault, VAULT, "alice", 500).is_ok());
    assert_eq!(execute_skim(&vault, "alice", 900), Err(VaultError::Unauthorized));
    assert_eq!(execute_skim(&vault, "", 900), Err(VaultError::Unauthorized));
    assert_eq!(execute_skim(&vault, "collector2", 900), Err(VaultError::Unauthorized));
    assert_eq!(execute_skim(&vault, "alice", 0), Err(VaultError::Unauthorized));
    assert!(may_skim(&vault, "collector"));
    assert!(may_skim(&vault, "manager"));
    assert!(!may_skim(&vault, "alice"));
    assert!(is_manager(&vault, "manager"));
    assert!(!is_manager(&vault, "collector"));
}

#[test]
fn manager_is_rotated_by_manager_only() {
    let mut vault = vault();
    assert_eq!(
        execute_set_icp_manager(
            &mut vault,
            "alice",
            "Next".to_string(),
            Some("next".to_string())
        ),
        Err(VaultError::Unauthorized)
    );
    assert_eq!(
        execute_set_icp_manager(&mut vault, "manager", "???".to_string(), None),
        Err(VaultError::InvalidAddress)
    );
    assert!(is_manager(&vault, "manager"));
    assert_eq!(
        execute_set_icp_manager(
            &mut vault,
            "manager",
            "Next".to_string(),
            Some("next".to_string())
        ),
        Ok(Response {
            messages: vec![],
            attributes: vec![text("action", "set_icp_manager"), text("manager", "Next")],
        })
    );
    assert!(is_manager(&vault, "next"));
    assert!(!is_manager(&vault, "manager"));
    assert!(!is_manager(&vault, "Next"));
    assert_eq!(
        execute_set_icp_manager(
            &mut vault,
            "manager",
            "manager".to_string(),
            Some("manager".to_string())
        ),
        Err(VaultError::Unauthorized)
    );
    assert_eq!(
        query(&vault, QueryMsg::IcpManager {}, nothing()),
        Ok(QueryResponse::Address("next".to_string()))
    );
}

#[test]
fn forwarded_actions_are_for_manager_only() {
    let mut vault = vault();
    assert_eq!(
        execute_from_icp(
            &mut vault,
            "collector",
            IcpAction::Deposit { user: "bob".to_string(), amount: 5 },
            address("bob"),
        ),
        Err(VaultError::Unauthorized)
    );
    assert_eq!(
        execute_from_icp(
            &mut vault,
            "collector",
            IcpAction::SkimYield { recipient: "x".to_string() },
            holding(100),
        ),
        Err(VaultError::Unauthorized)
    );
    let mut other = config();
    other.token_usdc = "other".to_string();
    assert_eq!(
        execute_from_icp(
            &mut vault,
            "alice",
            IcpAction::UpdateConfig { config: other },
            nothing(),
        ),
        Err(VaultError::Unauthorized)
    );
    assert_eq!(total(&vault), 0);
    assert_eq!(query(&vault, QueryMsg::Config {}, nothing()), Ok(QueryResponse::Config(config())));
}

#[test]
fn forwarded_deposit_credits_validated_address() {
    let mut vault = vault();
    assert_eq!(
        execute_from_icp(
            &mut vault,
            "manager",
            IcpAction::Deposit { user: "BOB".to_string(), amount: 5 },
            address("bob"),
        ),
        Ok(Response {
            messages: vec![],
            attributes: vec![
                text("action", "icp_deposit"),
                text("user", "BOB"),
                amount("amount", 5),
            ],
        })
    );
    assert_eq!(principal(&vault, "bob"), 5);
    assert_eq!(principal(&vault, "BOB"), 0);
    assert_eq!(total(&vault), 5);
    assert_eq!(
        execute_from_icp(
            &mut vault,
            "manager",
            IcpAction::Deposit { user: "??".to_string(), amount: 5 },
            nothing(),
        ),
        Err(VaultError::InvalidAddress)
    );
    assert_eq!(total(&vault), 5);
}

#[test]
fn forwarded_skim_names_its_recipient() {
    let mut vault = vault();
    assert!(execute_deposit(&mut vault, VAULT, "alice", 500).is_ok());
    assert_eq!(
        execute_from_icp(
            &mut vault,
            "manager",
            IcpAction::SkimYield { recipient: "principal-7".to_string() },
            holding(800),
        ),
        Ok(skim_response("principal-7", 300, "icp_skim_yield"))
    );
    assert_eq!(
        execute_from_icp(
            &mut vault,
            "manager",
            IcpAction::SkimYield { recipient: "principal-7".to_string() },
            holding(500),
        ),
        Err(VaultError::NoYieldAvailable)
    );
    assert_eq!(total(&vault), 500);
}

#[test]
fn forwarded_config_replaces_the_whole() {
    let mut vault = vault();
    let next = Config {
        token_usdc: "usdc2".to_string(),
        token_nusdc: "nusdc2".to_string(),
        astroport_router: "router2".to_string(),
        axelar_gateway: "gateway2".to_string(),
        icp_canister_id: "canister2".to_string(),
        yield_collector: "collector2".to_string(),
        pool_id_usdc_nusdc: 11,
        pool_id_nusdc_usdc: 12,
    };
    assert_eq!(
        execute_from_icp(
            &mut vault,
            "manager",
            IcpAction::UpdateConfig { config: next.clone() },
            nothing(),
        ),
        Ok(Response { messages: vec![], attributes: vec![text("action", "update_config")] })
    );
    assert_eq!(query(&vault, QueryMsg::Config {}, nothing()), Ok(QueryResponse::Config(next)));
    assert!(may_skim(&vault, "collector2"));
    assert!(!may_skim(&vault, "collector"));
    let response = execute_deposit(&mut vault, VAULT, "alice", 3).unwrap();
    assert_eq!(response.messages[2], swap("router2", "usdc2", "nusdc2", 3));
}

#[test]
fn execute_dispatches_by_message() {
    let mut vault = vault();
    let mut twin = self::vault();
    assert_eq!(
        execute(&mut vault, VAULT, "alice", ExecuteMsg::Deposit { amount: 9 }, nothing()),
        execute_deposit(&mut twin, VAULT, "alice", 9)
    );
    assert_eq!(
        execute(&mut vault, VAULT, "collector", ExecuteMsg::SkimYield {}, holding(10)),
        Ok(skim_response("collector", 1, "skim_yield"))
    );
    assert_eq!(
        execute(&mut vault, VAULT, "alice", ExecuteMsg::SkimYield {}, holding(10)),
        Err(VaultError::Unauthorized)
    );
    assert_eq!(
        execute(
            &mut vault,
            VAULT,
            "manager",
            ExecuteMsg::ExecuteFromIcp {
                action: IcpAction::Deposit { user: "bob".to_string(), amount: 1 }
            },
            address("bob"),
        ),
        execute_from_icp(
            &mut twin,
            "manager",
            IcpAction::Deposit { user: "bob".to_string(), amount: 1 },
            address("bob"),
        )
    );
    assert_eq!(total(&vault), 10);
    assert_eq!(
        execute(
            &mut vault,
            VAULT,
            "manager",
            ExecuteMsg::SetIcpManager { manager: "next".to_string() },
            address("next"),
        ),
        execute_set_icp_manager(
            &mut twin,
            "manager",
            "next".to_string(),
            Some("next".to_string())
        )
    );
    assert!(is_manager(&vault, "next"));
}

#[test]
fn host_is_asked_only_after_the_gate() {
    let vault = vault();
    let balance_request = Ok(HostRequest::QueryBalance {
        query: WasmQuery {
            contract_addr: "nusdc".to_string(),
            msg: Cw20QueryMsg { balance: Some(BalanceQuery { address: VAULT.to_string() }) },
        },
    });
    assert_eq!(
        host_request(&vault, VAULT, "anyone", &ExecuteMsg::Deposit { amount: 1 }),
        Ok(HostRequest::Nothing)
    );
    assert_eq!(
        host_request(&vault, VAULT, "anyone", &ExecuteMsg::SkimYield {}),
        Err(VaultError::Unauthorized)
    );
    assert_eq!(host_request(&vault, VAULT, "collector", &ExecuteMsg::SkimYield {}), balance_request);
    assert_eq!(host_request(&vault, VAULT, "manager", &ExecuteMsg::SkimYield {}), balance_request);
    let rotate = ExecuteMsg::SetIcpManager { manager: "Next".to_string() };
    assert_eq!(host_request(&vault, VAULT, "collector", &rotate), Err(VaultError::Unauthorized));
    assert_eq!(
        host_request(&vault, VAULT, "manager", &rotate),
        Ok(HostRequest::ValidateAddress { address: "Next".to_string() })
    );
    let forwarded_deposit = ExecuteMsg::ExecuteFromIcp {
        action: IcpAction::Deposit { user: "Bob".to_string(), amount: 1 },
    };
    let forwarded_skim = ExecuteMsg::ExecuteFromIcp {
        action: IcpAction::SkimYield { recipient: "p".to_string() },
    };
    let forwarded_config =
        ExecuteMsg::ExecuteFromIcp { action: IcpAction::UpdateConfig { config: config() } };
    assert_eq!(
        host_request(&vault, VAULT, "alice", &forwarded_deposit),
        Err(VaultError::Unauthorized)
    );
    assert_eq!(
        host_request(&vault, VAULT, "alice", &forwarded_skim),
        Err(VaultError::Unauthorized)
    );
    assert_eq!(
        host_request(&vault, VAULT, "alice", &forwarded_config),
        Err(VaultError::Unauthorized)
    );
    assert_eq!(
        host_request(&vault, VAULT, "manager", &forwarded_deposit),
        Ok(HostRequest::ValidateAddress { address: "Bob".to_string() })
    );
    assert_eq!(host_request(&vault, VAULT, "manager", &forwarded_skim), balance_request);
    assert_eq!(
        host_request(&vault, VAULT, "manager", &forwarded_config),
        Ok(HostRequest::Nothing)
    );
}

#[test]
fn queries_answer_from_state_and_host() {
    let mut vault = vault();
    assert!(execute_deposit(&mut vault, VAULT, "alice", 12).is_ok());
    assert_eq!(
        query(&vault, QueryMsg::Principal { address: "Alice".to_string() }, address("alice")),
        Ok(QueryResponse::Amount(12))
    );
    assert_eq!(
        query(&vault, QueryMsg::Principal { address: "bob".to_string() }, address("bob")),
        Ok(QueryResponse::Amount(0))
    );
    assert_eq!(
        query(&vault, QueryMsg::Principal { address: "??".to_string() }, nothing()),
        Err(VaultError::InvalidAddress)
    );
    assert_eq!(
        query(&vault, QueryMsg::TotalPrincipal {}, nothing()),
        Ok(QueryResponse::Amount(12))
    );
    assert_eq!(
        query(&vault, QueryMsg::NusdcBalance {}, holding(77)),
        Ok(QueryResponse::Amount(77))
    );
    assert_eq!(
        query(&vault, QueryMsg::IcpManager {}, nothing()),
        Ok(QueryResponse::Address("manager".to_string()))
    );
}

#[test]
fn query_requests_name_what_the_host_must_supply() {
    let vault = vault();
    assert_eq!(query_request(&vault, VAULT, &QueryMsg::Config {}), HostRequest::Nothing);
    assert_eq!(query_request(&vault, VAULT, &QueryMsg::TotalPrincipal {}), HostRequest::Nothing);
    assert_eq!(query_request(&vault, VAULT, &QueryMsg::IcpManager {}), HostRequest::Nothing);
    assert_eq!(
        query_request(&vault, VAULT, &QueryMsg::Principal { address: "Bob".to_string() }),
        HostRequest::ValidateAddress { address: "Bob".to_string() }
    );
    assert_eq!(
        query_request(&vault, VAULT, &QueryMsg::NusdcBalance {}),
        HostRequest::QueryBalance { query: query_cw20_balance("nusdc", VAULT) }
    );
}

#[test]
fn builders_name_tokens_in_the_right_direction() {
    let config = config();
    assert_eq!(build_astroport_swap_msg(&config, 5), swap("router", "usdc", "nusdc", 5));
    assert_eq!(
        build_astroport_swap_msg_nusdc_to_usdc(&config, 5),
        swap("router", "nusdc", "usdc", 5)
    );
    assert_eq!(build_axelar_gmp_msg(&config, 5, "p".to_string()), bridge("p", 5));
    assert_eq!(
        query_cw20_balance("token", "holder"),
        WasmQuery {
            contract_addr: "token".to_string(),
            msg: Cw20QueryMsg { balance: Some(BalanceQuery { address: "holder".to_string() }) },
        }
    );
    assert_eq!(config.duplicate(), config);
}

#[test]
fn send_message_holds_its_payload() {
    let message = SendMsg { contract: "c".to_string(), amount: 3, msg: vec![1, 2, 3] };
    let call = Cw20ExecuteMsg { transfer: None, send: Some(message.clone()), approve: None };
    assert_eq!(call.send, Some(message));
    assert_eq!(AssetInfo::NativeToken { denom: "inj".to_string() }.clone(), AssetInfo::NativeToken {
        denom: "inj".to_string()
    });
}

#[test]
fn restore_rebuilds_what_was_kept() {
    let entries = vec![
        ("alice".to_string(), 10u128),
        ("bob".to_string(), 5),
        ("alice".to_string(), 2),
        ("carol".to_string(), 0),
    ];
    let vault = yield_vault::vault::restore(config(), "manager".to_string(), entries).unwrap();
    assert_eq!(total(&vault), 17);
    assert_eq!(principal(&vault, "alice"), 12);
    assert_eq!(principal(&vault, "bob"), 5);
    assert_eq!(principal(&vault, "carol"), 0);
    assert!(is_manager(&vault, "manager"));
    assert!(may_skim(&vault, "collector"));
    assert_eq!(query(&vault, QueryMsg::Config {}, nothing()), Ok(QueryResponse::Config(config())));
    let empty = yield_vault::vault::restore(config(), "manager".to_string(), vec![]).unwrap();
    assert_eq!(total(&empty), 0);
}

#[test]
fn restore_refuses_a_sum_that_does_not_fit() {
    let entries = vec![("alice".to_string(), u128::MAX), ("bob".to_string(), 1)];
    assert!(matches!(
        yield_vault::vault::restore(config(), "manager".to_string(), entries),
        Err(VaultError::Overflow)
    ));
    let fits = vec![("alice".to_string(), u128::MAX), ("bob".to_string(), 0)];
    assert!(yield_vault::vault::restore(config(), "manager".to_string(), fits).is_ok());
}

#[test]
fn refusals_have_words() {
    assert_eq!(VaultError::Unauthorized.message(), "Unauthorized");
    assert_eq!(VaultError::NoYieldAvailable.message(), "No yield available");
    assert_eq!(VaultError::InvalidAddress.message(), "Invalid address");
    assert_eq!(VaultError::Overflow.message(), "Overflow");
}

#[test]
fn amounts_are_recorded_as_decimal_numerals() {
    let mut vault = vault();
    let small = execute_deposit(&mut vault, VAULT, "alice", 0).unwrap();
    assert_eq!(small.attributes[1].value, "0");
    let round = execute_deposit(&mut vault, VAULT, "alice", 1_000).unwrap();
    assert_eq!(round.attributes[1].key, "amount");
    assert_eq!(round.attributes[1].value, "1000");
    let odd = execute_deposit(&mut vault, VAULT, "alice", 9_070_605).unwrap();
    assert_eq!(odd.attributes[1].value, "9070605");
    let empty = self::vault();
    let all = execute_skim(&empty, "collector", u128::MAX).unwrap();
    assert_eq!(all.attributes[1].key, "yield_amount");
    assert_eq!(all.attributes[1].value, "340282366920938463463374607431768211455");
}
