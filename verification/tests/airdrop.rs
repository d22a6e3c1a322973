use cw_airdrop_burn::airdrop::coin_helpers::send_token_before_buy;
use cw_airdrop_burn::airdrop::contract::{
    airdrop_history, bonded_total_fits, claim_airdrop, execute, get_bonded, get_config, instantiate,
    wallet_info, AIRDROP_AMOUNT, DENOM,
};
use cw_airdrop_burn::airdrop::error::ContractError;
use cw_airdrop_burn::airdrop::msg::{ExecuteMsg, InstantiateMsg};
use cw_airdrop_burn::airdrop::state::{AirdropList, Config, Required, Store};
use cw_airdrop_burn::chain::{BankMsg, StdError, Timestamp};
use cw_airdrop_burn::coin::{coin, Coin};
use cw_airdrop_burn::ledger::Ledger;

fn init_msg(owner: &str) -> InstantiateMsg {
    InstantiateMsg {
        owner: owner.to_string(),
        icon_url: "https://example.com/icon.png".to_string(),
        title: "Drop".to_string(),
        description: "A test airdrop".to_string(),
        required: Required::AllDelegator,
    }
}

fn fresh_store() -> Store {
    instantiate(Timestamp { nanos: 1_000 }, init_msg("creator")).0
}

fn bonds(amounts: &[(u128, &str)]) -> Vec<Coin> {
    amounts.iter().map(|(a, d)| coin(*a, d)).collect()
}

#[test]
fn proper_initialization() {
    let (mut store, res) = instantiate(Timestamp { nanos: 1_571_797_419_879_305_533 }, init_msg("creator"));
    assert_eq!(0, res.messages.len());

    // "anyone" has no delegation, so the claim is refused and nothing is recorded.
    let claim = execute(&mut store, &[], "anyone".to_string(), Timestamp { nanos: 5 }, ExecuteMsg::ClaimAirdrop {});
    assert!(matches!(claim, Err(ContractError::UnauthorizedBoundRules {})));

    let page = airdrop_history(&store, Some(0), Some(30));
    assert!(page.entries.is_empty());
}

#[test]
fn instantiate_saves_config_and_reports_owner() {
    let (store, res) = instantiate(Timestamp { nanos: 42 }, init_msg("creator"));
    assert_eq!(store.seq(), 0);
    assert_eq!(store.history().len(), 0);
    let config = store.config();
    assert_eq!(config.owner, "creator");
    assert_eq!(config.title, "Drop");
    assert_eq!(config.create_date, Timestamp { nanos: 42 });
    assert_eq!(res.attributes.len(), 2);
    assert_eq!(res.attributes[0].key, "method");
    assert_eq!(res.attributes[0].value, "instantiate");
    assert_eq!(res.attributes[1].key, "owner");
    assert_eq!(res.attributes[1].value, "creator");
}

#[test]
fn claim_pays_a_delegator_and_records_it() {
    let mut store = fresh_store();
    let res = claim_airdrop(&mut store, &bonds(&[(10, "ubcna"), (5, "ubcna")]), "alice".to_string(), Timestamp { nanos: 77 })
        .unwrap();
    assert_eq!(res.attributes.len(), 1);
    assert_eq!(res.attributes[0].key, "action");
    assert_eq!(res.attributes[0].value, "claim_airdrop");
    assert_eq!(res.messages.len(), 1);
    match &res.messages[0] {
        BankMsg::Send { to_address, amount } => {
            assert_eq!(to_address, "alice");
            assert_eq!(amount, &vec![coin(1_000_000, "udao")]);
        }
        other => panic!("unexpected message {:?}", other),
    }
    assert_eq!(store.seq(), 1);
    let recorded = store.history().get(1).unwrap();
    assert_eq!(
        recorded,
        &AirdropList { id: 1, date: Timestamp { nanos: 77 }, amount: coin(AIRDROP_AMOUNT, DENOM), to: "alice".to_string() }
    );
}

#[test]
fn claim_ids_count_up() {
    let mut store = fresh_store();
    for (i, who) in ["a", "b", "c"].iter().enumerate() {
        claim_airdrop(&mut store, &bonds(&[(1, "x")]), who.to_string(), Timestamp { nanos: i as u64 }).unwrap();
    }
    assert_eq!(store.seq(), 3);
    let page = airdrop_history(&store, None, None);
    let ids: Vec<u64> = page.entries.iter().map(|e| e.id).collect();
    assert_eq!(ids, vec![1, 2, 3]);
    assert_eq!(page.entries[1].to, "b");
}

#[test]
fn claim_without_bond_is_refused_and_changes_nothing() {
    let mut store = fresh_store();
    claim_airdrop(&mut store, &bonds(&[(3, "x")]), "a".to_string(), Timestamp { nanos: 1 }).unwrap();
    let r = claim_airdrop(&mut store, &bonds(&[(0, "x"), (0, "x")]), "b".to_string(), Timestamp { nanos: 2 });
    assert!(matches!(r, Err(ContractError::UnauthorizedBoundRules {})));
    assert_eq!(store.seq(), 1);
    assert_eq!(store.history().len(), 1);
}

#[test]
fn claim_with_mixed_denominations_is_a_std_error() {
    let mut store = fresh_store();
    let r = claim_airdrop(&mut store, &bonds(&[(3, "ubcna"), (4, "ubcna"), (5, "uatom"), (6, "uosmo")]), "a".to_string(), Timestamp { nanos: 1 });
    match r {
        Err(ContractError::Std(StdError::GenericErr { msg })) => {
            assert_eq!(msg, "different denoms in bonds: 'ubcna' vs 'uatom'")
        }
        other => panic!("unexpected result {:?}", other),
    }
    assert_eq!(store.seq(), 0);
}

#[test]
fn get_bonded_adds_up_one_denomination() {
    assert_eq!(get_bonded(&[]).unwrap(), 0);
    assert_eq!(get_bonded(&bonds(&[(10, "a"), (32, "a"), (0, "a")])).unwrap(), 42);
    match get_bonded(&bonds(&[(10, "a"), (32, "b")])) {
        Err(StdError::GenericErr { msg }) => assert_eq!(msg, "different denoms in bonds: 'a' vs 'b'"),
        other => panic!("unexpected result {:?}", other),
    }
}

#[test]
fn bonded_total_fits_follows_the_sum() {
    assert!(bonded_total_fits(&[]));
    assert!(bonded_total_fits(&bonds(&[(u128::MAX, "a")])));
    assert!(!bonded_total_fits(&bonds(&[(u128::MAX, "a"), (1, "a")])));
    // The sum stops at the first other denomination, so no overflow happens.
    assert!(bonded_total_fits(&bonds(&[(u128::MAX, "a"), (1, "b"), (1, "a")])));
}

#[test]
fn wallet_info_reports_balance_and_bonded_in_decimal() {
    let w = wallet_info(coin(123, "udao"), &bonds(&[(1_000_000_000_000, "ubcna"), (7, "ubcna")])).unwrap();
    assert_eq!(w.balance.amount, coin(123, "udao"));
    assert_eq!(w.bonded, "1000000000007");
    let w0 = wallet_info(coin(0, "udao"), &[]).unwrap();
    assert_eq!(w0.bonded, "0");
    assert!(matches!(wallet_info(coin(0, "udao"), &bonds(&[(1, "a"), (1, "b")])), Err(StdError::GenericErr { .. })));
}

#[test]
fn get_config_returns_the_configuration() {
    let (store, _) = instantiate(Timestamp { nanos: 9 }, init_msg("boss"));
    let c = get_config(&store);
    assert_eq!(c.owner, "boss");
    assert_eq!(c.icon_url, "https://example.com/icon.png");
    assert_eq!(c.title, "Drop");
    assert_eq!(c.description, "A test airdrop");
    assert_eq!(c.create_date, Timestamp { nanos: 9 });
    assert_eq!(c.required, Required::AllDelegator);
}

#[test]
fn history_pages_follow_the_limits() {
    let mut store = fresh_store();
    for i in 0..35u64 {
        claim_airdrop(&mut store, &bonds(&[(1, "x")]), format!("addr{}", i), Timestamp { nanos: i }).unwrap();
    }
    let ids = |start: Option<u64>, limit: Option<u32>| -> Vec<u64> {
        airdrop_history(&store, start, limit).entries.iter().map(|e| e.id).collect()
    };
    assert_eq!(ids(None, None), (1..=10).collect::<Vec<u64>>());
    assert_eq!(ids(None, Some(50)), (1..=30).collect::<Vec<u64>>());
    assert_eq!(ids(Some(30), Some(30)), (31..=35).collect::<Vec<u64>>());
    assert_eq!(ids(Some(3), Some(2)), vec![4, 5]);
    assert_eq!(ids(Some(35), None), Vec::<u64>::new());
    assert_eq!(ids(Some(1000), None), Vec::<u64>::new());
    assert_eq!(ids(None, Some(0)), Vec::<u64>::new());
}

#[test]
fn a_claim_reads_back_right_after_the_previous_id() {
    let mut store = fresh_store();
    claim_airdrop(&mut store, &bonds(&[(1, "x")]), "first".to_string(), Timestamp { nanos: 1 }).unwrap();
    let before = store.seq();
    claim_airdrop(&mut store, &bonds(&[(1, "x")]), "second".to_string(), Timestamp { nanos: 2 }).unwrap();
    let page = airdrop_history(&store, Some(before), Some(5));
    assert_eq!(page.entries.len(), 1);
    assert_eq!(page.entries[0].id, store.seq());
    assert_eq!(page.entries[0].to, "second");
}

#[test]
fn send_token_before_buy_checks_the_funds() {
    let sent = bonds(&[(100, "udao"), (5, "ubcna")]);
    assert!(send_token_before_buy(&sent, None).is_ok());
    assert!(send_token_before_buy(&sent, Some(coin(0, "uatom"))).is_ok());
    assert!(send_token_before_buy(&sent, Some(coin(100, "udao"))).is_ok());
    assert!(send_token_before_buy(&sent, Some(coin(5, "ubcna"))).is_ok());
    match send_token_before_buy(&sent, Some(coin(1500, "udao"))) {
        Err(ContractError::InsufficientFundsSend { required_amount }) => assert_eq!(required_amount, "1500"),
        other => panic!("unexpected result {:?}", other),
    }
    match send_token_before_buy(&[], Some(coin(7, "ubcna"))) {
        Err(ContractError::InsufficientFundsSend { required_amount }) => assert_eq!(required_amount, "7"),
        other => panic!("unexpected result {:?}", other),
    }
}

#[test]
fn a_stored_history_is_read_in_key_order() {
    let config = Config {
        owner: "o".to_string(),
        icon_url: String::new(),
        title: String::new(),
        description: String::new(),
        create_date: Timestamp { nanos: 0 },
        required: Required::AllDelegator,
    };
    let entry = |id: u64| AirdropList { id, date: Timestamp { nanos: id }, amount: coin(1, "udao"), to: "t".to_string() };
    assert!(Ledger::from_parts(config.clone(), 2, vec![(1, entry(1)), (2, entry(2))]).is_some());
    assert!(Ledger::from_parts(config.clone(), 7, vec![(1, entry(1)), (3, entry(3))]).is_some());
    assert!(Ledger::from_parts(config.clone(), 2, vec![(2, entry(2)), (1, entry(1))]).is_none());
    assert!(Ledger::from_parts(config.clone(), 2, vec![(1, entry(1)), (1, entry(1))]).is_none());
    assert!(Ledger::from_parts(config, 0, Vec::<(u64, AirdropList)>::new()).is_some());
}

#[test]
fn claims_work_on_any_stored_history() {
    let config = get_config_of(&fresh_store());
    let entry = |id: u64, to: &str| AirdropList { id, date: Timestamp { nanos: id }, amount: coin(1, "udao"), to: to.to_string() };
    // Records under 2 and 5, sequence at 4: the next claim goes under 5 and replaces that record.
    let mut store = Ledger::from_parts(config, 4, vec![(2, entry(2, "old2")), (5, entry(5, "old5"))]).unwrap();
    claim_airdrop(&mut store, &bonds(&[(1, "x")]), "new".to_string(), Timestamp { nanos: 9 }).unwrap();
    assert_eq!(store.seq(), 5);
    assert_eq!(store.history().len(), 2);
    assert_eq!(store.history().get(5).unwrap().to, "new");
    assert_eq!(store.history().get(2).unwrap().to, "old2");
    // The next one goes under 6, after the others.
    claim_airdrop(&mut store, &bonds(&[(1, "x")]), "six".to_string(), Timestamp { nanos: 10 }).unwrap();
    let page = airdrop_history(&store, Some(1), None);
    let tos: Vec<&str> = page.entries.iter().map(|e| e.to.as_str()).collect();
    assert_eq!(tos, vec!["old2", "new", "six"]);
    let page = airdrop_history(&store, Some(2), Some(1));
    assert_eq!(page.entries[0].to, "new");
}

fn get_config_of(store: &Store) -> Config {
    store.config().clone()
}

#[test]
fn error_messages_match_the_contract_texts() {
    let sent = bonds(&[(99, "ubcna")]);
    let err = send_token_before_buy(&sent, Some(coin(100, "ubcna"))).unwrap_err();
    assert_eq!(err.message(), "Insufficient funds sent (error 100)");
    assert_eq!(ContractError::Unauthorized {}.message(), "Unauthorized");
    assert_eq!(
        ContractError::UnauthorizedBoundRules {}.message(),
        "You do not have enough bounded tokens to claim your airdrop (Needed: xxxx)"
    );
    let std = ContractError::Std(StdError::GenericErr { msg: "boom".to_string() });
    assert_eq!(std.message(), "Generic error: boom");
}

#[test]
fn required_amounts_are_written_in_decimal() {
    for (amount, text) in [(1u128, "1"), (10, "10"), (907, "907"), (u128::MAX, "340282366920938463463374607431768211455")] {
        match send_token_before_buy(&[], Some(coin(amount, "x"))) {
            Err(ContractError::InsufficientFundsSend { required_amount }) => assert_eq!(required_amount, text),
            other => panic!("unexpected result {:?}", other),
        }
    }
}

#[test]
fn the_order_of_delegations_does_not_change_the_total() {
    let a = bonds(&[(1, "u"), (20, "u"), (300, "u")]);
    let b = bonds(&[(300, "u"), (1, "u"), (20, "u")]);
    assert_eq!(get_bonded(&a).unwrap(), get_bonded(&b).unwrap());
    let c = bonds(&[(1, "u"), (2, "v")]);
    let d = bonds(&[(2, "v"), (1, "u")]);
    assert!(get_bonded(&c).is_err() && get_bonded(&d).is_err());
}

#[test]
fn refused_and_paid_claims_keep_the_history_numbered() {
    let mut store = fresh_store();
    let outcomes = [bonds(&[(1, "x")]), bonds(&[]), bonds(&[(1, "x"), (1, "y")]), bonds(&[(9, "x")])];
    let mut expected_seq = 0;
    for (i, b) in outcomes.iter().enumerate() {
        let r = claim_airdrop(&mut store, b, format!("a{}", i), Timestamp { nanos: i as u64 });
        if r.is_ok() {
            expected_seq += 1;
        }
        assert_eq!(store.seq(), expected_seq);
    }
    let page = airdrop_history(&store, None, None);
    assert_eq!(page.entries.iter().map(|e| e.id).collect::<Vec<_>>(), vec![1, 2]);
    assert!(page.entries.iter().all(|e| e.amount == coin(AIRDROP_AMOUNT, DENOM)));
}

#[test]
fn a_page_read_from_its_window_is_the_same_page() {
    let mut store = fresh_store();
    for i in 0..12u64 {
        claim_airdrop(&mut store, &bonds(&[(1, "x")]), format!("a{}", i), Timestamp { nanos: i }).unwrap();
    }
    let full = airdrop_history(&store, Some(4), Some(3)).entries;
    let window: Vec<(u64, AirdropList)> = full.iter().map(|e| (e.id, e.clone())).collect();
    let small = Ledger::from_parts(store.config().clone(), store.seq(), window).unwrap();
    assert_eq!(airdrop_history(&small, Some(4), Some(3)).entries, full);
}
