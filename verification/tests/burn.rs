use cw_airdrop_burn::burn::contract::{burn_history, burn_now, execute, instantiate, DENOM};
use cw_airdrop_burn::burn::error::ContractError;
use cw_airdrop_burn::burn::helpers::CwTemplateContract;
use cw_airdrop_burn::burn::msg::{ExecuteMsg, InstantiateMsg};
use cw_airdrop_burn::burn::state::{BurnHistory, Store};
use cw_airdrop_burn::chain::{BankMsg, StdError, Timestamp};
use cw_airdrop_burn::coin::coin;

fn owned_by(owner: &str) -> Store {
    instantiate(owner.to_string(), InstantiateMsg { owner: "ignored".to_string() }).0
}

#[test]
fn test_date() {
    let t = Timestamp { nanos: 1_571_797_419_879_305_533 };
    println!("{:?}", t);
    assert_eq!(t.nanos / 1_000_000_000, 1_571_797_419);
}

#[test]
fn instantiate_makes_the_sender_owner() {
    let (store, res) = instantiate("creator".to_string(), InstantiateMsg { owner: "someone_else".to_string() });
    assert_eq!(store.config().owner, "creator");
    assert_eq!(store.seq(), 0);
    assert!(res.messages.is_empty());
    assert_eq!(res.attributes[0].key, "method");
    assert_eq!(res.attributes[0].value, "instantiate");
    assert_eq!(res.attributes[1].key, "owner");
    assert_eq!(res.attributes[1].value, "creator");
}

#[test]
fn owner_burns_and_the_burn_is_recorded() {
    let mut store = owned_by("creator");
    let res = burn_now(&mut store, "creator".to_string(), Timestamp { nanos: 11 }, 250).unwrap();
    assert_eq!(res.attributes.len(), 1);
    assert_eq!(res.attributes[0].key, "action");
    assert_eq!(res.attributes[0].value, "burn_now");
    assert_eq!(res.messages.len(), 1);
    match &res.messages[0] {
        BankMsg::Burn { amount } => assert_eq!(amount, &vec![coin(250, "ubcna")]),
        other => panic!("unexpected message {:?}", other),
    }
    assert_eq!(store.seq(), 1);
    assert_eq!(
        store.history().get(1).unwrap(),
        &BurnHistory {
            id: 1,
            date: Timestamp { nanos: 11 },
            amount: coin(250, DENOM),
            denom: "ubcna".to_string(),
            address: "creator".to_string(),
        }
    );
}

#[test]
fn only_the_owner_burns() {
    let mut store = owned_by("creator");
    let r = burn_now(&mut store, "intruder".to_string(), Timestamp { nanos: 1 }, 5);
    assert!(matches!(r, Err(ContractError::Unauthorized {})));
    assert_eq!(store.seq(), 0);
    assert!(burn_history(&store, None, None).entries.is_empty());
}

#[test]
fn execute_dispatches_burn() {
    let mut store = owned_by("creator");
    let r = execute(&mut store, "creator".to_string(), Timestamp { nanos: 3 }, ExecuteMsg::Burn { amount: 9 });
    assert!(r.is_ok());
    let r = execute(&mut store, "other".to_string(), Timestamp { nanos: 4 }, ExecuteMsg::Burn { amount: 9 });
    assert!(matches!(r, Err(ContractError::Unauthorized {})));
    assert_eq!(store.seq(), 1);
}

#[test]
fn burn_history_pages() {
    let mut store = owned_by("o");
    for i in 1..=12u128 {
        burn_now(&mut store, "o".to_string(), Timestamp { nanos: i as u64 }, i * 10).unwrap();
    }
    let page = burn_history(&store, None, None);
    assert_eq!(page.entries.len(), 10);
    assert_eq!(page.entries[0].amount.amount, 10);
    let next = burn_history(&store, Some(10), None);
    let ids: Vec<u64> = next.entries.iter().map(|e| e.id).collect();
    assert_eq!(ids, vec![11, 12]);
    assert_eq!(next.entries[1].amount.amount, 120);
    // Paging on from where a page ends covers the same records as one larger page.
    let a = burn_history(&store, Some(2), Some(3)).entries;
    let b = burn_history(&store, Some(5), Some(4)).entries;
    let c = burn_history(&store, Some(2), Some(7)).entries;
    let joined: Vec<BurnHistory> = a.into_iter().chain(b).collect();
    assert_eq!(joined, c);
}

#[test]
fn template_contract_holds_an_address() {
    let c = CwTemplateContract("contract1".to_string());
    assert_eq!(c.clone(), c);
    assert_eq!(c.0, "contract1");
}

#[test]
fn burn_error_messages() {
    assert_eq!(ContractError::Unauthorized {}.message(), "Unauthorized");
    let e = ContractError::Std(StdError::GenericErr { msg: "x".to_string() });
    assert_eq!(e.message(), "Generic error: x");
}
