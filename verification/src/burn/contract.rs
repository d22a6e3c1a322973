use crate::burn::error::ContractError;
use crate::burn::msg::{BurnHistoryResponse, ExecuteMsg, InstantiateMsg};
use crate::burn::state::{BurnHistory, Config, Store, StoreView};
use crate::chain::{attribute, is_attribute, is_single_coin, BankMsg, Response, Timestamp};
use crate::coin::coin;
use crate::history::{effective_limit, keys_sorted, law_save_is_map_update, lemma_after_sorted, lemma_count_upto_at, page_limit, page_of, Entry};
use crate::ledger::{
    ledger_after_record, ledger_numbered, ledger_wf, lemma_numbered_wf, lemma_record_appends, Ledger,
};
use vstd::prelude::*;

verus! {

/// The denomination the contract burns.
pub const DENOM: &'static str = "ubcna";

/// `r` is the response to instantiation by `owner`: no message, and the
/// attributes `method` = `instantiate` and `owner` = the owner.
pub open spec fn is_instantiate_response(r: Response, owner: Seq<char>) -> bool {
    &&& r.messages@.len() == 0
    &&& r.attributes@.len() == 2
    &&& is_attribute(r.attributes@[0], "method"@, "instantiate"@)
    &&& is_attribute(r.attributes@[1], "owner"@, owner)
}

/// Sets up the contract's storage: `sender`, who instantiates the contract,
/// becomes its owner; the sequence is at 0 and there is no burn.
pub fn instantiate(sender: String, _msg: InstantiateMsg) -> (r: (Store, Response))
    ensures
        r.0@.config == (Config { owner: sender }),
        r.0@.seq == 0,
        r.0@.history.len() == 0,
        ledger_wf(r.0@),
        ledger_numbered(r.0@),
        all_burn_records(r.0@),
        is_instantiate_response(r.1, sender@),
{
    let mut attributes = Vec::new();
    attributes.push(attribute("method", "instantiate"));
    attributes.push(attribute("owner", sender.as_str()));
    let store = Ledger::new(Config { owner: sender });
    (store, Response { messages: Vec::new(), attributes })
}

/// `e` records a burn of `amount` by `sender` at `time`, saved under `id`.
pub open spec fn is_burn_record(
    e: BurnHistory,
    id: u64,
    time: Timestamp,
    sender: Seq<char>,
    amount: u128,
) -> bool {
    &&& e.id == id
    &&& e.date == time
    &&& e.amount.amount == amount
    &&& e.amount.denom@ == DENOM@
    &&& e.denom@ == DENOM@
    &&& e.address@ == sender
}

/// `r` is the response to a burn of `amount`: the attribute `action` = `burn_now`
/// and one bank message that burns `amount` of the contract's denomination.
pub open spec fn is_burn_response(r: Response, amount: u128) -> bool {
    &&& r.attributes@.len() == 1
    &&& is_attribute(r.attributes@[0], "action"@, "burn_now"@)
    &&& r.messages@.len() == 1
    &&& r.messages@[0] matches BankMsg::Burn { amount: coins }
    &&& is_single_coin(coins@, amount, DENOM@)
}

/// Every stored record is a burn of the contract's denomination.
pub open spec fn all_burn_records(v: StoreView) -> bool {
    forall|k: int|
        0 <= k < v.history.len() ==> (#[trigger] v.history[k]).1.amount.denom@ == DENOM@
            && v.history[k].1.denom@ == DENOM@
}

/// `new` is `old` with one more burn, of `amount` by `sender` at `time`, saved
/// under the next id.
pub open spec fn burned(
    old: StoreView,
    new: StoreView,
    time: Timestamp,
    sender: Seq<char>,
    amount: u128,
) -> bool {
    &&& old.seq < u64::MAX
    &&& exists|e: BurnHistory|
        is_burn_record(e, (old.seq + 1) as u64, time, sender, amount) && new
            == #[trigger] ledger_after_record(old, e)
}

/// The outcome of a request by `sender` at `time` to burn `amount`: refused with
/// `Unauthorized`, the storage unchanged, unless the sender is the owner; then
/// the burn is recorded and the bank is asked to burn the amount.
pub open spec fn burn_outcome(
    old: StoreView,
    new: StoreView,
    sender: Seq<char>,
    time: Timestamp,
    amount: u128,
    r: Result<Response, ContractError>,
) -> bool {
    if sender != old.config.owner@ {
        &&& new == old
        &&& r matches Err(ContractError::Unauthorized {})
    } else {
        &&& burned(old, new, time, sender, amount)
        &&& r matches Ok(resp)
        &&& is_burn_response(resp, amount)
    }
}

/// Burns `amount` of the contract's denomination when `sender` is the owner, and
/// records the burn under the next id.
pub fn burn_now(store: &mut Store, sender: String, block_time: Timestamp, amount: u128) -> (r:
    Result<Response, ContractError>)
    requires
        sender@ == old(store)@.config.owner@ ==> old(store)@.seq < u64::MAX,
    ensures
        burn_outcome(old(store)@, final(store)@, sender@, block_time, amount, r),
{
    let seq = store.seq();
    if !(sender == store.config().owner) {
        return Err(ContractError::Unauthorized {});
    }
    let burnt = coin(amount, DENOM);
    let mut coins = Vec::new();
    coins.push(burnt.clone());
    let burn_msg = BankMsg::Burn { amount: coins };
    let id = seq + 1;
    store.record(
        BurnHistory {
            id,
            date: block_time,
            denom: DENOM.to_owned(),
            amount: burnt,
            address: sender,
        },
    );
    let mut attributes = Vec::new();
    attributes.push(attribute("action", "burn_now"));
    let mut messages = Vec::new();
    messages.push(burn_msg);
    Ok(Response { messages, attributes })
}

/// Runs an execute request.
pub fn execute(store: &mut Store, sender: String, block_time: Timestamp, msg: ExecuteMsg) -> (r:
    Result<Response, ContractError>)
    requires
        sender@ == old(store)@.config.owner@ ==> old(store)@.seq < u64::MAX,
    ensures
        match msg {
            ExecuteMsg::Burn { amount } => burn_outcome(
                old(store)@,
                final(store)@,
                sender@,
                block_time,
                amount,
                r,
            ),
        },
{
    match msg {
        ExecuteMsg::Burn { amount } => burn_now(store, sender, block_time, amount),
    }
}

/// A page of the burn history: the burns after `start_after`, in ascending order
/// of id, at most `limit` of them (10 when no limit is given, never more than 30).
pub fn burn_history(store: &Store, start_after: Option<u64>, limit: Option<u32>) -> (r:
    BurnHistoryResponse)
    ensures
        r.entries@ == page_of(store@.history, start_after, effective_limit(limit)),
{
    let limit = page_limit(limit);
    BurnHistoryResponse { entries: store.history().page(start_after, limit) }
}

// ---------------------------------------------------------------------------
// Laws

/// A burn keeps the numbering: on storage whose records are stored under 1
/// through the sequence, each carrying its id, the sequence moves on by one, the
/// new record is stored under it, and the earlier records stay as they were.
pub proof fn law_burn_keeps_numbering(
    old: StoreView,
    new: StoreView,
    time: Timestamp,
    sender: Seq<char>,
    amount: u128,
)
    requires
        ledger_numbered(old),
        burned(old, new, time, sender, amount),
    ensures
        ledger_numbered(new),
        new.seq == old.seq + 1,
        new.history.take(old.history.len() as int) == old.history,
        new.config == old.config,
        is_burn_record(new.history.last().1, new.seq, time, sender, amount),
{
    let e = choose|e: BurnHistory|
        is_burn_record(e, (old.seq + 1) as u64, time, sender, amount) && new == ledger_after_record(old, e);
    lemma_numbered_wf(old);
    lemma_record_appends(old, e);
    assert(new.history.take(old.history.len() as int) =~= old.history);
    assert forall|i: int| 0 <= i < new.history.len() implies (#[trigger] new.history[i]).0 == i + 1
        && new.history[i].1.entry_id() == i + 1 by {
        if i < old.history.len() {
            assert(new.history[i] == old.history[i]);
        }
    }
}

/// Whatever a burn request's outcome, storage numbered 1 through the sequence
/// stays so, every record in it stays a burn of the contract's denomination, the
/// earlier records and the configuration stay as they were, and the sequence moves
/// on by one exactly when the request succeeds.
pub proof fn law_burns_keep_history(
    old: StoreView,
    new: StoreView,
    sender: Seq<char>,
    time: Timestamp,
    amount: u128,
    r: Result<Response, ContractError>,
)
    requires
        ledger_numbered(old),
        all_burn_records(old),
        burn_outcome(old, new, sender, time, amount, r),
    ensures
        ledger_numbered(new),
        all_burn_records(new),
        new.seq == old.seq + (if r is Ok {
            1int
        } else {
            0int
        }),
        new.history.take(old.history.len() as int) == old.history,
        new.config == old.config,
{
    if r is Ok {
        law_burn_keeps_numbering(old, new, time, sender, amount);
        assert forall|k: int| 0 <= k < new.history.len() implies (#[trigger] new.history[k]).1.amount.denom@
            == DENOM@ && new.history[k].1.denom@ == DENOM@ by {
            if k < old.history.len() {
                assert(new.history[k] == old.history[k]);
            }
        }
    } else {
        assert(new.history.take(old.history.len() as int) =~= old.history);
    }
}

/// Only the owner burns: a request from any sender other than the stored owner
/// is refused with `Unauthorized` and leaves the storage as it was; a request
/// from the owner succeeds, asks the bank to burn exactly the amount asked for,
/// and moves the sequence on by one.
pub proof fn law_only_owner_burns(
    old: StoreView,
    new: StoreView,
    sender: Seq<char>,
    time: Timestamp,
    amount: u128,
    r: Result<Response, ContractError>,
)
    requires
        keys_sorted(old.history),
        burn_outcome(old, new, sender, time, amount, r),
    ensures
        sender != old.config.owner@ ==> new == old && r matches Err(ContractError::Unauthorized {  }),
        sender == old.config.owner@ ==> {
            &&& new.seq == old.seq + 1
            &&& new.config == old.config
            &&& r matches Ok(resp)
            &&& resp.messages@.len() == 1
            &&& resp.messages@[0] matches BankMsg::Burn { amount: coins }
            &&& coins@.len() == 1
            &&& coins@[0].amount == amount
            &&& coins@[0].denom@ == "ubcna"@
            &&& exists|i: int|
                0 <= i < new.history.len() && (#[trigger] new.history[i]).0 == new.seq && {
                    let e = new.history[i].1;
                    &&& e.id == new.seq
                    &&& e.date == time
                    &&& e.amount.amount == amount
                    &&& e.amount.denom@ == "ubcna"@
                    &&& e.denom@ == "ubcna"@
                    &&& e.address@ == sender
                }
        },
        (r is Ok) <==> sender == old.config.owner@,
{
    if sender == old.config.owner@ {
        let e = choose|e: BurnHistory|
            is_burn_record(e, (old.seq + 1) as u64, time, sender, amount) && new == ledger_after_record(
                old,
                e,
            );
        law_save_is_map_update(old.history, (old.seq + 1) as u64, e);
        let i = choose|i: int| 0 <= i < new.history.len() && new.history[i] == ((old.seq + 1) as u64, e);
        assert(new.history[i].0 == new.seq);
    }
}

/// A burn can be read back: on storage with no record beyond the sequence,
/// right after it a history page that starts after the previous id holds exactly
/// the new record, and still no record lies beyond the sequence.
pub proof fn law_burn_read_back(
    old: StoreView,
    new: StoreView,
    time: Timestamp,
    sender: Seq<char>,
    amount: u128,
    limit: nat,
)
    requires
        ledger_wf(old),
        burned(old, new, time, sender, amount),
        limit >= 1,
    ensures
        ledger_wf(new),
        page_of(new.history, Some(old.seq), limit).len() == 1,
        is_burn_record(page_of(new.history, Some(old.seq), limit)[0], new.seq, time, sender, amount),
{
    let e = choose|e: BurnHistory|
        is_burn_record(e, (old.seq + 1) as u64, time, sender, amount) && new == ledger_after_record(old, e);
    lemma_record_appends(old, e);
    let h = new.history;
    lemma_count_upto_at(h, old.seq as int, old.history.len() as int);
    lemma_after_sorted(h, Some(old.seq));
    assert(page_of(h, Some(old.seq), limit) =~= seq![e]);
}

} // verus!
