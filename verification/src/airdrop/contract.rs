use crate::airdrop::error::ContractError;
use crate::airdrop::msg::{
    ConfigInfoResponse, ExecuteMsg, GetAirdropListResponse, InstantiateMsg, WalletInfoResponse,
};
use crate::airdrop::state::{AirdropList, Config, Store, StoreView};
use crate::chain::{
    attribute, is_attribute, is_single_coin, BalanceResponse, BankMsg, Response, StdError, Timestamp,
};
use crate::coin::{coin, decimal, uint128_to_string, Coin};
use crate::history::{effective_limit, keys_sorted, law_save_is_map_update, lemma_after_sorted, lemma_count_upto_at, page_limit, page_of, Entry};
use crate::ledger::{
    ledger_after_record, ledger_numbered, ledger_wf, lemma_numbered_wf, lemma_record_appends, Ledger,
};
use vstd::prelude::*;

verus! {

/// The denomination the airdrop pays in.
pub const DENOM: &'static str = "udao";

/// What one claim pays.
pub const AIRDROP_AMOUNT: u128 = 1000000;

// ---------------------------------------------------------------------------
// Bonded totals

/// Every coin in `s` is of denomination `d`.
pub open spec fn same_denom(s: Seq<Coin>, d: Seq<char>) -> bool {
    forall|j: int| 0 <= j < s.len() ==> (#[trigger] s[j]).denom@ == d
}

/// The sum of the amounts in `s`.
pub open spec fn coin_total(s: Seq<Coin>) -> nat
    decreases s.len(),
{
    if s.len() == 0 {
        0
    } else {
        coin_total(s.drop_last()) + s.last().amount as nat
    }
}

/// The length of the longest prefix of `s` whose coins are all of denomination `d`.
pub open spec fn matching_len(s: Seq<Coin>, d: Seq<char>) -> nat
    decreases s.len(),
{
    if same_denom(s, d) || s.len() == 0 {
        s.len()
    } else {
        matching_len(s.drop_last(), d)
    }
}

/// The message of the error that reports two delegations in different denominations.
pub open spec fn denoms_differ_msg(first: Seq<char>, other: Seq<char>) -> Seq<char> {
    "different denoms in bonds: '"@ + first + "' vs '"@ + other + "'"@
}

/// What adding up the delegations `s` gives: their total when they are all in the
/// denomination of the first, otherwise an error naming that denomination and the
/// first one that differs.
pub open spec fn bonded_outcome(s: Seq<Coin>) -> Result<nat, Seq<char>> {
    if s.len() == 0 {
        Ok(0)
    } else {
        let k = matching_len(s, s[0].denom@);
        if k == s.len() {
            Ok(coin_total(s))
        } else {
            Err(denoms_differ_msg(s[0].denom@, s[k as int].denom@))
        }
    }
}

/// The sum of the delegations that are added up before the first one in another
/// denomination fits in a `u128`.
pub open spec fn bonded_fits(s: Seq<Coin>) -> bool {
    s.len() == 0 || coin_total(s.take(matching_len(s, s[0].denom@) as int)) <= u128::MAX
}

/// `r` is what `get_bonded` reports for the delegations `s`.
pub open spec fn bonded_reported(r: Result<u128, StdError>, s: Seq<Coin>) -> bool {
    match bonded_outcome(s) {
        Ok(t) => r matches Ok(v) && v == t,
        Err(m) => r matches Err(StdError::GenericErr { msg }) && msg@ == m,
    }
}

proof fn lemma_matching_len(s: Seq<Coin>, d: Seq<char>)
    ensures
        matching_len(s, d) <= s.len(),
        same_denom(s.take(matching_len(s, d) as int), d),
        matching_len(s, d) < s.len() ==> s[matching_len(s, d) as int].denom@ != d,
    decreases s.len(),
{
    if same_denom(s, d) || s.len() == 0 {
        assert(s.take(s.len() as int) =~= s);
    } else {
        let t = s.drop_last();
        lemma_matching_len(t, d);
        let k = matching_len(t, d);
        assert(t.take(k as int) =~= s.take(k as int));
        if k == t.len() {
            assert(t.take(k as int) =~= t);
            assert(!same_denom(s, d));
            let j = choose|j: int| 0 <= j < s.len() && (#[trigger] s[j]).denom@ != d;
            if j < t.len() {
                assert(t[j] == s[j]);
            }
        }
    }
}

proof fn lemma_total_prefix(s: Seq<Coin>, i: int, j: int)
    requires
        0 <= i <= j <= s.len(),
    ensures
        coin_total(s.take(i)) <= coin_total(s.take(j)),
    decreases j - i,
{
    if i < j {
        lemma_total_prefix(s, i, j - 1);
        assert(s.take(j).drop_last() =~= s.take(j - 1));
    }
}

proof fn lemma_total_remove(t: Seq<Coin>, i: int)
    requires
        0 <= i < t.len(),
    ensures
        coin_total(t) == coin_total(t.remove(i)) + t[i].amount,
    decreases t.len(),
{
    if i == t.len() - 1 {
        assert(t.remove(i) =~= t.drop_last());
    } else {
        lemma_total_remove(t.drop_last(), i);
        assert(t.drop_last().remove(i) =~= t.remove(i).drop_last());
        assert(t.remove(i).last() == t.last());
    }
}

proof fn lemma_total_permutation(s: Seq<Coin>, t: Seq<Coin>)
    requires
        s.to_multiset() == t.to_multiset(),
    ensures
        coin_total(s) == coin_total(t),
    decreases s.len(),
{
    broadcast use vstd::seq_lib::group_to_multiset_ensures, vstd::multiset::group_multiset_axioms;

    if s.len() == 0 {
        assert(t.to_multiset().len() == 0);
    } else {
        let x = s.last();
        let rest = s.drop_last();
        assert(rest.push(x) =~= s);
        assert(s.to_multiset().count(x) > 0);
        assert(t.contains(x));
        let i = choose|i: int| 0 <= i < t.len() && t[i] == x;
        assert(t.remove(i).to_multiset() =~= rest.to_multiset());
        lemma_total_permutation(rest, t.remove(i));
        lemma_total_remove(t, i);
    }
}

proof fn lemma_same_denom_permutation(s: Seq<Coin>, t: Seq<Coin>, d: Seq<char>)
    requires
        s.to_multiset() == t.to_multiset(),
        same_denom(s, d),
    ensures
        same_denom(t, d),
{
    broadcast use vstd::seq_lib::group_to_multiset_ensures;

    assert forall|j: int| 0 <= j < t.len() implies (#[trigger] t[j]).denom@ == d by {
        assert(t.contains(t[j]));
        assert(s.to_multiset().count(t[j]) > 0);
        assert(s.contains(t[j]));
    }
}

proof fn lemma_outcome_ok(s: Seq<Coin>)
    ensures
        bonded_outcome(s) is Ok <==> s.len() == 0 || same_denom(s, s[0].denom@),
{
    if s.len() > 0 {
        lemma_matching_len(s, s[0].denom@);
        let k = matching_len(s, s[0].denom@);
        if k == s.len() {
            assert(s.take(k as int) =~= s);
        }
    }
}

/// The order of the delegations does not matter: a reordering of them adds up
/// exactly when they do, and to the same total.
pub proof fn law_bonded_order_independent(s: Seq<Coin>, t: Seq<Coin>)
    requires
        s.to_multiset() == t.to_multiset(),
    ensures
        (bonded_outcome(s) is Ok) == (bonded_outcome(t) is Ok),
        bonded_outcome(s) is Ok ==> bonded_outcome(s) == bonded_outcome(t),
{
    broadcast use vstd::seq_lib::group_to_multiset_ensures;

    lemma_outcome_ok(s);
    lemma_outcome_ok(t);
    lemma_total_permutation(s, t);
    assert(s.to_multiset().len() == t.to_multiset().len());
    if s.len() > 0 {
        // The first coin of each is one of the other's.
        assert(s.contains(s[0]));
        assert(t.to_multiset().count(s[0]) > 0);
        assert(t.contains(t[0]));
        assert(s.to_multiset().count(t[0]) > 0);
        if same_denom(s, s[0].denom@) {
            assert(s.contains(t[0]));
            lemma_same_denom_permutation(s, t, s[0].denom@);
            assert(t[0].denom@ == s[0].denom@);
        }
        if same_denom(t, t[0].denom@) {
            assert(t.contains(s[0]));
            lemma_same_denom_permutation(t, s, t[0].denom@);
            assert(s[0].denom@ == t[0].denom@);
        }
    }
}

fn denoms_differ_message(first: &String, other: &String) -> (m: String)
    ensures
        m@ == denoms_differ_msg(first@, other@),
{
    let mut m = "different denoms in bonds: '".to_owned();
    m.append(first.as_str());
    m.append("' vs '");
    m.append(other.as_str());
    m.append("'");
    m
}

/// How far adding up a non-empty list of delegations got.
enum Scan {
    /// All are in the first one's denomination; this is their total.
    Total(u128),
    /// The delegation at this index is the first in another denomination.
    Mismatch(usize),
    /// The total of the run in the first one's denomination exceeds `u128`.
    Overflow,
}

fn scan_bonds(bonds: &[Coin]) -> (r: Scan)
    requires
        bonds@.len() > 0,
    ensures
        ({
            let s = bonds@;
            let k = matching_len(s, s[0].denom@);
            match r {
                Scan::Total(t) => k == s.len() && t == coin_total(s),
                Scan::Mismatch(i) => i == k && k < s.len() && coin_total(s.take(k as int))
                    <= u128::MAX,
                Scan::Overflow => coin_total(s.take(k as int)) > u128::MAX,
            }
        }),
{
    let n = bonds.len();
    let denom = &bonds[0].denom;
    let ghost s = bonds@;
    let ghost d = s[0].denom@;
    proof {
        lemma_matching_len(s, d);
    }
    let ghost k = matching_len(s, d) as int;
    let mut acc: u128 = 0;
    let mut i: usize = 0;
    while i < n
        invariant
            n == s.len(),
            s == bonds@,
            0 < n,
            0 <= i <= n,
            *denom == s[0].denom,
            d == s[0].denom@,
            k == matching_len(s, d),
            k <= n,
            same_denom(s.take(k), d),
            k < n ==> s[k].denom@ != d,
            i <= k,
            acc == coin_total(s.take(i as int)),
        decreases n - i,
    {
        if !(bonds[i].denom == *denom) {
            proof {
                if i < k {
                    assert(s.take(k)[i as int] == s[i as int]);
                }
            }
            return Scan::Mismatch(i);
        }
        proof {
            assert(s.take(i + 1).drop_last() =~= s.take(i as int));
            if k == i {
                assert(k < n);
            }
        }
        match acc.checked_add(bonds[i].amount) {
            Some(sum) => {
                acc = sum;
            },
            None => {
                proof {
                    lemma_total_prefix(s, i + 1, k);
                }
                return Scan::Overflow;
            },
        }
        i = i + 1;
    }
    proof {
        assert(s.take(n as int) =~= s);
    }
    Scan::Total(acc)
}

/// Whether the delegations `bonds` add up within `u128` as far as `get_bonded`
/// adds them.
pub fn bonded_total_fits(bonds: &[Coin]) -> (r: bool)
    ensures
        r == bonded_fits(bonds@),
{
    if bonds.len() == 0 {
        return true;
    }
    match scan_bonds(bonds) {
        Scan::Overflow => false,
        _ => {
            proof {
                assert(bonds@.take(bonds@.len() as int) =~= bonds@);
            }
            true
        },
    }
}

/// The total amount of the delegations `bonds`, all of which must be in one
/// denomination.
pub fn get_bonded(bonds: &[Coin]) -> (r: Result<u128, StdError>)
    requires
        bonded_fits(bonds@),
    ensures
        bonded_reported(r, bonds@),
{
    if bonds.len() == 0 {
        return Ok(0);
    }
    match scan_bonds(bonds) {
        Scan::Total(t) => Ok(t),
        Scan::Mismatch(i) => Err(
            StdError::GenericErr { msg: denoms_differ_message(&bonds[0].denom, &bonds[i].denom) },
        ),
        Scan::Overflow => {
            proof {
                // `bonded_fits` rules this case out.
                assert(false);
            }
            Ok(0)
        },
    }
}

// ---------------------------------------------------------------------------
// Instantiation

/// `r` is the response to instantiation by `owner`: no message, and the
/// attributes `method` = `instantiate` and `owner` = the owner.
pub open spec fn is_instantiate_response(r: Response, owner: Seq<char>) -> bool {
    &&& r.messages@.len() == 0
    &&& r.attributes@.len() == 2
    &&& is_attribute(r.attributes@[0], "method"@, "instantiate"@)
    &&& is_attribute(r.attributes@[1], "owner"@, owner)
}

/// Sets up the contract's storage: the configuration taken from `msg` and
/// dated `block_time`, the sequence at 0, no claim.
pub fn instantiate(block_time: Timestamp, msg: InstantiateMsg) -> (r: (Store, Response))
    ensures
        r.0@.config == (Config {
            owner: msg.owner,
            icon_url: msg.icon_url,
            title: msg.title,
            description: msg.description,
            create_date: block_time,
            required: msg.required,
        }),
        r.0@.seq == 0,
        r.0@.history.len() == 0,
        ledger_wf(r.0@),
        ledger_numbered(r.0@),
        all_airdrop_records(r.0@),
        is_instantiate_response(r.1, msg.owner@),
{
    let mut attributes = Vec::new();
    attributes.push(attribute("method", "instantiate"));
    attributes.push(attribute("owner", msg.owner.as_str()));
    let config = Config {
        owner: msg.owner,
        icon_url: msg.icon_url,
        title: msg.title,
        description: msg.description,
        create_date: block_time,
        required: msg.required,
    };
    let store = Ledger::new(config);
    (store, Response { messages: Vec::new(), attributes })
}

// ---------------------------------------------------------------------------
// Claims

/// `e` records a claim by `sender` at `time`, saved under `id`: one airdrop
/// amount in the airdrop's denomination.
pub open spec fn is_claim_record(e: AirdropList, id: u64, time: Timestamp, sender: Seq<char>) -> bool {
    &&& e.id == id
    &&& e.date == time
    &&& e.amount.denom@ == DENOM@
    &&& e.amount.amount == AIRDROP_AMOUNT
    &&& e.to@ == sender
}

/// `r` is the response to a claim by `sender`: the attribute `action` =
/// `claim_airdrop`, and one bank message that sends the airdrop amount to the sender.
pub open spec fn is_claim_response(r: Response, sender: Seq<char>) -> bool {
    &&& r.attributes@.len() == 1
    &&& is_attribute(r.attributes@[0], "action"@, "claim_airdrop"@)
    &&& r.messages@.len() == 1
    &&& r.messages@[0] matches BankMsg::Send { to_address, amount }
    &&& to_address@ == sender
    &&& is_single_coin(amount@, AIRDROP_AMOUNT, DENOM@)
}

/// Every stored record is an airdrop payment: one airdrop amount in the airdrop's
/// denomination.
pub open spec fn all_airdrop_records(v: StoreView) -> bool {
    forall|k: int|
        0 <= k < v.history.len() ==> (#[trigger] v.history[k]).1.amount.denom@ == DENOM@
            && v.history[k].1.amount.amount == AIRDROP_AMOUNT
}

/// `new` is `old` with one more claim, by `sender` at `time`, saved under the next id.
pub open spec fn claimed(old: StoreView, new: StoreView, time: Timestamp, sender: Seq<char>) -> bool {
    &&& old.seq < u64::MAX
    &&& exists|e: AirdropList|
        is_claim_record(e, (old.seq + 1) as u64, time, sender) && new == #[trigger] ledger_after_record(
            old,
            e,
        )
}

/// A claim backed by the delegations `bonds` is paid: they add up, to more than zero.
pub open spec fn claim_succeeds(bonds: Seq<Coin>) -> bool {
    bonded_outcome(bonds) matches Ok(t) && t > 0
}

/// The outcome of a claim by `sender` at `time`, backed by the delegations
/// `bonds`: an error when they do not add up, `UnauthorizedBoundRules` when they
/// add up to zero, with the storage unchanged in both cases; otherwise the claim
/// is recorded and paid.
pub open spec fn claim_outcome(
    old: StoreView,
    new: StoreView,
    bonds: Seq<Coin>,
    sender: Seq<char>,
    time: Timestamp,
    r: Result<Response, ContractError>,
) -> bool {
    match bonded_outcome(bonds) {
        Err(m) => {
            &&& new == old
            &&& r matches Err(ContractError::Std(StdError::GenericErr { msg }))
            &&& msg@ == m
        },
        Ok(t) => if t == 0 {
            &&& new == old
            &&& r matches Err(ContractError::UnauthorizedBoundRules {})
        } else {
            &&& claimed(old, new, time, sender)
            &&& r matches Ok(resp)
            &&& is_claim_response(resp, sender)
        },
    }
}

/// Pays the airdrop to `sender` when the delegations `delegations` of the sender
/// add up to more than zero, and records the claim under the next id.
pub fn claim_airdrop(
    store: &mut Store,
    delegations: &[Coin],
    sender: String,
    block_time: Timestamp,
) -> (r: Result<Response, ContractError>)
    requires
        bonded_fits(delegations@),
        claim_succeeds(delegations@) ==> old(store)@.seq < u64::MAX,
    ensures
        claim_outcome(old(store)@, final(store)@, delegations@, sender@, block_time, r),
{
    let seq = store.seq();
    let bonded = match get_bonded(delegations) {
        Ok(b) => b,
        Err(e) => return Err(ContractError::Std(e)),
    };
    if bonded == 0 {
        return Err(ContractError::UnauthorizedBoundRules {});
    }
    let amount = coin(AIRDROP_AMOUNT, DENOM);
    let mut sent = Vec::new();
    sent.push(amount.clone());
    let airdrop_msg = BankMsg::Send { to_address: sender.clone(), amount: sent };
    let id = seq + 1;
    store.record(AirdropList { id, date: block_time, amount, to: sender });
    let mut attributes = Vec::new();
    attributes.push(attribute("action", "claim_airdrop"));
    let mut messages = Vec::new();
    messages.push(airdrop_msg);
    Ok(Response { messages, attributes })
}

/// Runs an execute request.
pub fn execute(
    store: &mut Store,
    delegations: &[Coin],
    sender: String,
    block_time: Timestamp,
    msg: ExecuteMsg,
) -> (r: Result<Response, ContractError>)
    requires
        bonded_fits(delegations@),
        claim_succeeds(delegations@) ==> old(store)@.seq < u64::MAX,
    ensures
        match msg {
            ExecuteMsg::ClaimAirdrop {  } => claim_outcome(
                old(store)@,
                final(store)@,
                delegations@,
                sender@,
                block_time,
                r,
            ),
        },
{
    match msg {
        ExecuteMsg::ClaimAirdrop {  } => claim_airdrop(store, delegations, sender, block_time),
    }
}

// ---------------------------------------------------------------------------
// Queries

/// A page of the claim history: the claims after `start_after`, in ascending
/// order of id, at most `limit` of them (10 when no limit is given, never more
/// than 30).
pub fn airdrop_history(store: &Store, start_after: Option<u64>, limit: Option<u32>) -> (r:
    GetAirdropListResponse)
    ensures
        r.entries@ == page_of(store@.history, start_after, effective_limit(limit)),
{
    let limit = page_limit(limit);
    GetAirdropListResponse { entries: store.history().page(start_after, limit) }
}

/// The balance `balance` of an address, with the total of its delegations
/// `delegations` written in decimal.
pub fn wallet_info(balance: Coin, delegations: &[Coin]) -> (r: Result<WalletInfoResponse, StdError>)
    requires
        bonded_fits(delegations@),
    ensures
        match bonded_outcome(delegations@) {
            Ok(t) => r matches Ok(w) && w.balance.amount == balance && w.bonded@ == decimal(t),
            Err(m) => r matches Err(StdError::GenericErr { msg }) && msg@ == m,
        },
{
    let bonded = match get_bonded(delegations) {
        Ok(b) => b,
        Err(e) => return Err(e),
    };
    Ok(WalletInfoResponse { balance: BalanceResponse { amount: balance }, bonded: uint128_to_string(bonded) })
}

/// The configuration the contract was instantiated with.
pub fn get_config(store: &Store) -> (r: ConfigInfoResponse)
    ensures
        r.owner == store@.config.owner,
        r.icon_url == store@.config.icon_url,
        r.title == store@.config.title,
        r.description == store@.config.description,
        r.create_date == store@.config.create_date,
        r.required == store@.config.required,
{
    let config = store.config();
    ConfigInfoResponse {
        owner: config.owner.clone(),
        icon_url: config.icon_url.clone(),
        title: config.title.clone(),
        description: config.description.clone(),
        create_date: config.create_date,
        required: config.required,
    }
}

// ---------------------------------------------------------------------------
// Laws

/// A claim keeps the numbering: on storage whose records are stored under 1
/// through the sequence, each carrying its id, the sequence moves on by one, the
/// new record is stored under it, and the earlier records stay as they were.
pub proof fn law_claim_keeps_numbering(
    old: StoreView,
    new: StoreView,
    time: Timestamp,
    sender: Seq<char>,
)
    requires
        ledger_numbered(old),
        claimed(old, new, time, sender),
    ensures
        ledger_numbered(new),
        new.seq == old.seq + 1,
        new.history.take(old.history.len() as int) == old.history,
        new.config == old.config,
        is_claim_record(new.history.last().1, new.seq, time, sender),
{
    let e = choose|e: AirdropList|
        is_claim_record(e, (old.seq + 1) as u64, time, sender) && new == ledger_after_record(old, e);
    lemma_numbered_wf(old);
    lemma_record_appends(old, e);
    assert(new.history.take(old.history.len() as int) =~= old.history);
    assert forall|i: int| 0 <= i < new.history.len() implies (#[trigger] new.history[i]).0 == i + 1
        && new.history[i].1.entry_id() == i + 1 by {
        if i < old.history.len() {
            assert(new.history[i] == old.history[i]);
        }
    }
}

/// Whatever a claim request's outcome, storage numbered 1 through the sequence
/// stays so, every record in it stays an airdrop payment, the earlier records and
/// the configuration stay as they were, and the sequence moves on by one exactly
/// when the request succeeds.
pub proof fn law_claims_keep_history(
    old: StoreView,
    new: StoreView,
    bonds: Seq<Coin>,
    sender: Seq<char>,
    time: Timestamp,
    r: Result<Response, ContractError>,
)
    requires
        ledger_numbered(old),
        all_airdrop_records(old),
        claim_outcome(old, new, bonds, sender, time, r),
    ensures
        ledger_numbered(new),
        all_airdrop_records(new),
        new.seq == old.seq + (if r is Ok {
            1int
        } else {
            0int
        }),
        new.history.take(old.history.len() as int) == old.history,
        new.config == old.config,
{
    if r is Ok {
        law_claim_keeps_numbering(old, new, time, sender);
        assert forall|k: int| 0 <= k < new.history.len() implies (#[trigger] new.history[k]).1.amount.denom@
            == DENOM@ && new.history[k].1.amount.amount == AIRDROP_AMOUNT by {
            if k < old.history.len() {
                assert(new.history[k] == old.history[k]);
            }
        }
    } else {
        assert(new.history.take(old.history.len() as int) =~= old.history);
    }
}

/// A claim is paid exactly when the delegations are all in one denomination and
/// add up to more than zero; it is refused with `UnauthorizedBoundRules`
/// exactly when they are all in one denomination (or there are none) and add up
/// to zero. A paid claim sends the airdrop amount to the sender and moves the
/// sequence on by one; a refused one leaves the storage as it was.
pub proof fn law_claim_paid_exactly_when_bonded(
    old: StoreView,
    new: StoreView,
    bonds: Seq<Coin>,
    sender: Seq<char>,
    time: Timestamp,
    r: Result<Response, ContractError>,
)
    requires
        keys_sorted(old.history),
        claim_outcome(old, new, bonds, sender, time, r),
    ensures
        (r is Ok) <==> (bonds.len() > 0 && (forall|j: int|
            0 <= j < bonds.len() ==> (#[trigger] bonds[j]).denom@ == bonds[0].denom@) && coin_total(
            bonds,
        ) > 0),
        (r matches Err(ContractError::UnauthorizedBoundRules {  })) <==> ((forall|j: int|
            0 <= j < bonds.len() ==> (#[trigger] bonds[j]).denom@ == bonds[0].denom@) && coin_total(
            bonds,
        ) == 0),
        r matches Ok(resp) ==> {
            &&& new.seq == old.seq + 1
            &&& resp.messages@.len() == 1
            &&& resp.messages@[0] matches BankMsg::Send { to_address, amount }
            &&& to_address@ == sender
            &&& amount@.len() == 1
            &&& amount@[0].amount == 1000000
            &&& amount@[0].denom@ == "udao"@
            &&& exists|i: int|
                0 <= i < new.history.len() && (#[trigger] new.history[i]).0 == new.seq && {
                    let e = new.history[i].1;
                    &&& e.id == new.seq
                    &&& e.date == time
                    &&& e.amount.amount == 1000000
                    &&& e.amount.denom@ == "udao"@
                    &&& e.to@ == sender
                }
        },
        !(r is Ok) ==> new == old,
{
    lemma_outcome_ok(bonds);
    if r is Ok {
        let e = choose|e: AirdropList|
            is_claim_record(e, (old.seq + 1) as u64, time, sender) && new == ledger_after_record(old, e);
        law_save_is_map_update(old.history, (old.seq + 1) as u64, e);
        let i = choose|i: int| 0 <= i < new.history.len() && new.history[i] == ((old.seq + 1) as u64, e);
        assert(new.history[i].0 == new.seq);
    }
}

/// Delegations in one denomination add up: none give 0, and one more delegation
/// of that denomination adds its amount; delegations in two denominations give
/// an error naming the first one's denomination.
pub proof fn law_bonded_adds_up(s: Seq<Coin>, c: Coin)
    ensures
        bonded_outcome(Seq::<Coin>::empty()) == Ok::<nat, Seq<char>>(0),
        s.len() > 0 && (forall|j: int| 0 <= j < s.len() ==> (#[trigger] s[j]).denom@ == s[0].denom@)
            && c.denom@ == s[0].denom@ ==> bonded_outcome(s.push(c)) == Ok::<nat, Seq<char>>(
            bonded_outcome(s)->Ok_0 + c.amount as nat,
        ),
        s.len() > 0 && c.denom@ != s[0].denom@ ==> (bonded_outcome(s.push(c)) matches Err(m)
            && m.take(28) == "different denoms in bonds: '"@ && m.subrange(
            28,
            28 + s[0].denom@.len() as int,
        ) == s[0].denom@),
{
    let t = s.push(c);
    lemma_outcome_ok(Seq::<Coin>::empty());
    if s.len() > 0 {
        lemma_outcome_ok(s);
        lemma_outcome_ok(t);
        if (forall|j: int| 0 <= j < s.len() ==> (#[trigger] s[j]).denom@ == s[0].denom@) && c.denom@
            == s[0].denom@ {
            assert(t.drop_last() =~= s);
            assert(t[0] == s[0]);
            assert forall|j: int| 0 <= j < t.len() implies (#[trigger] t[j]).denom@ == t[0].denom@ by {
                if j < s.len() {
                    assert(t[j] == s[j]);
                }
            }
        }
        if c.denom@ != s[0].denom@ {
            assert(t[0] == s[0]);
            assert(t[t.len() - 1] == c);
            assert(!same_denom(t, t[0].denom@));
            reveal_strlit("different denoms in bonds: '");
            let k = matching_len(t, t[0].denom@);
            let m = denoms_differ_msg(t[0].denom@, t[k as int].denom@);
            assert(m.take(28) =~= "different denoms in bonds: '"@);
            assert(m.subrange(28, 28 + s[0].denom@.len() as int) =~= s[0].denom@);
        }
    }
}

/// A claim can be read back: on storage with no record beyond the sequence,
/// right after it a history page that starts after the previous id holds exactly
/// the new record, and still no record lies beyond the sequence.
pub proof fn law_claim_read_back(
    old: StoreView,
    new: StoreView,
    time: Timestamp,
    sender: Seq<char>,
    limit: nat,
)
    requires
        ledger_wf(old),
        claimed(old, new, time, sender),
        limit >= 1,
    ensures
        ledger_wf(new),
        page_of(new.history, Some(old.seq), limit).len() == 1,
        is_claim_record(page_of(new.history, Some(old.seq), limit)[0], new.seq, time, sender),
{
    let e = choose|e: AirdropList|
        is_claim_record(e, (old.seq + 1) as u64, time, sender) && new == ledger_after_record(old, e);
    lemma_record_appends(old, e);
    let h = new.history;
    lemma_count_upto_at(h, old.seq as int, old.history.len() as int);
    lemma_after_sorted(h, Some(old.seq));
    assert(page_of(h, Some(old.seq), limit) =~= seq![e]);
}

} // verus!
