use crate::history::{insert_record, keys_sorted, lemma_count_upto_at, numbered, Entry, History};
use vstd::prelude::*;

verus! {

/// What a contract keeps in storage: its configuration, the id of the last record
/// it saved, and the records saved so far with their ids, in ascending order of id.
pub struct LedgerView<C, E> {
    pub config: C,
    pub seq: u64,
    pub history: Seq<(u64, E)>,
}

/// No record is stored under an id beyond the sequence.
pub open spec fn ledger_wf<C, E>(v: LedgerView<C, E>) -> bool {
    &&& keys_sorted(v.history)
    &&& forall|i: int| 0 <= i < v.history.len() ==> (#[trigger] v.history[i]).0 <= v.seq
}

/// The storage as these contracts write it: the records are stored under 1
/// through the sequence, each carrying its id.
pub open spec fn ledger_numbered<C, E: Entry>(v: LedgerView<C, E>) -> bool {
    &&& numbered(v.history)
    &&& v.seq == v.history.len()
}

/// The same ledger after the sequence moves on by one and `e` is saved under the
/// new id.
pub open spec fn ledger_after_record<C, E>(v: LedgerView<C, E>, e: E) -> LedgerView<C, E> {
    LedgerView {
        config: v.config,
        seq: (v.seq + 1) as u64,
        history: insert_record(v.history, (v.seq + 1) as u64, e),
    }
}

/// Storage numbered as these contracts write it keeps no record beyond the sequence.
pub proof fn lemma_numbered_wf<C, E: Entry>(v: LedgerView<C, E>)
    requires
        ledger_numbered(v),
    ensures
        ledger_wf(v),
{
    assert forall|i: int, j: int| 0 <= i < j < v.history.len() implies v.history[i].0
        < v.history[j].0 by {
        assert(v.history[i].0 == i + 1 && v.history[j].0 == j + 1);
    }
}

/// When no record lies beyond the sequence, the next record goes to the end of
/// the history, and still none lies beyond the sequence.
pub proof fn lemma_record_appends<C, E>(v: LedgerView<C, E>, e: E)
    requires
        ledger_wf(v),
        v.seq < u64::MAX,
    ensures
        ledger_after_record(v, e).history == v.history.push(((v.seq + 1) as u64, e)),
        ledger_wf(ledger_after_record(v, e)),
{
    let s = v.history;
    lemma_count_upto_at(s, v.seq as int, s.len() as int);
    assert(s.insert(s.len() as int, ((v.seq + 1) as u64, e)) =~= s.push(((v.seq + 1) as u64, e)));
    let t = s.push(((v.seq + 1) as u64, e));
    assert forall|i: int, j: int| 0 <= i < j < t.len() implies t[i].0 < t[j].0 by {
        if j < s.len() {
            assert(t[i] == s[i] && t[j] == s[j]);
        } else {
            assert(t[i] == s[i]);
        }
    }
    assert forall|i: int| 0 <= i < t.len() implies (#[trigger] t[i]).0 <= v.seq + 1 by {
        if i < s.len() {
            assert(t[i] == s[i]);
        }
    }
}

/// A contract's storage: a configuration item, a sequence item holding the last id
/// used, and a map from ids to records.
pub struct Ledger<C, E: Entry> {
    config: C,
    seq: u64,
    history: History<E>,
}

impl<C, E: Entry> View for Ledger<C, E> {
    type V = LedgerView<C, E>;

    closed spec fn view(&self) -> LedgerView<C, E> {
        LedgerView { config: self.config, seq: self.seq, history: self.history@ }
    }
}

impl<C, E: Entry> Ledger<C, E> {
    /// The storage right after instantiation: `config`, the sequence at 0, no record.
    pub fn new(config: C) -> (l: Self)
        ensures
            l@.config == config,
            l@.seq == 0,
            l@.history == Seq::<(u64, E)>::empty(),
    {
        Ledger { config, seq: 0, history: History::new() }
    }

    /// The storage holding `config`, `seq` and the records `entries` with their
    /// ids, when the ids ascend strictly (as a range over the stored map lists them).
    pub fn from_parts(config: C, seq: u64, entries: Vec<(u64, E)>) -> (r: Option<Self>)
        ensures
            r is Some <==> keys_sorted(entries@),
            r matches Some(l) ==> l@ == (LedgerView { config, seq, history: entries@ }),
    {
        match History::from_entries(entries) {
            Some(history) => Some(Ledger { config, seq, history }),
            None => None,
        }
    }

    /// The configuration.
    pub fn config(&self) -> (r: &C)
        ensures
            *r == self@.config,
    {
        &self.config
    }

    /// The id of the last record saved (0 when there is none).
    pub fn seq(&self) -> (r: u64)
        ensures
            r == self@.seq,
    {
        self.seq
    }

    /// The records saved so far.
    pub fn history(&self) -> (r: &History<E>)
        ensures
            r@ == self@.history,
    {
        &self.history
    }

    /// Moves the sequence on by one and saves `e` under the new id.
    pub(crate) fn record(&mut self, e: E)
        requires
            old(self)@.seq < u64::MAX,
        ensures
            final(self)@ == ledger_after_record(old(self)@, e),
    {
        self.seq = self.seq + 1;
        self.history.save(self.seq, e);
    }
}

} // verus!
