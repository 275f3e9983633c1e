//! The two pieces of state the bridge keeps: the single-slot record
//! of the last successful transaction hash, and the store of contract
//! events keyed by event id.

use vstd::prelude::*;
use vstd::string::StringExecFns;
use crate::strutil::str_eq;

verus! {

/// A contract event as the canister interface exposes it.
pub struct CandidContractEvent {
    /// Contract that emitted the event.
    pub contract_id: String,
    /// Event id, unique per event.
    pub id: String,
    /// Ledger number the event was found in.
    pub ledger: u32,
    /// Topic strings.
    pub topic: Vec<String>,
    /// Event value in its wire form.
    pub xdr_value: String,
    /// Paging token.
    pub paging_token: String,
}

/// A contract event as it arrives, with the value nested.
pub struct ContractEvent {
    /// Contract that emitted the event.
    pub contract_id: String,
    /// Event id, unique per event.
    pub id: String,
    /// Ledger number the event was found in.
    pub ledger: u32,
    /// Topic strings.
    pub topic: Vec<String>,
    /// The nested value.
    pub value: EventValue,
    /// Paging token.
    pub paging_token: String,
}

/// The nested value of an arriving event.
pub struct EventValue {
    /// The value in its wire form.
    pub xdr: String,
}

/// Mathematical model of a stored event.
pub struct EventView {
    pub contract_id: Seq<char>,
    pub id: Seq<char>,
    pub ledger: u32,
    pub topic: Seq<Seq<char>>,
    pub xdr_value: Seq<char>,
    pub paging_token: Seq<char>,
}

impl View for CandidContractEvent {
    type V = EventView;

    open spec fn view(&self) -> EventView {
        EventView {
            contract_id: self.contract_id@,
            id: self.id@,
            ledger: self.ledger,
            topic: self.topic.deep_view(),
            xdr_value: self.xdr_value@,
            paging_token: self.paging_token@,
        }
    }
}

impl From<ContractEvent> for CandidContractEvent {
    /// Flatten an arriving event: the nested value becomes the flat
    /// wire-form field.
    fn from(event: ContractEvent) -> (r: CandidContractEvent) {
        CandidContractEvent {
            contract_id: event.contract_id,
            id: event.id,
            ledger: event.ledger,
            topic: event.topic,
            xdr_value: event.value.xdr,
            paging_token: event.paging_token,
        }
    }
}

impl vstd::std_specs::convert::FromSpecImpl<ContractEvent> for CandidContractEvent {
    open spec fn obeys_from_spec() -> bool {
        true
    }

    open spec fn from_spec(event: ContractEvent) -> CandidContractEvent {
        CandidContractEvent {
            contract_id: event.contract_id,
            id: event.id,
            ledger: event.ledger,
            topic: event.topic,
            xdr_value: event.value.xdr,
            paging_token: event.paging_token,
        }
    }
}

/// The single-slot record of the last successful transaction hash:
/// empty at start, overwritten on each success, never cleared.
pub struct TxRecord {
    /// The last hash, while one was recorded.
    pub last: Option<String>,
}

impl TxRecord {
    /// An empty record.
    pub fn new() -> (r: TxRecord)
        ensures
            r.last is None,
    {
        TxRecord { last: None }
    }

    /// Overwrite the slot with the hash of a successful submission.
    pub fn record(&mut self, hash: String)
        ensures
            final(self).last == Some(hash),
    {
        self.last = Some(hash);
    }

    /// The last recorded hash, if any.
    pub fn latest(&self) -> (r: Option<String>)
        ensures
            match r {
                Some(h) => self.last is Some && h@ == self.last->0@,
                None => self.last is None,
            },
    {
        match &self.last {
            Some(h) => Some(h.clone()),
            None => None,
        }
    }

    /// The last recorded hash, or the error the callers show when
    /// none was stored yet.
    pub fn holesky_txn(&self) -> (r: Result<String, String>)
        ensures
            match r {
                Ok(h) => self.last is Some && h@ == self.last->0@,
                Err(m) => self.last is None && m@ == "No transaction hash stored."@,
            },
    {
        match &self.last {
            Some(h) => Ok(h.clone()),
            None => Err(String::from_str("No transaction hash stored.")),
        }
    }
}

/// First event stored under `id`, searching in order.
pub open spec fn spec_find_event(
    entries: Seq<(String, CandidContractEvent)>,
    id: Seq<char>,
) -> Option<EventView>
    decreases entries.len(),
{
    if entries.len() == 0 {
        None
    } else if entries[0].0@ == id {
        Some(entries[0].1@)
    } else {
        spec_find_event(entries.drop_first(), id)
    }
}

/// The entries with key `id` removed.
pub open spec fn spec_drop_key(
    entries: Seq<(String, CandidContractEvent)>,
    id: Seq<char>,
) -> Seq<(String, CandidContractEvent)>
    decreases entries.len(),
{
    if entries.len() == 0 {
        Seq::empty()
    } else if entries[0].0@ == id {
        spec_drop_key(entries.drop_first(), id)
    } else {
        seq![entries[0]] + spec_drop_key(entries.drop_first(), id)
    }
}

/// Dropping one key leaves every other key's lookup unchanged, and
/// the dropped key absent.
proof fn lemma_drop_key_find(entries: Seq<(String, CandidContractEvent)>, id: Seq<char>, k: Seq<char>)
    ensures
        k != id ==> spec_find_event(spec_drop_key(entries, id), k) == spec_find_event(entries, k),
        spec_find_event(spec_drop_key(entries, id), id) is None,
    decreases entries.len(),
{
    if entries.len() > 0 {
        lemma_drop_key_find(entries.drop_first(), id, k);
        if entries[0].0@ != id {
            assert((seq![entries[0]] + spec_drop_key(entries.drop_first(), id)).drop_first()
                =~= spec_drop_key(entries.drop_first(), id));
        }
    }
}

/// Dropping a key commutes with extending the list at the end.
proof fn lemma_drop_key_snoc(
    entries: Seq<(String, CandidContractEvent)>,
    id: Seq<char>,
    kv: (String, CandidContractEvent),
)
    ensures
        kv.0@ == id ==> spec_drop_key(entries.push(kv), id) == spec_drop_key(entries, id),
        kv.0@ != id ==> spec_drop_key(entries.push(kv), id) == spec_drop_key(entries, id).push(
            kv,
        ),
    decreases entries.len(),
{
    reveal_with_fuel(spec_drop_key, 3);
    let lhs = spec_drop_key(entries.push(kv), id);
    if entries.len() == 0 {
        assert(entries.push(kv)[0] == kv);
        assert(entries.push(kv).drop_first() =~= Seq::<(String, CandidContractEvent)>::empty());
        if kv.0@ == id {
            assert(lhs =~= spec_drop_key(entries, id));
        } else {
            assert(lhs =~= spec_drop_key(entries, id).push(kv));
        }
    } else {
        lemma_drop_key_snoc(entries.drop_first(), id, kv);
        assert(entries.push(kv)[0] == entries[0]);
        assert(entries.push(kv).drop_first() =~= entries.drop_first().push(kv));
        if kv.0@ == id {
            assert(lhs =~= spec_drop_key(entries, id));
        } else {
            assert(lhs =~= spec_drop_key(entries, id).push(kv));
        }
    }
}

/// The store of contract events, keyed by event id; a later insert
/// with the same id replaces the earlier event.
pub struct EventStore {
    /// The events, in insertion order, ids unique.
    pub entries: Vec<(String, CandidContractEvent)>,
}

impl EventStore {
    /// An empty store.
    pub fn new() -> (r: EventStore)
        ensures
            r.entries@.len() == 0,
    {
        EventStore { entries: Vec::new() }
    }

    /// Store an event under its id, replacing any event already
    /// stored under it and leaving every other id's event unchanged.
    pub fn insert(&mut self, ev: CandidContractEvent)
        ensures
            spec_find_event(final(self).entries@, ev.id@) == Some(ev@),
            forall|k: Seq<char>|
                k != ev.id@ ==> spec_find_event(final(self).entries@, k) == spec_find_event(
                    old(self).entries@,
                    k,
                ),
    {
        let ghost orig = self.entries@;
        let key = ev.id.clone();
        let mut kept: Vec<(String, CandidContractEvent)> = Vec::new();
        assert(orig.subrange(0, 0) =~= Seq::<(String, CandidContractEvent)>::empty());
        let ghost n = orig.len() as int;
        while self.entries.len() > 0
            invariant
                key@ == ev.id@,
                self.entries@.len() <= n,
                self.entries@ == orig.subrange(n - self.entries@.len(), n),
                kept@ == spec_drop_key(orig.subrange(0, n - self.entries@.len()), ev.id@),
                n == orig.len(),
            decreases self.entries.len(),
        {
            let ghost pre = self.entries@;
            let ghost j = n - pre.len();
            proof {
                assert(0 <= j < n);
                assert(pre[0] == orig.subrange(j, n)[0]);
                assert(pre[0] == orig[j]);
            }
            let kv = self.entries.remove(0);
            proof {
                assert(kv == pre[0]);
                assert(self.entries@ == pre.drop_first());
                assert(pre.drop_first() =~= orig.subrange(j + 1, n));
                lemma_drop_key_snoc(orig.subrange(0, j), ev.id@, orig[j]);
                assert(orig.subrange(0, j + 1) =~= orig.subrange(0, j).push(orig[j]));
            }
            if !str_eq(kv.0.as_str(), key.as_str()) {
                kept.push(kv);
            }
        }
        proof {
            assert(orig.subrange(0, n) =~= orig);
        }
        let ghost dropped = spec_drop_key(orig, ev.id@);
        kept.push((key, ev));
        self.entries = kept;
        proof {
            lemma_drop_key_find(orig, ev.id@, ev.id@);
            assert(spec_find_event(final(self).entries@, ev.id@) == Some(ev@)) by {
                lemma_find_push_absent2(dropped, self.entries@.last(), ev.id@);
            }
            assert forall|k: Seq<char>|
                k != ev.id@ implies spec_find_event(self.entries@, k) == spec_find_event(
                orig,
                k,
            ) by {
                lemma_find_push_other(dropped, self.entries@.last(), k);
                lemma_drop_key_find(orig, ev.id@, k);
            }
        }
    }

    /// The event stored under `id`, if any.
    pub fn get_event_by_id(&self, id: &str) -> (r: Option<CandidContractEvent>)
        ensures
            match r {
                Some(e) => spec_find_event(self.entries@, id@) == Some(e@),
                None => spec_find_event(self.entries@, id@) is None,
            },
    {
        let n = self.entries.len();
        let mut i: usize = 0;
        proof {
            assert(self.entries@.subrange(0, n as int) =~= self.entries@);
        }
        while i < n
            invariant
                n == self.entries@.len(),
                0 <= i <= n,
                spec_find_event(self.entries@.subrange(i as int, n as int), id@)
                    == spec_find_event(self.entries@, id@),
            decreases n - i,
        {
            proof {
                assert(self.entries@.subrange(i as int, n as int).drop_first()
                    =~= self.entries@.subrange(i + 1, n as int));
            }
            if str_eq(self.entries[i].0.as_str(), id) {
                return Some(clone_event(&self.entries[i].1));
            }
            i += 1;
        }
        None
    }

    /// All stored events, in insertion order.
    pub fn get_events(&self) -> (r: Vec<CandidContractEvent>)
        ensures
            r@.map_values(|e: CandidContractEvent| e@) == self.entries@.map_values(
                |kv: (String, CandidContractEvent)| kv.1@,
            ),
    {
        let mut out: Vec<CandidContractEvent> = Vec::new();
        let n = self.entries.len();
        let mut i: usize = 0;
        while i < n
            invariant
                n == self.entries@.len(),
                0 <= i <= n,
                out@.len() == i,
                forall|k: int| 0 <= k < i ==> #[trigger] out@[k]@ == self.entries@[k].1@,
            decreases n - i,
        {
            out.push(clone_event(&self.entries[i].1));
            i += 1;
        }
        proof {
            assert(out@.map_values(|e: CandidContractEvent| e@) =~= self.entries@.map_values(
                |kv: (String, CandidContractEvent)| kv.1@,
            ));
        }
        out
    }
}

/// Appending a pair under an absent key makes that key find it.
proof fn lemma_find_push_absent2(
    prefix: Seq<(String, CandidContractEvent)>,
    kv: (String, CandidContractEvent),
    k: Seq<char>,
)
    requires
        spec_find_event(prefix, k) is None,
        kv.0@ == k,
    ensures
        spec_find_event(prefix.push(kv), k) == Some(kv.1@),
    decreases prefix.len(),
{
    reveal_with_fuel(spec_find_event, 3);
    if prefix.len() == 0 {
        assert(prefix.push(kv)[0] == kv);
        assert(prefix.push(kv).drop_first() =~= Seq::<(String, CandidContractEvent)>::empty());
    } else {
        assert(prefix.push(kv).drop_first() =~= prefix.drop_first().push(kv));
        lemma_find_push_absent2(prefix.drop_first(), kv, k);
    }
}

/// Appending a pair leaves every other key's lookup unchanged.
proof fn lemma_find_push_other(
    prefix: Seq<(String, CandidContractEvent)>,
    kv: (String, CandidContractEvent),
    k: Seq<char>,
)
    requires
        kv.0@ != k,
    ensures
        spec_find_event(prefix.push(kv), k) == spec_find_event(prefix, k),
    decreases prefix.len(),
{
    reveal_with_fuel(spec_find_event, 3);
    if prefix.len() == 0 {
        assert(prefix.push(kv)[0] == kv);
        assert(prefix.push(kv).drop_first() =~= Seq::<(String, CandidContractEvent)>::empty());
    } else {
        assert(prefix.push(kv).drop_first() =~= prefix.drop_first().push(kv));
        lemma_find_push_other(prefix.drop_first(), kv, k);
    }
}

/// A field-by-field copy of a stored event.
pub fn clone_event(e: &CandidContractEvent) -> (r: CandidContractEvent)
    ensures
        r@ == e@,
{
    let mut topic: Vec<String> = Vec::new();
    let n = e.topic.len();
    let mut i: usize = 0;
    while i < n
        invariant
            n == e.topic@.len(),
            0 <= i <= n,
            topic@.len() == i,
            forall|k: int| 0 <= k < i ==> #[trigger] topic@[k]@ == e.topic@[k]@,
        decreases n - i,
    {
        topic.push(e.topic[i].clone());
        i += 1;
    }
    proof {
        assert(topic.deep_view() =~= e.topic.deep_view());
    }
    CandidContractEvent {
        contract_id: e.contract_id.clone(),
        id: e.id.clone(),
        ledger: e.ledger,
        topic,
        xdr_value: e.xdr_value.clone(),
        paging_token: e.paging_token.clone(),
    }
}

} // verus!
