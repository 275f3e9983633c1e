use kosh_bridge::store::CandidContractEvent;
use kosh_bridge::store::ContractEvent;
use kosh_bridge::store::EventStore;
use kosh_bridge::store::EventValue;
use kosh_bridge::store::TxRecord;

fn sample_event(id: &str, ledger: u32) -> CandidContractEvent {
    CandidContractEvent {
        contract_id: String::from("CDTA5IYG"),
        id: String::from(id),
        ledger,
        topic: vec![String::from("lock"), String::from("transfer")],
        xdr_value: String::from("AAAB"),
        paging_token: String::from("p-1"),
    }
}

#[test]
fn tx_record_starts_empty() {
    let record = TxRecord::new();
    assert_eq!(record.latest(), None);
    assert_eq!(record.holesky_txn(), Err(String::from("No transaction hash stored.")));
}

#[test]
fn tx_record_keeps_last_hash() {
    let mut record = TxRecord::new();
    record.record(String::from("0xaaa"));
    assert_eq!(record.latest(), Some(String::from("0xaaa")));
    record.record(String::from("0xbbb"));
    assert_eq!(record.latest(), Some(String::from("0xbbb")));
    assert_eq!(record.holesky_txn(), Ok(String::from("0xbbb")));
}

#[test]
fn event_store_finds_by_id() {
    let mut store = EventStore::new();
    store.insert(sample_event("ev-1", 10));
    store.insert(sample_event("ev-2", 11));
    let found = store.get_event_by_id("ev-1").unwrap();
    assert_eq!(found.id, "ev-1");
    assert_eq!(found.ledger, 10);
    assert_eq!(found.topic, vec![String::from("lock"), String::from("transfer")]);
    assert!(store.get_event_by_id("ev-3").is_none());
}

#[test]
fn event_store_replaces_same_id() {
    let mut store = EventStore::new();
    store.insert(sample_event("ev-1", 10));
    store.insert(sample_event("ev-1", 99));
    let found = store.get_event_by_id("ev-1").unwrap();
    assert_eq!(found.ledger, 99);
    assert_eq!(store.get_events().len(), 1);
}

#[test]
fn event_store_lists_all_events() {
    let mut store = EventStore::new();
    store.insert(sample_event("ev-1", 10));
    store.insert(sample_event("ev-2", 11));
    let all = store.get_events();
    assert_eq!(all.len(), 2);
}

#[test]
fn arriving_event_flattens_into_interface_shape() {
    let arriving = ContractEvent {
        contract_id: String::from("CDTA5IYG"),
        id: String::from("ev-9"),
        ledger: 77,
        topic: vec![String::from("lock")],
        value: EventValue { xdr: String::from("AAAB==") },
        paging_token: String::from("p-9"),
    };
    let flat = CandidContractEvent::from(arriving);
    assert_eq!(flat.id, "ev-9");
    assert_eq!(flat.ledger, 77);
    assert_eq!(flat.xdr_value, "AAAB==");
    assert_eq!(flat.paging_token, "p-9");
}
