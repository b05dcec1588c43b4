use fix_engine::orderstore::Order;
use fix_engine::orderstore::OrderStore;
use fix_engine::orderstore::add_order_to_store;
use fix_engine::orderstore::remove_order_from_store;
use fix_engine::orderstore::update_order_in_store;
use fix_engine::sequence::SequenceNumberStore;
use fix_engine::strmap::StrMap;

#[test]
fn test_new_creates_default_sequence_numbers() {
    let store = SequenceNumberStore::new();

    assert_eq!(store.get_incoming(), 1);
    assert_eq!(store.get_outgoing(), 1);
}

#[test]
fn test_new_loads_existing_sequence_numbers() {
    let existing_data = r#"{"incoming": 42, "outgoing": 100}"#;

    let store = SequenceNumberStore::from_json(existing_data);

    assert_eq!(store.get_incoming(), 42);
    assert_eq!(store.get_outgoing(), 100);
}

#[test]
fn test_increment_incoming() {
    let mut store = SequenceNumberStore::new();

    store.increment_incoming();
    assert_eq!(store.get_incoming(), 2);
}

#[test]
fn test_increment_outgoing() {
    let mut store = SequenceNumberStore::new();

    store.increment_outgoing();
    assert_eq!(store.get_outgoing(), 2);
}

#[test]
fn test_set_incoming() {
    let mut store = SequenceNumberStore::new();

    store.set_incoming(10);
    assert_eq!(store.get_incoming(), 10);
}

#[test]
fn test_set_outgoing() {
    let mut store = SequenceNumberStore::new();

    store.set_outgoing(20);
    assert_eq!(store.get_outgoing(), 20);
}

#[test]
fn test_persist_data() {
    let mut store = SequenceNumberStore::new();

    store.set_incoming(99);
    store.set_outgoing(88);

    // Reload the persisted record to verify it round-trips.
    let reloaded_store = SequenceNumberStore::from_json(store.to_json().as_str());
    assert_eq!(reloaded_store.get_incoming(), 99);
    assert_eq!(reloaded_store.get_outgoing(), 88);
}

#[test]
fn test_handles_corrupt_file() {
    let store = SequenceNumberStore::from_json("invalid_json");

    assert_eq!(store.get_incoming(), 1);
    assert_eq!(store.get_outgoing(), 1);
}

#[test]
fn test_record_json_shape() {
    let mut store = SequenceNumberStore::new();
    store.set_incoming(42);
    store.set_outgoing(100);
    assert_eq!(store.to_json(), "{\"incoming\":42,\"outgoing\":100}");
}

fn sample_order(id: u64, status: &str) -> Order {
    Order {
        id,
        account: String::new(),
        symbol: "XYZ".to_string(),
        side: "1".to_string(),
        quantity: 10,
        price: 25,
        ordtype: "2".to_string(),
        transacttime: "20240101-00:00:00".to_string(),
        ordstatus: status.to_string(),
    }
}

#[test]
fn test_order_lifecycle_add_and_cancel() {
    let mut store = OrderStore::new();
    let mut msg: StrMap<String> = StrMap::new();
    msg.insert("ClOrdID".to_string(), "42".to_string());
    msg.insert("Symbol".to_string(), "XYZ".to_string());
    msg.insert("Side".to_string(), "1".to_string());
    msg.insert("OrderQty".to_string(), "10".to_string());
    msg.insert("Price".to_string(), "25".to_string());
    msg.insert("OrdType".to_string(), "2".to_string());
    msg.insert("TransactTime".to_string(), "20240101-00:00:00".to_string());
    msg.insert("OrdStatus".to_string(), "New".to_string());

    add_order_to_store(&mut store, &msg).unwrap();
    let stored = store.get_order(42).unwrap();
    assert_eq!(stored.ordstatus, "New");

    // A cancel locates the order by OrigClOrdID, marks it Canceled, and
    // records the request's new ClOrdID on it.
    msg.insert("OrigClOrdID".to_string(), "42".to_string());
    msg.insert("ClOrdID".to_string(), "43".to_string());
    msg.insert("OrdStatus".to_string(), "Canceled".to_string());
    update_order_in_store(&mut store, &msg).unwrap();
    let canceled = store.get_order(42).unwrap();
    assert_eq!(canceled.ordstatus, "Canceled");
    assert_eq!(canceled.id, 43);
    assert!(store.get_order(43).is_none());

    // A further cancel of an unknown original id does not mutate the store.
    msg.insert("OrigClOrdID".to_string(), "77".to_string());
    let r = update_order_in_store(&mut store, &msg);
    assert!(r.is_err());
    assert!(store.get_order(77).is_none());
    assert_eq!(store.get_order(42).unwrap().ordstatus, "Canceled");
    assert_eq!(store.count(), 1);
}

#[test]
fn test_update_order_unknown_id_fails() {
    let mut store = OrderStore::new();
    let r = store.update_order(sample_order(7, "Replaced"));
    assert!(r.is_err());
    assert_eq!(store.count(), 0);
}

#[test]
fn test_remove_order_from_store_by_clordid() {
    let mut store = OrderStore::new();
    store.add_order(sample_order(5, "New")).unwrap();
    let mut msg: StrMap<String> = StrMap::new();
    msg.insert("ClOrdID".to_string(), "5".to_string());
    remove_order_from_store(&mut store, &msg).unwrap();
    assert!(store.get_order(5).is_none());
}
