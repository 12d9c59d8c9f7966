use redis_events::RedisEvents;
use std::cell::RefCell;
use std::collections::HashMap;
use std::rc::Rc;

type Callback = Box<dyn Fn(&str, &str, String)>;

/// An in-memory stand-in for the store: a missing field is a failed lookup.
struct Store {
    fields: HashMap<(String, String), String>,
}

impl Store {
    fn new() -> Store {
        Store { fields: HashMap::new() }
    }

    fn hset(&mut self, hash: &str, field: &str, value: &str) {
        self.fields.insert((hash.to_string(), field.to_string()), value.to_string());
    }

    fn hget(&self, hash: &str, field: &str) -> Option<String> {
        self.fields.get(&(hash.to_string(), field.to_string())).cloned()
    }
}

/// One poll cycle: every watched key is looked up and handed to the engine,
/// and the key's callback is invoked when the engine reports a change.
fn cycle(events: &mut RedisEvents<Callback>, store: &Store) {
    for (hash, field) in events.watched_keys() {
        let lookup = store.hget(&hash, &field);
        if let Some(value) = events.observe(&hash, &field, lookup) {
            let callback = events.callback(&hash, &field).unwrap();
            callback(&hash, &field, value);
        }
    }
}

fn cycles(events: &mut RedisEvents<Callback>, store: &Store, n: usize) {
    for _ in 0..n {
        cycle(events, store);
    }
}

#[test]
fn test_single_field_change() {
    let mut store = Store::new();
    let mut events: RedisEvents<Callback> = RedisEvents::new(Some(100));
    assert_eq!(events.polling_rate(), 100);
    let value_received = Rc::new(RefCell::new(String::new()));
    let value_clone = Rc::clone(&value_received);
    events.register(
        "test_single_field_change",
        "field1",
        Box::new(move |_, _, value| {
            *value_clone.borrow_mut() = value;
        }),
    );
    assert!(events.mark_started());

    store.hset("test_single_field_change", "field1", "initial");
    cycles(&mut events, &store, 2);
    assert_eq!(*value_received.borrow(), "initial");

    store.hset("test_single_field_change", "field1", "changed");
    cycles(&mut events, &store, 2);

    assert_eq!(*value_received.borrow(), "changed");
}

#[test]
fn test_multiple_fields() {
    let mut store = Store::new();
    let mut events: RedisEvents<Callback> = RedisEvents::new(Some(100));
    let values_received = Rc::new(RefCell::new(vec![String::new(), String::new()]));

    let values_clone1 = Rc::clone(&values_received);
    events.register(
        "test_multiple_fields",
        "field1",
        Box::new(move |_, _, value| {
            values_clone1.borrow_mut()[0] = value;
        }),
    );
    let values_clone2 = Rc::clone(&values_received);
    events.register(
        "test_multiple_fields",
        "field2",
        Box::new(move |_, _, value| {
            values_clone2.borrow_mut()[1] = value;
        }),
    );
    events.mark_started();

    store.hset("test_multiple_fields", "field1", "value1");
    store.hset("test_multiple_fields", "field2", "value2");
    cycles(&mut events, &store, 2);

    store.hset("test_multiple_fields", "field1", "new1");
    store.hset("test_multiple_fields", "field2", "new2");
    cycles(&mut events, &store, 2);

    let received = values_received.borrow();
    assert_eq!(received[0], "new1");
    assert_eq!(received[1], "new2");
}

#[test]
fn test_get_value() {
    let mut store = Store::new();
    let mut events: RedisEvents<Callback> = RedisEvents::new(Some(10));
    events.register("test_get_value", "field", Box::new(|_, _, _| {}));
    events.mark_started();

    store.hset("test_get_value", "field", "test_value");
    cycles(&mut events, &store, 40);

    assert_eq!(events.get_value("test_get_value", "field"), Some("test_value".to_string()));
}

#[test]
fn test_non_existent_field() {
    let store = Store::new();
    let mut events: RedisEvents<Callback> = RedisEvents::new(Some(100));
    events.register("test_non_existent_field", "non_existent", Box::new(|_, _, _| {}));
    events.mark_started();

    cycles(&mut events, &store, 2);

    assert_eq!(events.get_value("test_non_existent_field", "non_existent"), None);
}

#[test]
fn test_multiple_changes() {
    let mut store = Store::new();
    let mut events: RedisEvents<Callback> = RedisEvents::new(Some(100));
    let changes = Rc::new(RefCell::new(Vec::new()));
    let changes_clone = Rc::clone(&changes);
    events.register(
        "test_multiple_changes",
        "field",
        Box::new(move |_, _, value| {
            changes_clone.borrow_mut().push(value);
        }),
    );
    events.mark_started();

    store.hset("test_multiple_changes", "field", "initial");
    cycles(&mut events, &store, 1);

    for i in 1..=5 {
        store.hset("test_multiple_changes", "field", &format!("value{}", i));
        cycles(&mut events, &store, 1);
    }

    let changes = changes.borrow();
    assert_eq!(changes.len(), 6);
    assert_eq!(changes[0], "initial");
    assert_eq!(changes[5], "value5");
}

#[test]
fn test_custom_redis_url() {
    let redis_url = "redis://127.0.0.1/";
    let mut store = Store::new();
    let mut events: RedisEvents<Callback> = RedisEvents::new_with_url(redis_url, Some(100));
    assert_eq!(events.redis_url(), redis_url);
    let value_received = Rc::new(RefCell::new(String::new()));
    let value_clone = Rc::clone(&value_received);
    events.register(
        "test_custom_redis_url",
        "custom_url",
        Box::new(move |_, _, value| {
            *value_clone.borrow_mut() = value;
        }),
    );
    events.mark_started();

    store.hset("test_custom_redis_url", "custom_url", "custom_value");
    cycles(&mut events, &store, 2);

    assert_eq!(*value_received.borrow(), "custom_value");
}
