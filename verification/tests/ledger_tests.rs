use ledger::engine::TransferError;
use ledger::history::classify_sent;
use ledger::store::{Database, Operation, User};

fn user(number: &str, name: &str, balance: u32, contacts: &[&str]) -> User {
    User {
        number: number.to_string(),
        name: name.to_string(),
        balance,
        contacts: contacts.iter().map(|c| c.to_string()).collect(),
        history: Vec::new(),
    }
}

fn seeded() -> Database {
    let mut db = Database { users: Vec::new() };
    db.add_user(user("123", "Marcelo", 100, &["456", "789"]));
    db.add_user(user("456", "Juan", 200, &["123"]));
    db.add_user(user("789", "Pedro", 300, &["123"]));
    db
}

fn balance_of(db: &Database, number: &str) -> u32 {
    db.get_user(number).expect("account must resolve").balance
}

#[test]
fn test_valid_operation() {
    let mut db = seeded();
    let r = db.execute_transfer("123", "456", 50, "2024-05-01 10:00:00".to_string());
    let op = r.expect("a fitting transfer must succeed");
    assert_eq!(op.from, "123");
    assert_eq!(op.to, "456");
    assert_eq!(op.value, 50);
    assert_eq!(op.date, "2024-05-01 10:00:00");
}

#[test]
fn test_valid_user_contacts() {
    let db = seeded();
    let contacts = db.get_contacts("123");
    assert!(contacts.is_some());
    let contacts = contacts.unwrap();
    assert_eq!(contacts.len(), 2);
    assert_eq!(contacts[0], ("Juan".to_string(), "456".to_string()));
    assert_eq!(contacts[1], ("Pedro".to_string(), "789".to_string()));
}

#[test]
fn test_invalid_user() {
    let mut db = seeded();
    let r = db.execute_transfer("123", "999", 50, "2024-05-01 10:00:00".to_string());
    assert_eq!(r.unwrap_err(), TransferError::InvalidUser);
    assert_eq!(balance_of(&db, "123"), 100);
}

#[test]
fn test_invalid_balance() {
    let mut db = seeded();
    let r = db.execute_transfer("123", "456", 300, "2024-05-01 10:00:00".to_string());
    assert_eq!(r.unwrap_err(), TransferError::InsufficientFunds);
    assert_eq!(balance_of(&db, "123"), 100);
    assert_eq!(balance_of(&db, "456"), 200);
}

#[test]
fn test_zero_operation() {
    let mut db = seeded();
    let r = db.execute_transfer("123", "456", 0, "2024-05-01 10:00:00".to_string());
    assert_eq!(r.unwrap_err(), TransferError::ZeroValueOperation);
    assert_eq!(balance_of(&db, "123"), 100);
    assert_eq!(balance_of(&db, "456"), 200);
}

#[test]
fn transfer_moves_value() {
    let mut db = Database { users: Vec::new() };
    db.add_user(user("123", "a", 100, &[]));
    db.add_user(user("456", "b", 200, &[]));
    let r = db.execute_transfer("123", "456", 50, "2024-05-01 10:00:00".to_string());
    assert!(r.is_ok());
    assert_eq!(balance_of(&db, "123"), 50);
    assert_eq!(balance_of(&db, "456"), 250);
}

#[test]
fn transfer_conserves_total() {
    let mut db = seeded();
    let before: u64 = db.users.iter().map(|u| u.balance as u64).sum();
    db.execute_transfer("123", "456", 70, "2024-05-01 10:00:00".to_string()).unwrap();
    let after: u64 = db.users.iter().map(|u| u.balance as u64).sum();
    assert_eq!(before, after);
}

#[test]
fn transfer_records_history_on_both_sides() {
    let mut db = seeded();
    db.execute_transfer("123", "456", 10, "2024-05-01 10:00:00".to_string()).unwrap();
    let sender = db.get_user("123").unwrap();
    let receiver = db.get_user("456").unwrap();
    assert_eq!(sender.history.len(), 1);
    assert_eq!(receiver.history.len(), 1);
    assert_eq!(sender.history[0].value, 10);
    assert_eq!(receiver.history[0].from, "123");
    let untouched = db.get_user("789").unwrap();
    assert_eq!(untouched.history.len(), 0);
}

#[test]
fn self_transfer_keeps_balance_and_records_once() {
    let mut db = seeded();
    let r = db.execute_transfer("123", "123", 40, "2024-05-01 10:00:00".to_string());
    assert!(r.is_ok());
    assert_eq!(balance_of(&db, "123"), 100);
    assert_eq!(db.get_user("123").unwrap().history.len(), 1);
}

#[test]
fn errors_leave_history_untouched() {
    let mut db = seeded();
    db.execute_transfer("123", "999", 50, "d1".to_string()).unwrap_err();
    db.execute_transfer("999", "123", 50, "d1".to_string()).unwrap_err();
    db.execute_transfer("123", "456", 101, "d1".to_string()).unwrap_err();
    db.execute_transfer("123", "456", 0, "d1".to_string()).unwrap_err();
    for u in db.users.iter() {
        assert_eq!(u.history.len(), 0);
    }
}

#[test]
fn contacts_drop_unresolved_entries() {
    let mut db = Database { users: Vec::new() };
    db.add_user(user("123", "Marcelo", 100, &["456", "ghost"]));
    db.add_user(user("456", "Juan", 200, &[]));
    let contacts = db.get_contacts("123").unwrap();
    assert_eq!(contacts, vec![("Juan".to_string(), "456".to_string())]);
}

#[test]
fn contacts_keep_order_and_duplicates() {
    let mut db = Database { users: Vec::new() };
    db.add_user(user("1", "a", 0, &["3", "2", "3"]));
    db.add_user(user("2", "b", 0, &[]));
    db.add_user(user("3", "c", 0, &[]));
    let contacts = db.get_contacts("1").unwrap();
    let numbers: Vec<&str> = contacts.iter().map(|p| p.1.as_str()).collect();
    assert_eq!(numbers, vec!["3", "2", "3"]);
}

#[test]
fn contacts_of_missing_account() {
    let db = seeded();
    assert!(db.get_contacts("999").is_none());
}

#[test]
fn reads_do_not_mutate() {
    let mut db = seeded();
    db.execute_transfer("123", "456", 5, "d1".to_string()).unwrap();
    let c1 = db.get_contacts("123").unwrap();
    let h1 = db.build_history("123").unwrap();
    let c2 = db.get_contacts("123").unwrap();
    let h2 = db.build_history("123").unwrap();
    assert_eq!(c1, c2);
    assert_eq!(h1.0.balance, h2.0.balance);
    assert_eq!(h1.1.len(), h2.1.len());
    for (a, b) in h1.1.iter().zip(h2.1.iter()) {
        assert_eq!(a.date, b.date);
        assert_eq!(a.value, b.value);
    }
}

#[test]
fn round_trip_restores_balances() {
    let mut db = Database { users: Vec::new() };
    db.add_user(user("123", "a", 100, &[]));
    db.add_user(user("456", "b", 200, &[]));
    db.execute_transfer("123", "456", 50, "2024-05-01 10:00:00".to_string()).unwrap();
    db.execute_transfer("456", "123", 50, "2024-05-01 11:00:00".to_string()).unwrap();
    assert_eq!(balance_of(&db, "123"), 100);
    assert_eq!(balance_of(&db, "456"), 200);
    let (_, feed) = db.build_history("123").unwrap();
    assert_eq!(feed.len(), 2);
    assert_eq!(feed[0].date, "2024-05-01 11:00:00");
    assert_eq!(feed[1].date, "2024-05-01 10:00:00");
    assert!(!classify_sent(&feed[0], "123"));
    assert!(classify_sent(&feed[1], "123"));
}

#[test]
fn history_of_missing_account() {
    let db = seeded();
    assert!(db.get_history("999").is_none());
    assert!(db.build_history("999").is_none());
}

#[test]
fn history_joins_transfers_from_contact_holders() {
    let mut db = seeded();
    db.execute_transfer("456", "123", 25, "2024-05-01 10:00:00".to_string()).unwrap();
    let (snapshot, received) = db.get_history("123").unwrap();
    assert_eq!(snapshot.balance, 125);
    // "456" lists "123" as a contact and its history holds the transfer
    // to "123", so the same operation is visible through the join too.
    assert_eq!(received.len(), 1);
    assert_eq!(received[0].from, "456");
    let (_, feed) = db.build_history("123").unwrap();
    assert_eq!(feed.len(), 2);
}

#[test]
fn history_join_skips_operations_to_others() {
    let mut db = seeded();
    // "789" lists "123" as a contact, but this operation is to "456":
    // it must not show up in "123"'s received entries.
    db.execute_transfer("789", "456", 25, "2024-05-01 10:00:00".to_string()).unwrap();
    let (_, received) = db.get_history("123").unwrap();
    assert_eq!(received.len(), 0);
}

#[test]
fn feed_is_sorted_descending_and_stable() {
    let mut db = Database { users: Vec::new() };
    db.add_user(user("1", "a", 100, &[]));
    db.add_user(user("2", "b", 100, &[]));
    db.execute_transfer("1", "2", 1, "2024-05-02".to_string()).unwrap();
    db.execute_transfer("1", "2", 2, "2024-05-01".to_string()).unwrap();
    db.execute_transfer("1", "2", 3, "2024-05-02".to_string()).unwrap();
    let (_, feed) = db.build_history("1").unwrap();
    let pairs: Vec<(u32, &str)> = feed.iter().map(|o| (o.value, o.date.as_str())).collect();
    // Most recent first; the two entries of 2024-05-02 keep their
    // original relative order.
    assert_eq!(pairs, vec![(1, "2024-05-02"), (3, "2024-05-02"), (2, "2024-05-01")]);
}

#[test]
fn add_operation_skips_missing_sides() {
    let mut db = seeded();
    db.add_operation(Operation {
        from: "123".to_string(),
        to: "999".to_string(),
        value: 5,
        date: "d1".to_string(),
    });
    assert_eq!(db.get_user("123").unwrap().history.len(), 1);
    db.add_operation(Operation {
        from: "999".to_string(),
        to: "777".to_string(),
        value: 5,
        date: "d1".to_string(),
    });
    for u in db.users.iter() {
        assert!(u.history.len() <= 1);
    }
}

#[test]
fn transfer_with_clock_timestamp() {
    let mut db = seeded();
    let op = db.execute_transfer_now("123", "456", 5).unwrap();
    assert_eq!(op.from, "123");
    assert_eq!(op.to, "456");
    assert_eq!(op.value, 5);
    assert_eq!(balance_of(&db, "123"), 95);
    assert_eq!(balance_of(&db, "456"), 205);
    let r = db.execute_transfer_now("123", "999", 5);
    assert_eq!(r.unwrap_err(), TransferError::InvalidUser);
}

#[test]
fn classify_directions() {
    let op = Operation {
        from: "123".to_string(),
        to: "456".to_string(),
        value: 1,
        date: "d1".to_string(),
    };
    assert!(classify_sent(&op, "123"));
    assert!(!classify_sent(&op, "456"));
}

#[test]
fn lookup_finds_first_match() {
    let mut db = Database { users: Vec::new() };
    db.add_user(user("123", "first", 1, &[]));
    db.add_user(user("123", "second", 2, &[]));
    let u = db.get_user("123").unwrap();
    assert_eq!(u.name, "first");
    assert!(db.get_user("12").is_none());
    assert!(db.get_user("1234").is_none());
}

#[test]
fn feed_orders_prefix_timestamps() {
    let mut db = Database { users: Vec::new() };
    db.add_user(user("1", "a", 100, &[]));
    db.add_user(user("2", "b", 100, &[]));
    // A timestamp that is a strict prefix of another sorts before it,
    // so the longer one is the more recent.
    db.execute_transfer("1", "2", 1, "2024-05".to_string()).unwrap();
    db.execute_transfer("1", "2", 2, "2024-05-02".to_string()).unwrap();
    let (_, feed) = db.build_history("1").unwrap();
    assert_eq!(feed[0].value, 2);
    assert_eq!(feed[1].value, 1);
}
