use biliticket::config::{AccountEntry, Config};
use biliticket::input::filter_input;

fn acc(uid: i64, json: &str) -> AccountEntry {
    AccountEntry { uid: Some(uid), json: json.to_string() }
}

#[test]
fn accounts_are_added_in_order() {
    let mut c = Config::new();
    assert!(c.account_texts().is_empty());
    c.add_account(acc(1, "a"));
    c.add_account(acc(2, "b"));
    assert_eq!(c.account_texts(), vec!["a".to_string(), "b".to_string()]);
}

#[test]
fn update_replaces_the_first_match() {
    let mut c = Config::new();
    assert!(!c.update_account(1, "x".to_string()));
    c.add_account(acc(1, "a"));
    c.add_account(AccountEntry { uid: None, json: "n".to_string() });
    c.add_account(acc(1, "a2"));
    assert!(c.update_account(1, "z".to_string()));
    assert_eq!(c.account_texts(), vec!["z".to_string(), "n".to_string(), "a2".to_string()]);
    assert!(!c.update_account(9, "q".to_string()));
}

#[test]
fn delete_removes_every_match() {
    let mut c = Config::new();
    assert!(!c.delete_account(1));
    c.add_account(acc(1, "a"));
    c.add_account(acc(2, "b"));
    c.add_account(acc(1, "c"));
    assert!(c.delete_account(1));
    assert_eq!(c.account_texts(), vec!["b".to_string()]);
    assert!(!c.delete_account(1));
    assert!(!c.update_account(1, "again".to_string()));
}

#[test]
fn fields_are_set_in_place() {
    let mut c = Config::new();
    c.set_field("push_config", "{}");
    c.set_field("custom_config", "1");
    c.set_field("push_config", "2");
    assert_eq!(
        c.fields,
        vec![("push_config".to_string(), "2".to_string()), ("custom_config".to_string(), "1".to_string())]
    );
}

#[test]
fn input_filter_keeps_allowed_characters() {
    assert_eq!(filter_input("a b@c.d-e_f！中", true), "ab@c.d-e_f");
    assert_eq!(filter_input("a b", false), "a b");
    let once = filter_input("x y+z", true);
    assert_eq!(filter_input(&once, true), once);
}
