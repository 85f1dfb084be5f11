use quilltip::auth::Authorization;
use quilltip::error::Error;
use quilltip::identity::{Address, Symbol};
use quilltip::registry::{copy_list, new_list, push_token_id, remove_token_id, same_list};
use soroban_sdk::testutils::EnvTestConfig;
use soroban_sdk::{Env, FromVal};

fn test_env() -> Env {
    Env::new_with_config(EnvTestConfig { capture_snapshot_at_drop: false, ..Default::default() })
}

fn id_list(ids: &[u64]) -> soroban_sdk::Vec<u64> {
    let mut list = new_list(&test_env());
    for id in ids {
        push_token_id(&mut list, *id);
    }
    list
}

fn plain(list: &soroban_sdk::Vec<u64>) -> Vec<u64> {
    list.iter().collect()
}
use quilltip::table::Table;

fn key(text: &str) -> String {
    text.to_string()
}

#[test]
fn empty_table_holds_nothing() {
    let table: Table<u64> = Table::new();
    assert!(!table.has(&key("a")));
    assert_eq!(table.get(&key("a")), None);
    assert_eq!(table.get(&key("")), None);
}

#[test]
fn set_then_get() {
    let mut table: Table<u64> = Table::new();
    table.set(key("a"), 1);
    table.set(key("b"), 2);

    assert!(table.has(&key("a")));
    assert_eq!(table.get(&key("a")), Some(&1));
    assert_eq!(table.get(&key("b")), Some(&2));
    assert_eq!(table.get(&key("c")), None);
    assert!(!table.has(&key("ab")));
}

#[test]
fn set_replaces_the_record() {
    let mut table: Table<u64> = Table::new();
    table.set(key("a"), 1);
    table.set(key("b"), 2);
    table.set(key("a"), 3);

    assert_eq!(table.get(&key("a")), Some(&3));
    assert_eq!(table.get(&key("b")), Some(&2));
    assert_eq!(table.take(&key("a")), Some(3));
    assert_eq!(table.take(&key("a")), None);
}

#[test]
fn take_hands_the_record_out() {
    let mut table: Table<Vec<u64>> = Table::new();
    table.set(key("a"), vec![1, 2]);
    table.set(key("b"), vec![3]);
    table.set(key("c"), vec![]);

    assert_eq!(table.take(&key("b")), Some(vec![3]));
    assert!(!table.has(&key("b")));
    assert_eq!(table.take(&key("b")), None);
    assert_eq!(table.take(&key("missing")), None);
    assert_eq!(table.get(&key("a")), Some(&vec![1, 2]));
    assert_eq!(table.get(&key("c")), Some(&vec![]));

    table.set(key("b"), vec![4]);
    assert_eq!(table.get(&key("b")), Some(&vec![4]));
}

#[test]
fn empty_key_is_a_key() {
    let mut table: Table<i128> = Table::new();
    table.set(key(""), -5);
    assert_eq!(table.get(&key("")), Some(&-5));
    assert_eq!(table.get(&key(" ")), None);
}

#[test]
fn remove_takes_the_id_out() {
    let mut ids = id_list(&[1, 2, 3]);
    assert!(remove_token_id(&mut ids, 2));
    assert_eq!(plain(&ids), vec![1, 3]);
    assert!(remove_token_id(&mut ids, 1));
    assert_eq!(plain(&ids), vec![3]);
    assert!(remove_token_id(&mut ids, 3));
    assert_eq!(plain(&ids), Vec::<u64>::new());
    assert_eq!(ids.len(), 0);
}

#[test]
fn remove_says_when_the_id_is_absent() {
    let mut ids = id_list(&[1, 2, 3]);
    assert!(!remove_token_id(&mut ids, 4));
    assert_eq!(plain(&ids), vec![1, 2, 3]);

    let mut none = id_list(&[]);
    assert!(!remove_token_id(&mut none, 1));
    assert_eq!(plain(&none), Vec::<u64>::new());
}

#[test]
fn remove_takes_the_first_of_two() {
    let mut ids = id_list(&[5, 7, 5, 9]);
    assert!(remove_token_id(&mut ids, 5));
    assert_eq!(plain(&ids), vec![7, 5, 9]);
}

#[test]
fn remove_takes_the_last_place() {
    let mut ids = id_list(&[5, 7, 9]);
    assert!(remove_token_id(&mut ids, 9));
    assert_eq!(plain(&ids), vec![5, 7]);
    assert!(!remove_token_id(&mut ids, 9));
    assert_eq!(ids.len(), 2);
}

#[test]
fn new_list_is_empty_and_push_adds_at_the_end() {
    let env = test_env();
    let mut ids = new_list(&env);
    assert_eq!(ids.len(), 0);
    push_token_id(&mut ids, 4);
    push_token_id(&mut ids, 2);
    push_token_id(&mut ids, u64::MAX);
    assert_eq!(plain(&ids), vec![4, 2, u64::MAX]);
    assert_eq!(ids.get(1), Some(2));
}

#[test]
fn copy_is_a_list_of_its_own() {
    let env = test_env();
    let ids = id_list(&[3, 1, 2]);
    let mut copy = copy_list(&env, &ids);
    assert_eq!(plain(&copy), vec![3, 1, 2]);
    assert!(same_list(&ids, &copy));
    push_token_id(&mut copy, 8);
    assert_eq!(plain(&ids), vec![3, 1, 2]);
    assert_eq!(plain(&copy), vec![3, 1, 2, 8]);
    assert!(!same_list(&ids, &copy));
    assert_eq!(copy_list(&env, &id_list(&[])).len(), 0);
}

#[test]
fn same_list_goes_by_items_and_order() {
    assert!(same_list(&id_list(&[]), &id_list(&[])));
    assert!(same_list(&id_list(&[1, 2]), &id_list(&[1, 2])));
    assert!(!same_list(&id_list(&[1, 2]), &id_list(&[2, 1])));
    assert!(!same_list(&id_list(&[1, 2]), &id_list(&[1])));
    assert!(!same_list(&id_list(&[1]), &id_list(&[1, 2])));
    assert!(!same_list(&id_list(&[1]), &id_list(&[2])));
}

#[test]
fn same_list_tells_ids_from_other_items() {
    let env = test_env();
    let small = soroban_sdk::Vec::<u32>::from_array(&env, [1u32, 2]);
    let unreadable = soroban_sdk::Vec::<u64>::from_val(&env, small.as_val());
    let other = soroban_sdk::Vec::<u64>::from_val(&env, small.as_val());

    assert!(!same_list(&id_list(&[1, 2]), &unreadable));
    assert!(!same_list(&unreadable, &id_list(&[1, 2])));
    assert!(same_list(&unreadable, &other));
}

#[test]
fn guard_passes_the_approvers_only() {
    let alice = Address::new(key("alice"));
    let bob = Address::new(key("bob"));
    let carol = Address::new(key("carol"));

    let nobody = Authorization::none();
    assert!(!nobody.has_authorized(&alice));
    assert_eq!(nobody.require_authorized(&alice), Err(Error::Unauthorized));

    let mut auth = Authorization::of(alice.clone());
    assert_eq!(auth.require_authorized(&alice), Ok(()));
    assert_eq!(auth.require_authorized(&bob), Err(Error::Unauthorized));

    auth.approve(bob.clone());
    assert_eq!(auth.require_authorized(&alice), Ok(()));
    assert_eq!(auth.require_authorized(&bob), Ok(()));
    assert_eq!(auth.require_authorized(&carol), Err(Error::Unauthorized));
    assert!(auth.has_authorized(&bob));
    assert!(!auth.has_authorized(&carol));
}

#[test]
fn guard_goes_by_the_whole_text() {
    let auth = Authorization::of(Address::new(key("alice")));
    assert_eq!(auth.require_authorized(&Address::new(key("alic"))), Err(Error::Unauthorized));
    assert_eq!(auth.require_authorized(&Address::new(key("alice "))), Err(Error::Unauthorized));
    assert_eq!(auth.require_authorized(&Address::new(key("Alice"))), Err(Error::Unauthorized));
    assert_eq!(auth.require_authorized(&Address::new(key("alice"))), Ok(()));
}

#[test]
fn identities_compare_by_text() {
    let one = Address::new(key("GABC"));
    let same = Address::new(key("GABC"));
    let other = Address::new(key("GABD"));
    assert_eq!(one, same);
    assert_ne!(one, other);
    assert_eq!(one.clone(), one);
    assert_eq!(one.as_str(), "GABC");

    let item = Symbol::new(key("article_123"));
    assert_eq!(item, Symbol::new(key("article_123")));
    assert_ne!(item, Symbol::new(key("article_124")));
    assert_eq!(item.clone().as_str(), "article_123");
}
