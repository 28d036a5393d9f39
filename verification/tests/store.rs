use gamingpool::error::{Entity, QueryError};
use gamingpool::keys::key_less;
use gamingpool::state::{ClaimStatus, PoolTeamDetails, SwapBalanceDetails};
use gamingpool::store::Store;
use gamingpool::table::Table;

fn balance(pre: u128, post: u128) -> SwapBalanceDetails {
    SwapBalanceDetails { balance_pre_swap: pre, balance_post_swap: post }
}

fn team(team_id: &str) -> PoolTeamDetails {
    PoolTeamDetails {
        team_id: team_id.to_string(),
        game_id: "G1".to_string(),
        pool_id: "P1".to_string(),
        pool_type: "T1".to_string(),
        gamer_address: "alice".to_string(),
        team_rank: 0,
        team_points: 0,
        reward_amount: 0,
        refund_amount: 0,
        claimed_reward: ClaimStatus::Unclaimed,
        claimed_refund: ClaimStatus::Unclaimed,
    }
}

#[test]
fn keys_are_ordered_by_their_bytes() {
    assert!(key_less("a", "b"));
    assert!(!key_less("b", "a"));
    assert!(!key_less("a", "a"));
    assert!(key_less("", "a"));
    assert!(!key_less("a", ""));
    assert!(!key_less("", ""));
    assert!(key_less("a", "aa"));
    assert!(!key_less("aa", "a"));
    assert!(key_less("B", "a"));
    assert!(key_less("P10", "P2"));
    assert!(key_less("ab", "b"));
    assert!(key_less("z", "\u{e9}"));
    assert!(!key_less("\u{e9}", "z"));
    assert!(key_less("\u{e9}", "\u{4e2d}"));
}

#[test]
fn key_order_agrees_with_the_order_of_strings() {
    let keys = ["", "a", "A", "aa", "ab", "b", "P1", "P10", "P2", "\u{e9}", "z", "\u{4e2d}\u{6587}"];
    for left in keys {
        for right in keys {
            assert_eq!(key_less(left, right), left < right);
        }
    }
}

#[test]
fn table_lists_its_keys_in_ascending_order() {
    let mut table: Table<SwapBalanceDetails> = Table::new();
    assert_eq!(table.len(), 0);
    assert_eq!(table.keys(), Vec::<String>::new());
    for key in ["P3", "P1", "P2", "P10", "", "p1"] {
        table.insert(key.to_string(), balance(1, 2));
    }
    assert_eq!(table.len(), 6);
    assert_eq!(table.keys(), vec!["", "P1", "P10", "P2", "P3", "p1"]);
    assert_eq!(table.key(0), "");
    assert_eq!(table.key(5), "p1");
}

#[test]
fn table_keeps_one_record_for_each_key() {
    let mut table: Table<SwapBalanceDetails> = Table::new();
    table.insert("P1".to_string(), balance(1, 2));
    table.insert("P2".to_string(), balance(3, 4));
    table.insert("P1".to_string(), balance(5, 6));
    assert_eq!(table.len(), 2);
    assert_eq!(table.get("P1"), Some(&balance(5, 6)));
    assert_eq!(table.get("P2"), Some(&balance(3, 4)));
    assert_eq!(table.get("P3"), None);
    assert_eq!(table.get(""), None);
    assert_eq!(table.value(0), &balance(5, 6));
    assert_eq!(table.value(1), &balance(3, 4));
}

#[test]
fn table_reports_the_kind_of_a_missing_record() {
    let mut table: Table<SwapBalanceDetails> = Table::new();
    table.insert("P1".to_string(), balance(1, 2));
    assert_eq!(table.require("P1", Entity::SwapBalance), Ok(&balance(1, 2)));
    assert_eq!(
        table.require("P2", Entity::SwapBalance),
        Err(QueryError::NotFound(Entity::SwapBalance))
    );
    assert_eq!(table.require("P2", Entity::Pool), Err(QueryError::NotFound(Entity::Pool)));
}

#[test]
fn table_removes_the_record_under_a_key() {
    let mut table: Table<SwapBalanceDetails> = Table::new();
    for (key, pre) in [("b", 2u128), ("a", 1), ("c", 3)] {
        table.insert(key.to_string(), balance(pre, 0));
    }
    assert_eq!(table.remove("b"), Some(balance(2, 0)));
    assert_eq!(table.remove("b"), None);
    assert_eq!(table.keys(), vec!["a", "c"]);
    assert_eq!(table.get("a"), Some(&balance(1, 0)));
    assert_eq!(table.get("c"), Some(&balance(3, 0)));
    assert_eq!(table.remove("a"), Some(balance(1, 0)));
    assert_eq!(table.remove("c"), Some(balance(3, 0)));
    assert_eq!(table.len(), 0);
}

#[test]
fn table_finds_every_key_among_many() {
    let mut table: Table<SwapBalanceDetails> = Table::new();
    for n in 0..200u128 {
        let shuffled = (n * 37) % 200;
        table.insert(format!("K{shuffled:03}"), balance(shuffled, 0));
    }
    assert_eq!(table.len(), 200);
    for n in 0..200u128 {
        assert_eq!(table.get(&format!("K{n:03}")), Some(&balance(n, 0)));
        assert_eq!(table.key(n as usize), &format!("K{n:03}"));
    }
    assert_eq!(table.get("K200"), None);
    assert_eq!(table.get("K"), None);
}

#[test]
fn new_store_is_empty() {
    let store = Store::new();
    assert_eq!(store.config(), Err(QueryError::NotFound(Entity::Config)));
    assert_eq!(store.fee_wallet(), Err(QueryError::NotFound(Entity::FeeWallet)));
    assert_eq!(store.pools().len(), 0);
    assert_eq!(store.pool_types().len(), 0);
    assert_eq!(store.teams().len(), 0);
    assert_eq!(store.games().len(), 0);
    assert_eq!(store.game_results().len(), 0);
    assert_eq!(store.swap_balances().len(), 0);
    assert_eq!(store.team_list("P1", "alice"), None);
}

#[test]
fn team_lists_are_filed_by_pool_and_gamer() {
    let mut store = Store::new();
    store.save_team_list("P2".to_string(), "bob".to_string(), vec![team("B-1")]);
    store.save_team_list("P1".to_string(), "bob".to_string(), vec![team("B-2")]);
    store.save_team_list("P1".to_string(), "alice".to_string(), vec![team("A-1")]);
    store.save_team_list("P1".to_string(), "alice".to_string(), vec![team("A-2"), team("A-3")]);
    assert_eq!(store.team_list("P1", "alice"), Some(&vec![team("A-2"), team("A-3")]));
    assert_eq!(store.team_list("P1", "bob"), Some(&vec![team("B-2")]));
    assert_eq!(store.team_list("P2", "bob"), Some(&vec![team("B-1")]));
    assert_eq!(store.team_list("P2", "alice"), None);
    assert_eq!(store.team_list("P3", "alice"), None);
    assert_eq!(store.teams().keys(), vec!["P1", "P2"]);
    assert_eq!(store.teams().get("P1").unwrap().keys(), vec!["alice", "bob"]);
    assert_eq!(store.teams().get("P2").unwrap().keys(), vec!["bob"]);
}

#[test]
fn copies_have_the_same_fields() {
    let entry = team("A-1");
    assert_eq!(entry.duplicate(), entry);
    let list = vec![team("A-1"), team("A-2")];
    assert_eq!(gamingpool::state::duplicate_teams(&list), list);
    assert_eq!(gamingpool::state::duplicate_teams(&Vec::new()), Vec::new());
}

#[test]
fn team_list_keys_are_listed_pool_by_pool() {
    let mut store = Store::new();
    assert_eq!(store.team_list_keys(), Vec::<(String, String)>::new());
    store.save_team_list("P2".to_string(), "bob".to_string(), vec![team("B-1")]);
    store.save_team_list("P10".to_string(), "zed".to_string(), vec![]);
    store.save_team_list("P10".to_string(), "alice".to_string(), vec![team("A-1")]);
    store.save_team_list("P2".to_string(), "alice".to_string(), vec![team("A-2")]);
    let pair = |pool: &str, gamer: &str| (pool.to_string(), gamer.to_string());
    assert_eq!(
        store.team_list_keys(),
        vec![pair("P10", "alice"), pair("P10", "zed"), pair("P2", "alice"), pair("P2", "bob")]
    );
    assert_eq!(store.team_list_keys_in_pool("P2"), vec![pair("P2", "alice"), pair("P2", "bob")]);
    assert_eq!(store.team_list_keys_in_pool("P3"), Vec::<(String, String)>::new());
}
