use gamingpool::error::{Entity, QueryError};
use gamingpool::query::{
    get_team_count_for_user_in_pool_type, query_all_pool_type_details, query_all_pools_in_game,
    query_all_teams, query_game_details, query_game_result, query_get_fee_wallet,
    query_pool_details, query_pool_team_details, query_pool_type_details,
    query_swap_data_for_pool, render_game_result, scan_result_rows,
};
use gamingpool::settlement::{count_entries, count_refund_claims, reward_in_team_list};
use gamingpool::state::{
    ClaimStatus, Config, GameDetails, GameResult, PoolDetails, PoolTeamDetails, PoolTypeDetails,
    SwapBalanceDetails,
};
use gamingpool::store::Store;

const SENTINEL: &str = "wallet-of-nobody";

fn config() -> Config {
    Config { game_id: "G1".to_string(), platform_fee: 300, transaction_fee: 50 }
}

fn pool_type(name: &str, pool_fee: u128) -> PoolTypeDetails {
    PoolTypeDetails {
        pool_type: name.to_string(),
        pool_fee,
        min_teams_for_pool: 1,
        max_teams_for_pool: 10,
        max_teams_for_gamer: 3,
    }
}

fn pool(pool_id: &str, game_id: &str) -> PoolDetails {
    PoolDetails {
        pool_id: pool_id.to_string(),
        pool_type: "T1".to_string(),
        game_id: game_id.to_string(),
        current_teams_count: 2,
        pool_refund_status: false,
    }
}

fn team(pool_id: &str, gamer: &str, team_id: &str) -> PoolTeamDetails {
    PoolTeamDetails {
        team_id: team_id.to_string(),
        game_id: "G1".to_string(),
        pool_id: pool_id.to_string(),
        pool_type: "T1".to_string(),
        gamer_address: gamer.to_string(),
        team_rank: 0,
        team_points: 0,
        reward_amount: 0,
        refund_amount: 0,
        claimed_reward: ClaimStatus::Unclaimed,
        claimed_refund: ClaimStatus::Unclaimed,
    }
}

fn template() -> GameResult {
    GameResult {
        gamer_address: SENTINEL.to_string(),
        game_id: "G1".to_string(),
        team_id: "none".to_string(),
        team_rank: 100_000,
        team_points: 0,
        reward_amount: 11,
        refund_amount: 22,
    }
}

fn store_for_results() -> Store {
    let mut store = Store::new();
    store.set_config(config());
    store.save_game_result(SENTINEL.to_string(), template());
    store.save_pool("P1".to_string(), pool("P1", "G1"));
    store
}

#[test]
fn fee_wallet_is_read_from_the_store() {
    let mut store = Store::new();
    assert_eq!(query_get_fee_wallet(&store), Err(QueryError::NotFound(Entity::FeeWallet)));
    store.set_fee_wallet("collector".to_string());
    assert_eq!(query_get_fee_wallet(&store), Ok("collector".to_string()));
    store.set_fee_wallet("other".to_string());
    assert_eq!(query_get_fee_wallet(&store), Ok("other".to_string()));
}

#[test]
fn pool_type_is_found_under_its_key() {
    let mut store = Store::new();
    store.save_pool_type("T1".to_string(), pool_type("T1", 100));
    assert_eq!(query_pool_type_details(&store, "T1".to_string()), Ok(pool_type("T1", 100)));
    assert_eq!(
        query_pool_type_details(&store, "T2".to_string()),
        Err(QueryError::NotFound(Entity::PoolType))
    );
}

#[test]
fn pool_types_are_listed_in_key_order() {
    let mut store = Store::new();
    assert_eq!(query_all_pool_type_details(&store), Ok(vec![]));
    store.save_pool_type("T3".to_string(), pool_type("T3", 3));
    store.save_pool_type("T1".to_string(), pool_type("T1", 1));
    store.save_pool_type("T2".to_string(), pool_type("T2", 2));
    store.save_pool_type("T1".to_string(), pool_type("T1", 10));
    assert_eq!(
        query_all_pool_type_details(&store),
        Ok(vec![pool_type("T1", 10), pool_type("T2", 2), pool_type("T3", 3)])
    );
}

#[test]
fn pool_is_found_under_its_key() {
    let mut store = Store::new();
    store.save_pool("P1".to_string(), pool("P1", "G1"));
    assert_eq!(query_pool_details(&store, "P1".to_string()), Ok(pool("P1", "G1")));
    assert_eq!(
        query_pool_details(&store, "P2".to_string()),
        Err(QueryError::NotFound(Entity::Pool))
    );
}

#[test]
fn team_list_is_found_under_pool_and_gamer() {
    let mut store = Store::new();
    store.save_team_list(
        "P1".to_string(),
        "alice".to_string(),
        vec![team("P1", "alice", "A-1"), team("P1", "alice", "A-2")],
    );
    store.save_team_list("P1".to_string(), "bob".to_string(), vec![]);
    assert_eq!(
        query_pool_team_details(&store, "P1".to_string(), "alice".to_string()),
        Ok(vec![team("P1", "alice", "A-1"), team("P1", "alice", "A-2")])
    );
    assert_eq!(query_pool_team_details(&store, "P1".to_string(), "bob".to_string()), Ok(vec![]));
    assert_eq!(
        query_pool_team_details(&store, "P1".to_string(), "carol".to_string()),
        Err(QueryError::NotFound(Entity::TeamList))
    );
    assert_eq!(
        query_pool_team_details(&store, "P2".to_string(), "alice".to_string()),
        Err(QueryError::NotFound(Entity::TeamList))
    );
}

#[test]
fn all_teams_come_pool_by_pool_and_user_by_user() {
    let mut store = Store::new();
    store.save_pool("P2".to_string(), pool("P2", "G1"));
    store.save_pool("P1".to_string(), pool("P1", "G1"));
    store.save_team_list("P1".to_string(), "alice".to_string(), vec![team("P1", "alice", "A-1")]);
    store.save_team_list(
        "P1".to_string(),
        "bob".to_string(),
        vec![team("P1", "bob", "B-1"), team("P1", "bob", "B-2")],
    );
    store.save_team_list("P2".to_string(), "alice".to_string(), vec![team("P2", "alice", "A-2")]);
    store.save_team_list("P3".to_string(), "alice".to_string(), vec![team("P3", "alice", "A-3")]);
    let users = vec!["bob".to_string(), "carol".to_string(), "alice".to_string()];
    assert_eq!(
        query_all_teams(&store, users),
        Ok(vec![
            team("P1", "bob", "B-1"),
            team("P1", "bob", "B-2"),
            team("P1", "alice", "A-1"),
            team("P2", "alice", "A-2"),
        ])
    );
    assert_eq!(query_all_teams(&store, vec![]), Ok(vec![]));
    assert_eq!(
        query_all_teams(&store, vec!["alice".to_string(), "alice".to_string()]),
        Ok(vec![
            team("P1", "alice", "A-1"),
            team("P1", "alice", "A-1"),
            team("P2", "alice", "A-2"),
            team("P2", "alice", "A-2"),
        ])
    );
    assert_eq!(query_all_teams(&Store::new(), vec!["alice".to_string()]), Ok(vec![]));
}

#[test]
fn game_details_follow_the_configuration() {
    let mut store = Store::new();
    assert_eq!(query_game_details(&store), Err(QueryError::NotFound(Entity::Config)));
    store.set_config(config());
    assert_eq!(query_game_details(&store), Err(QueryError::NotFound(Entity::Game)));
    store.save_game("G2".to_string(), GameDetails { game_id: "G2".to_string(), game_status: 1 });
    assert_eq!(query_game_details(&store), Err(QueryError::NotFound(Entity::Game)));
    store.save_game("G1".to_string(), GameDetails { game_id: "G1".to_string(), game_status: 3 });
    assert_eq!(
        query_game_details(&store),
        Ok(GameDetails { game_id: "G1".to_string(), game_status: 3 })
    );
}

#[test]
fn swap_balance_is_found_under_its_pool() {
    let mut store = Store::new();
    let balance = SwapBalanceDetails { balance_pre_swap: 10, balance_post_swap: 25 };
    store.save_swap_balance("P1".to_string(), balance);
    assert_eq!(query_swap_data_for_pool(&store, "P1".to_string()), Ok(balance));
    assert_eq!(
        query_swap_data_for_pool(&store, "P2".to_string()),
        Err(QueryError::NotFound(Entity::SwapBalance))
    );
}

#[test]
fn pools_of_the_configured_game_are_listed_in_key_order() {
    let mut store = Store::new();
    store.save_pool("P3".to_string(), pool("P3", "G1"));
    store.save_pool("P1".to_string(), pool("P1", "G1"));
    store.save_pool("P2".to_string(), pool("P2", "G2"));
    assert_eq!(query_all_pools_in_game(&store), Err(QueryError::NotFound(Entity::Config)));
    store.set_config(config());
    assert_eq!(query_all_pools_in_game(&store), Ok(vec![pool("P1", "G1"), pool("P3", "G1")]));
    store.set_config(Config { game_id: "G3".to_string(), platform_fee: 0, transaction_fee: 0 });
    assert_eq!(query_all_pools_in_game(&store), Ok(vec![]));
}

#[test]
fn team_count_counts_entries_of_the_gamer() {
    let mut store = Store::new();
    assert_eq!(
        get_team_count_for_user_in_pool_type(
            &store,
            "alice".to_string(),
            "G1".to_string(),
            "T1".to_string()
        ),
        Ok(0)
    );
    let mut other_type = team("P1", "alice", "A-3");
    other_type.pool_type = "T2".to_string();
    let mut other_game = team("P1", "alice", "A-4");
    other_game.game_id = "G2".to_string();
    store.save_team_list(
        "P1".to_string(),
        "alice".to_string(),
        vec![
            team("P1", "alice", "A-1"),
            team("P1", "alice", "A-2"),
            other_type,
            other_game,
            team("P2", "alice", "A-5"),
            team("P1", "bob", "B-9"),
        ],
    );
    store.save_team_list("P2".to_string(), "alice".to_string(), vec![team("P2", "alice", "A-6")]);
    let count = |store: &Store, gamer: &str, game: &str, kind: &str| {
        get_team_count_for_user_in_pool_type(
            store,
            gamer.to_string(),
            game.to_string(),
            kind.to_string(),
        )
    };
    assert_eq!(count(&store, "alice", "G1", "T1"), Ok(3));
    assert_eq!(count(&store, "alice", "G1", "T2"), Ok(1));
    assert_eq!(count(&store, "alice", "G2", "T1"), Ok(1));
    assert_eq!(count(&store, "alice", "G2", "T2"), Ok(0));
    assert_eq!(count(&store, "bob", "G1", "T1"), Ok(0));
}

#[test]
fn team_count_counts_each_team_once_whatever_others_have_stored() {
    let mut store = Store::new();
    store.save_team_list(
        "P1".to_string(),
        "alice".to_string(),
        vec![team("P1", "alice", "A-1"), team("P1", "alice", "A-2")],
    );
    store.save_team_list("P1".to_string(), "bob".to_string(), vec![team("P1", "bob", "B-1")]);
    store.save_team_list("P1".to_string(), "carol".to_string(), vec![]);
    store.save_team_list("P2".to_string(), "bob".to_string(), vec![team("P2", "bob", "B-2")]);
    let count = |gamer: &str| {
        get_team_count_for_user_in_pool_type(
            &store,
            gamer.to_string(),
            "G1".to_string(),
            "T1".to_string(),
        )
    };
    assert_eq!(count("alice"), Ok(2));
    assert_eq!(count("bob"), Ok(2));
    assert_eq!(count("carol"), Ok(0));
    assert_eq!(count("dave"), Ok(0));
}

#[test]
fn team_count_of_one_team_beside_another_gamer_is_one() {
    let mut store = Store::new();
    store.save_team_list("P1".to_string(), "alice".to_string(), vec![team("P1", "alice", "A")]);
    store.save_team_list("P1".to_string(), "bob".to_string(), vec![team("P1", "bob", "B")]);
    let count = |gamer: &str| {
        get_team_count_for_user_in_pool_type(
            &store,
            gamer.to_string(),
            "G1".to_string(),
            "T1".to_string(),
        )
    };
    assert_eq!(count("alice"), Ok(1));
    assert_eq!(count("bob"), Ok(1));
}

#[test]
fn team_count_does_not_read_the_lists_of_others() {
    let mut store = Store::new();
    store.save_team_list(
        "P1".to_string(),
        "bob".to_string(),
        vec![team("P1", "alice", "A-1"), team("P1", "alice", "A-2")],
    );
    store.save_team_list("P2".to_string(), "alice".to_string(), vec![team("P2", "alice", "A-3")]);
    assert_eq!(
        get_team_count_for_user_in_pool_type(
            &store,
            "alice".to_string(),
            "G1".to_string(),
            "T1".to_string(),
        ),
        Ok(1)
    );
}

#[test]
fn game_result_needs_configuration_address_and_template() {
    let mut store = Store::new();
    let ask = |store: &Store, address: Option<&str>| {
        query_game_result(
            store,
            address.map(|a| a.to_string()),
            "alice".to_string(),
            "P1".to_string(),
            "A-1".to_string(),
        )
    };
    assert_eq!(ask(&store, None), Err(QueryError::NotFound(Entity::Config)));
    assert_eq!(ask(&store, Some(SENTINEL)), Err(QueryError::NotFound(Entity::Config)));
    store.set_config(config());
    assert_eq!(ask(&store, None), Err(QueryError::InvalidAddress));
    assert_eq!(
        ask(&store, Some(SENTINEL)),
        Err(QueryError::NotFound(Entity::GameResultTemplate))
    );
    store.save_game_result("elsewhere".to_string(), template());
    assert_eq!(
        ask(&store, Some(SENTINEL)),
        Err(QueryError::NotFound(Entity::GameResultTemplate))
    );
    store.save_game_result(SENTINEL.to_string(), template());
    assert!(ask(&store, Some(SENTINEL)).is_ok());
    assert_eq!(ask(&store, None), Err(QueryError::InvalidAddress));
}

#[test]
fn game_result_without_a_row_keeps_the_template_rank_and_points() {
    let mut store = store_for_results();
    let expected = GameResult {
        gamer_address: "alice".to_string(),
        game_id: "G1".to_string(),
        team_id: "A-1".to_string(),
        team_rank: 100_000,
        team_points: 0,
        reward_amount: 0,
        refund_amount: 22,
    };
    let ask = |store: &Store| {
        query_game_result(
            store,
            Some(SENTINEL.to_string()),
            "alice".to_string(),
            "P1".to_string(),
            "A-1".to_string(),
        )
    };
    assert_eq!(ask(&store), Ok(expected.clone()));
    let mut other_team = team("P1", "alice", "A-2");
    other_team.team_rank = 1;
    other_team.reward_amount = 5;
    let mut other_game = team("P1", "alice", "A-1");
    other_game.game_id = "G2".to_string();
    other_game.reward_amount = 5;
    let mut other_pool = team("P2", "alice", "A-1");
    other_pool.reward_amount = 5;
    let mut other_gamer = team("P1", "bob", "A-1");
    other_gamer.reward_amount = 5;
    store.save_team_list(
        "P1".to_string(),
        "alice".to_string(),
        vec![other_team, other_game, other_pool, other_gamer],
    );
    assert_eq!(ask(&store), Ok(expected));
    assert_eq!(store.game_results().get(SENTINEL), Some(&template()));
}

#[test]
fn game_result_takes_rank_points_and_reward_from_the_row() {
    let mut store = store_for_results();
    let mut row = team("P1", "alice", "A-1");
    row.team_rank = 2;
    row.team_points = 340;
    row.reward_amount = 75;
    row.refund_amount = 9;
    store.save_team_list(
        "P1".to_string(),
        "alice".to_string(),
        vec![team("P1", "alice", "A-0"), row.clone()],
    );
    let ask = |store: &Store| {
        query_game_result(
            store,
            Some(SENTINEL.to_string()),
            "alice".to_string(),
            "P1".to_string(),
            "A-1".to_string(),
        )
    };
    let mut expected = GameResult {
        gamer_address: "alice".to_string(),
        game_id: "G1".to_string(),
        team_id: "A-1".to_string(),
        team_rank: 2,
        team_points: 340,
        reward_amount: 75,
        refund_amount: 22,
    };
    assert_eq!(ask(&store), Ok(expected.clone()));

    row.claimed_reward = ClaimStatus::Claimed;
    store.save_team_list("P1".to_string(), "alice".to_string(), vec![row.clone()]);
    expected.reward_amount = 0;
    assert_eq!(ask(&store), Ok(expected.clone()));

    let mut later = team("P1", "alice", "A-1");
    later.team_rank = 7;
    later.team_points = 8;
    later.reward_amount = 20;
    let mut open = row.clone();
    open.claimed_reward = ClaimStatus::Unclaimed;
    store.save_team_list("P1".to_string(), "alice".to_string(), vec![open, row, later]);
    expected.team_rank = 7;
    expected.team_points = 8;
    expected.reward_amount = 95;
    assert_eq!(ask(&store), Ok(expected));
}

#[test]
fn game_result_reward_beyond_range_overflows() {
    let mut store = store_for_results();
    let mut large = team("P1", "alice", "A-1");
    large.reward_amount = u128::MAX;
    let mut one = team("P1", "alice", "A-1");
    one.reward_amount = 1;
    store.save_team_list("P1".to_string(), "alice".to_string(), vec![large, one]);
    assert_eq!(
        query_game_result(
            &store,
            Some(SENTINEL.to_string()),
            "alice".to_string(),
            "P1".to_string(),
            "A-1".to_string(),
        ),
        Err(QueryError::Overflow)
    );
}

#[test]
fn rendering_leaves_the_template_alone() {
    let base = template();
    let mut row = team("P1", "alice", "A-1");
    row.team_rank = 4;
    row.team_points = 44;
    let rendered =
        render_game_result(&base, "alice".to_string(), "A-1".to_string(), Some(&row), 6);
    assert_eq!(
        rendered,
        GameResult {
            gamer_address: "alice".to_string(),
            game_id: "G1".to_string(),
            team_id: "A-1".to_string(),
            team_rank: 4,
            team_points: 44,
            reward_amount: 6,
            refund_amount: 22,
        }
    );
    assert_eq!(base, template());
    let plain = render_game_result(&base, "bob".to_string(), "B-1".to_string(), None, 0);
    assert_eq!(plain.team_rank, 100_000);
    assert_eq!(plain.team_points, 0);
    assert_eq!(plain.reward_amount, 0);
    assert_eq!(plain.gamer_address, "bob");
    assert_eq!(plain.team_id, "B-1");
}

#[test]
fn scanning_gives_the_last_row_and_the_open_rewards() {
    let mut first = team("P1", "alice", "A-1");
    first.reward_amount = 10;
    let mut second = team("P1", "alice", "A-1");
    second.reward_amount = 5;
    second.claimed_reward = ClaimStatus::Claimed;
    let other = team("P1", "alice", "A-2");
    let teams = vec![first, second.clone(), other];
    let gamer = "alice".to_string();
    let game = "G1".to_string();
    let pool_id = "P1".to_string();
    assert_eq!(
        scan_result_rows(&teams, &gamer, &"A-1".to_string(), &game, &pool_id),
        Ok((Some(&second), 10))
    );
    assert_eq!(
        scan_result_rows(&teams, &gamer, &"A-9".to_string(), &game, &pool_id),
        Ok((None, 0))
    );
    assert_eq!(
        scan_result_rows(&Vec::new(), &gamer, &"A-1".to_string(), &game, &pool_id),
        Ok((None, 0))
    );
}

#[test]
fn list_helpers_count_what_is_open() {
    let mut paid = team("P1", "alice", "A-1");
    paid.reward_amount = 100;
    paid.claimed_reward = ClaimStatus::Claimed;
    paid.claimed_refund = ClaimStatus::Claimed;
    let mut open = team("P1", "alice", "A-2");
    open.reward_amount = 40;
    let mut foreign = team("P1", "bob", "B-1");
    foreign.reward_amount = 7;
    let teams = vec![paid, open.clone(), foreign, open];
    let alice = "alice".to_string();
    assert_eq!(reward_in_team_list(&teams, &alice), Ok(80));
    assert_eq!(reward_in_team_list(&teams, &"bob".to_string()), Ok(7));
    assert_eq!(reward_in_team_list(&Vec::new(), &alice), Ok(0));
    assert_eq!(count_refund_claims(&teams, &alice), 2);
    assert_eq!(count_refund_claims(&teams, &"carol".to_string()), 0);
    assert_eq!(
        count_entries(&teams, &alice, &"G1".to_string(), &"T1".to_string(), &"P1".to_string()),
        3
    );
    assert_eq!(
        count_entries(&teams, &alice, &"G1".to_string(), &"T1".to_string(), &"P2".to_string()),
        0
    );
}

#[test]
fn team_count_adds_up_over_many_pools() {
    let mut store = Store::new();
    for n in 0..300u32 {
        let pool_id = format!("P{n:03}");
        let entries: Vec<PoolTeamDetails> =
            (0..=n % 7).map(|k| team(&pool_id, "alice", &format!("A-{n}-{k}"))).collect();
        store.save_team_list(pool_id.clone(), "alice".to_string(), entries);
        store.save_team_list(pool_id.clone(), "bob".to_string(), vec![team(&pool_id, "bob", "B")]);
        store.save_team_list(pool_id, "zed".to_string(), vec![]);
    }
    let expected: u32 = (0..300u32).map(|n| n % 7 + 1).sum();
    let count = |gamer: &str| {
        get_team_count_for_user_in_pool_type(
            &store,
            gamer.to_string(),
            "G1".to_string(),
            "T1".to_string(),
        )
    };
    assert_eq!(expected, 1_197);
    assert_eq!(count("alice"), Ok(1_197));
    assert_eq!(count("bob"), Ok(300));
    assert_eq!(count("zed"), Ok(0));
}
