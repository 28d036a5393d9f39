//! What a gamer is owed, stated over a snapshot's view.
//!
//! Every total is a sum of contributions, one per listed key, and every
//! contribution looks at the claim flag of each team: an amount counts only
//! while its flag says `Unclaimed`.

use vstd::prelude::*;

use crate::amount::{checked, checked_add};
use crate::error::{Entity, QueryError};
use crate::series::{concat, lemma_sum_prefix, lemma_sum_step, sum};
use crate::state::{ClaimStatus, PoolTeamDetails, TeamView};
use crate::store::StoreView;

verus! {

/// The reward that `team` still owes to `gamer`: its reward amount while the
/// team is the gamer's and the reward is unclaimed, nothing otherwise.
pub open spec fn reward_owed(team: TeamView, gamer: Seq<char>) -> nat {
    if team.gamer_address == gamer && team.claimed_reward == ClaimStatus::Unclaimed {
        team.reward_amount as nat
    } else {
        0
    }
}

/// The rewards that the teams of one list still owe to `gamer`.
pub open spec fn reward_in_list(teams: Seq<TeamView>, gamer: Seq<char>) -> nat {
    sum(teams.map_values(|team: TeamView| reward_owed(team, gamer)))
}

/// For each listed pool, the rewards that it still owes to `gamer`. A pool
/// without a team list for the gamer owes nothing.
pub open spec fn pool_rewards(store: StoreView, gamer: Seq<char>) -> Seq<nat> {
    store.pools.keys.map_values(
        |pool_id: Seq<char>| reward_in_list(store.teams_of(pool_id, gamer), gamer),
    )
}

/// All the rewards that `gamer` has not claimed yet.
pub open spec fn total_unclaimed_reward(store: StoreView, gamer: Seq<char>) -> nat {
    sum(pool_rewards(store, gamer))
}

/// Whether `team` still has a refund to claim for `gamer`.
pub open spec fn refund_due(team: TeamView, gamer: Seq<char>) -> bool {
    team.gamer_address == gamer && team.claimed_refund == ClaimStatus::Unclaimed
}

/// How many teams of one list still have a refund to claim for `gamer`.
pub open spec fn refund_claims(teams: Seq<TeamView>, gamer: Seq<char>) -> nat {
    sum(teams.map_values(|team: TeamView| if refund_due(team, gamer) { 1nat } else { 0nat }))
}

/// Whether pool `pool_id` is on record and marked for refund.
pub open spec fn pool_is_refundable(store: StoreView, pool_id: Seq<char>) -> bool {
    match store.pools.get(pool_id) {
        Some(pool) => pool.pool_refund_status,
        None => false,
    }
}

/// How many refunds `gamer` can still claim in pool `pool_id`: none unless
/// the pool is marked for refund.
pub open spec fn open_refund_claims(store: StoreView, pool_id: Seq<char>, gamer: Seq<char>) -> nat {
    if pool_is_refundable(store, pool_id) {
        refund_claims(store.teams_of(pool_id, gamer), gamer)
    } else {
        0
    }
}

/// The entry fee of the type of pool `pool_id`, if both are on record.
pub open spec fn entry_fee(store: StoreView, pool_id: Seq<char>) -> Option<u128> {
    match store.pools.get(pool_id) {
        Some(pool) => match store.pool_types.get(pool.pool_type) {
            Some(pool_type) => Some(pool_type.pool_fee),
            None => None,
        },
        None => None,
    }
}

/// Whether a refund is open in pool `pool_id` whose amount cannot be told,
/// because the pool's type is not on record.
pub open spec fn refund_fee_missing(store: StoreView, pool_id: Seq<char>, gamer: Seq<char>) -> bool {
    open_refund_claims(store, pool_id, gamer) > 0 && entry_fee(store, pool_id) is None
}

/// The refund that pool `pool_id` owes to `gamer`: the entry fee of the
/// pool's type for each open claim, whatever the teams' own refund amounts.
pub open spec fn refund_in_pool(store: StoreView, pool_id: Seq<char>, gamer: Seq<char>) -> nat {
    match entry_fee(store, pool_id) {
        Some(fee) => (fee as nat) * open_refund_claims(store, pool_id, gamer),
        None => 0,
    }
}

/// For each listed pool, the refund that it owes to `gamer`.
pub open spec fn pool_refunds(store: StoreView, gamer: Seq<char>) -> Seq<nat> {
    store.pools.keys.map_values(|pool_id: Seq<char>| refund_in_pool(store, pool_id, gamer))
}

/// All the refunds that `gamer` has not claimed yet.
pub open spec fn total_unclaimed_refund(store: StoreView, gamer: Seq<char>) -> nat {
    sum(pool_refunds(store, gamer))
}

/// Whether some listed pool has an open refund for `gamer` without a fee.
pub open spec fn some_refund_fee_missing(store: StoreView, gamer: Seq<char>) -> bool {
    exists|i: int|
        0 <= i < store.pools.keys.len() && refund_fee_missing(
            store,
            #[trigger] store.pools.keys[i],
            gamer,
        )
}

/// What the refund query answers: the missing pool type if a fee is missing,
/// else the total if it fits in 128 bits.
pub open spec fn refund_outcome(store: StoreView, gamer: Seq<char>) -> Result<u128, QueryError> {
    if some_refund_fee_missing(store, gamer) {
        Err(QueryError::NotFound(Entity::PoolType))
    } else {
        checked(total_unclaimed_refund(store, gamer) as int)
    }
}

/// Whether `team` is an entry of `gamer` into pool `pool_id` of type
/// `pool_type` under game `game_id`.
pub open spec fn team_is_entry(
    team: TeamView,
    gamer: Seq<char>,
    game_id: Seq<char>,
    pool_type: Seq<char>,
    pool_id: Seq<char>,
) -> bool {
    &&& team.pool_type == pool_type
    &&& team.game_id == game_id
    &&& team.gamer_address == gamer
    &&& team.pool_id == pool_id
}

/// How many teams of one list are such entries.
pub open spec fn entries_in_list(
    teams: Seq<TeamView>,
    gamer: Seq<char>,
    game_id: Seq<char>,
    pool_type: Seq<char>,
    pool_id: Seq<char>,
) -> nat {
    sum(
        teams.map_values(
            |team: TeamView|
                if team_is_entry(team, gamer, game_id, pool_type, pool_id) {
                    1nat
                } else {
                    0nat
                },
        ),
    )
}

/// What pool `pool_id` adds to the team count of `gamer`: the teams in the
/// gamer's own list for that pool that are such entries, each counted once.
/// A pool without a list of the gamer adds nothing.
pub open spec fn entries_under_pool(
    store: StoreView,
    pool_id: Seq<char>,
    gamer: Seq<char>,
    game_id: Seq<char>,
    pool_type: Seq<char>,
) -> nat {
    entries_in_list(store.teams_of(pool_id, gamer), gamer, game_id, pool_type, pool_id)
}

/// For each pool that has team lists, what it adds to the team count.
pub open spec fn pool_entries(
    store: StoreView,
    gamer: Seq<char>,
    game_id: Seq<char>,
    pool_type: Seq<char>,
) -> Seq<nat> {
    store.teams.keys.map_values(
        |pool_id: Seq<char>| entries_under_pool(store, pool_id, gamer, game_id, pool_type),
    )
}

/// The team count of `gamer` for one pool type of one game: the gamer's
/// entries in all pools, each team counted once, whatever lists other gamers
/// have stored.
pub open spec fn team_count(
    store: StoreView,
    gamer: Seq<char>,
    game_id: Seq<char>,
    pool_type: Seq<char>,
) -> nat {
    sum(pool_entries(store, gamer, game_id, pool_type))
}

/// The teams that the gamers `users` have entered into pool `pool_id`, gamer
/// after gamer in the order of `users`.
pub open spec fn teams_of_users(store: StoreView, pool_id: Seq<char>, users: Seq<Seq<char>>) -> Seq<
    TeamView,
> {
    concat(users.map_values(|user: Seq<char>| store.teams_of(pool_id, user)))
}

/// The teams of the gamers `users` in all listed pools, pool after pool.
pub open spec fn teams_in_all_pools(store: StoreView, users: Seq<Seq<char>>) -> Seq<TeamView> {
    concat(store.pools.keys.map_values(|pool_id: Seq<char>| teams_of_users(store, pool_id, users)))
}

/// The rewards that the teams of one list still owe to `gamer`, or
/// `Overflow` when they do not fit in 128 bits.
pub fn reward_in_team_list(teams: &Vec<PoolTeamDetails>, gamer: &String) -> (r: Result<
    u128,
    QueryError,
>)
    ensures
        r == checked(reward_in_list(teams.deep_view(), gamer@) as int),
{
    let ghost owed = teams.deep_view().map_values(|team: TeamView| reward_owed(team, gamer@));
    let mut total: u128 = 0;
    let mut i: usize = 0;
    assert(owed.take(0) =~= Seq::<nat>::empty());
    while i < teams.len()
        invariant
            i <= teams.len(),
            owed == teams.deep_view().map_values(|team: TeamView| reward_owed(team, gamer@)),
            total == sum(owed.take(i as int)),
        decreases teams.len() - i,
    {
        proof {
            lemma_sum_step(owed, i as int);
            lemma_sum_prefix(owed, i + 1);
        }
        let team = &teams[i];
        if team.gamer_address == *gamer && team.claimed_reward == ClaimStatus::Unclaimed {
            total = match checked_add(total, team.reward_amount) {
                Ok(next) => next,
                Err(e) => {
                    return Err(e);
                },
            };
        }
        i += 1;
    }
    assert(owed.take(i as int) =~= owed);
    Ok(total)
}

/// How many teams of one list still have a refund to claim for `gamer`.
pub fn count_refund_claims(teams: &Vec<PoolTeamDetails>, gamer: &String) -> (r: usize)
    ensures
        r == refund_claims(teams.deep_view(), gamer@),
{
    let ghost due = teams.deep_view().map_values(
        |team: TeamView| if refund_due(team, gamer@) { 1nat } else { 0nat },
    );
    let mut count: usize = 0;
    let mut i: usize = 0;
    assert(due.take(0) =~= Seq::<nat>::empty());
    while i < teams.len()
        invariant
            i <= teams.len(),
            due == teams.deep_view().map_values(
                |team: TeamView| if refund_due(team, gamer@) { 1nat } else { 0nat },
            ),
            count == sum(due.take(i as int)),
            count <= i,
        decreases teams.len() - i,
    {
        proof {
            lemma_sum_step(due, i as int);
        }
        let team = &teams[i];
        if team.gamer_address == *gamer && team.claimed_refund == ClaimStatus::Unclaimed {
            count += 1;
        }
        i += 1;
    }
    assert(due.take(i as int) =~= due);
    count
}

/// How many teams of one list are entries of `gamer` into pool `pool_id` of
/// type `pool_type` under game `game_id`.
pub fn count_entries(
    teams: &Vec<PoolTeamDetails>,
    gamer: &String,
    game_id: &String,
    pool_type: &String,
    pool_id: &String,
) -> (r: usize)
    ensures
        r == entries_in_list(teams.deep_view(), gamer@, game_id@, pool_type@, pool_id@),
{
    let ghost hits = teams.deep_view().map_values(
        |team: TeamView|
            if team_is_entry(team, gamer@, game_id@, pool_type@, pool_id@) {
                1nat
            } else {
                0nat
            },
    );
    let mut count: usize = 0;
    let mut i: usize = 0;
    assert(hits.take(0) =~= Seq::<nat>::empty());
    while i < teams.len()
        invariant
            i <= teams.len(),
            hits == teams.deep_view().map_values(
                |team: TeamView|
                    if team_is_entry(team, gamer@, game_id@, pool_type@, pool_id@) {
                        1nat
                    } else {
                        0nat
                    },
            ),
            count == sum(hits.take(i as int)),
            count <= i,
        decreases teams.len() - i,
    {
        proof {
            lemma_sum_step(hits, i as int);
        }
        let team = &teams[i];
        if team.pool_type == *pool_type && team.game_id == *game_id && team.gamer_address
            == *gamer && team.pool_id == *pool_id {
            count += 1;
        }
        i += 1;
    }
    assert(hits.take(i as int) =~= hits);
    count
}

} // verus!
