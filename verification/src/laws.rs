//! What holds of the queries on every snapshot.
//!
//! Each law is stated over the same spec functions that the contracts of the
//! queries use, so it speaks of what the queries return.

use vstd::prelude::*;

use crate::amount::checked;
use crate::error::{answer, QueryError};
use crate::fees::fees_of;
use crate::query::{all_teams_of, counted, game_result_outcome, pools_in_game};
use crate::keys::{key_lt, lemma_key_lt_irreflexive};
use crate::series::{
    lemma_concat_step, lemma_sum_of_both, lemma_sum_of_one, lemma_sum_of_zeros, lemma_sum_step,
    sum,
};
use crate::settlement::{
    entries_in_list, entries_under_pool, entry_fee, open_refund_claims, pool_entries,
    pool_refunds, pool_rewards, refund_due, refund_fee_missing, refund_in_pool, refund_outcome,
    reward_in_list, reward_owed, team_count, team_is_entry, total_unclaimed_refund,
    total_unclaimed_reward,
};
use crate::state::{ClaimStatus, GameResult, PoolDetails, PoolTeamDetails, TeamView};
use crate::store::StoreView;

verus! {

/// Reading the reward total twice from one snapshot gives one answer: two
/// results that each meet the contract of the reward query, for the same
/// snapshot and gamer, are equal.
pub proof fn reward_reads_agree(
    store: StoreView,
    gamer: Seq<char>,
    first: Result<u128, QueryError>,
    second: Result<u128, QueryError>,
)
    requires
        first == checked(total_unclaimed_reward(store, gamer) as int),
        second == checked(total_unclaimed_reward(store, gamer) as int),
    ensures
        first == second,
{
}

/// Reading the refund total twice from one snapshot gives one answer.
pub proof fn refund_reads_agree(
    store: StoreView,
    gamer: Seq<char>,
    first: Result<u128, QueryError>,
    second: Result<u128, QueryError>,
)
    requires
        first == refund_outcome(store, gamer),
        second == refund_outcome(store, gamer),
    ensures
        first == second,
{
}

/// Reading the team count twice from one snapshot gives one answer.
pub proof fn team_count_reads_agree(
    store: StoreView,
    gamer: Seq<char>,
    game_id: Seq<char>,
    pool_type: Seq<char>,
    first: Result<u32, QueryError>,
    second: Result<u32, QueryError>,
)
    requires
        first == counted(team_count(store, gamer, game_id, pool_type)),
        second == counted(team_count(store, gamer, game_id, pool_type)),
    ensures
        first == second,
{
}

/// Reading a game result twice from one snapshot gives results with one
/// view, as long as the host validates the template's address the same way
/// both times.
pub proof fn game_result_reads_agree(
    store: StoreView,
    template_address: Option<Seq<char>>,
    gamer: Seq<char>,
    pool_id: Seq<char>,
    team_id: Seq<char>,
    first: Result<GameResult, QueryError>,
    second: Result<GameResult, QueryError>,
)
    requires
        answer(first) == game_result_outcome(store, template_address, gamer, pool_id, team_id),
        answer(second) == game_result_outcome(store, template_address, gamer, pool_id, team_id),
    ensures
        answer(first) == answer(second),
{
}

/// Listing the teams of some gamers twice from one snapshot gives lists with
/// one view.
pub proof fn team_listing_reads_agree(
    store: StoreView,
    users: Seq<Seq<char>>,
    first: Result<Vec<PoolTeamDetails>, QueryError>,
    second: Result<Vec<PoolTeamDetails>, QueryError>,
)
    requires
        answer(first) == all_teams_of(store, users),
        answer(second) == all_teams_of(store, users),
    ensures
        answer(first) == answer(second),
{
}

/// Listing the pools of the configured game twice from one snapshot gives
/// lists with one view.
pub proof fn pool_listing_reads_agree(
    store: StoreView,
    first: Result<Vec<PoolDetails>, QueryError>,
    second: Result<Vec<PoolDetails>, QueryError>,
)
    requires
        answer(first) == pools_in_game(store),
        answer(second) == pools_in_game(store),
    ensures
        answer(first) == answer(second),
{
}

/// What one key of a team list adds to the team count of `gamer`: the
/// entries in the list under the key where the key names the gamer, nothing
/// where it names another gamer.
pub open spec fn entries_for_key(
    store: StoreView,
    key: (Seq<char>, Seq<char>),
    gamer: Seq<char>,
    game_id: Seq<char>,
    pool_type: Seq<char>,
) -> nat {
    if key.1 == gamer {
        entries_in_list(store.teams_of(key.0, key.1), gamer, game_id, pool_type, key.0)
    } else {
        0
    }
}

/// The team count walks the keys of the team lists and counts each entry of
/// the gamer once: it is the sum, over all these keys, of the entries in the
/// list under the key where the key is the gamer's, and the keys of other
/// gamers add nothing.
pub proof fn team_count_counts_each_entry_once(
    store: StoreView,
    gamer: Seq<char>,
    game_id: Seq<char>,
    pool_type: Seq<char>,
)
    requires
        store.team_lists_ordered(),
    ensures
        team_count(store, gamer, game_id, pool_type) == sum(
            store.team_list_keys().map_values(
                |key: (Seq<char>, Seq<char>)|
                    entries_for_key(store, key, gamer, game_id, pool_type),
            ),
        ),
{
    let n = store.teams.keys.len() as int;
    lemma_count_of_first_pools(store, gamer, game_id, pool_type, n);
    let added = pool_entries(store, gamer, game_id, pool_type);
    assert(added.take(n) =~= added);
}

/// Among the keys of one pool, the gamer's own key alone adds to the count,
/// and it adds what the pool adds.
proof fn lemma_count_of_one_pool(
    store: StoreView,
    pool_id: Seq<char>,
    gamer: Seq<char>,
    game_id: Seq<char>,
    pool_type: Seq<char>,
)
    requires
        store.team_lists_ordered(),
    ensures
        sum(
            store.team_list_keys_in_pool(pool_id).map_values(
                |key: (Seq<char>, Seq<char>)|
                    entries_for_key(store, key, gamer, game_id, pool_type),
            ),
        ) == entries_under_pool(store, pool_id, gamer, game_id, pool_type),
{
    let gamers = store.gamers_in_pool(pool_id);
    let values = store.team_list_keys_in_pool(pool_id).map_values(
        |key: (Seq<char>, Seq<char>)| entries_for_key(store, key, gamer, game_id, pool_type),
    );
    if gamers.contains(gamer) {
        let at = choose|at: int| 0 <= at < gamers.len() && gamers[at] == gamer;
        assert(store.teams.entries.contains_key(pool_id));
        assert forall|i: int| 0 <= i < values.len() && i != at implies values[i] == 0 by {
            lemma_key_lt_irreflexive(gamer);
            if i < at {
                assert(key_lt(gamers[i], gamers[at]));
            } else {
                assert(key_lt(gamers[at], gamers[i]));
            }
        }
        lemma_sum_of_one(values, at);
    } else {
        assert forall|i: int| 0 <= i < values.len() implies values[i] == 0 by {
            assert(gamers[i] != gamer);
        }
        lemma_sum_of_zeros(values);
        assert(store.team_list(pool_id, gamer) is None);
        assert(store.teams_of(pool_id, gamer).map_values(
            |team: TeamView|
                if team_is_entry(team, gamer, game_id, pool_type, pool_id) {
                    1nat
                } else {
                    0nat
                },
        ) =~= Seq::<nat>::empty());
    }
}

/// The same as the law, for the first `n` pools that have team lists.
proof fn lemma_count_of_first_pools(
    store: StoreView,
    gamer: Seq<char>,
    game_id: Seq<char>,
    pool_type: Seq<char>,
    n: int,
)
    requires
        store.team_lists_ordered(),
        0 <= n <= store.teams.keys.len(),
    ensures
        sum(pool_entries(store, gamer, game_id, pool_type).take(n)) == sum(
            store.team_list_keys_of_first(n).map_values(
                |key: (Seq<char>, Seq<char>)|
                    entries_for_key(store, key, gamer, game_id, pool_type),
            ),
        ),
    decreases n,
{
    let added = pool_entries(store, gamer, game_id, pool_type);
    let per_pool = store.teams.keys.map_values(
        |pool_id: Seq<char>| store.team_list_keys_in_pool(pool_id),
    );
    let for_key = |key: (Seq<char>, Seq<char>)|
        entries_for_key(store, key, gamer, game_id, pool_type);
    if n == 0 {
        assert(added.take(0) =~= Seq::<nat>::empty());
        assert(per_pool.take(0) =~= Seq::<Seq<(Seq<char>, Seq<char>)>>::empty());
        assert(store.team_list_keys_of_first(0).map_values(for_key) =~= Seq::<nat>::empty());
    } else {
        lemma_count_of_first_pools(store, gamer, game_id, pool_type, n - 1);
        lemma_sum_step(added, n - 1);
        lemma_concat_step(per_pool, n - 1);
        let pool_id = store.teams.keys[n - 1];
        let before = store.team_list_keys_of_first(n - 1);
        let block = store.team_list_keys_in_pool(pool_id);
        assert(store.team_list_keys_of_first(n) == before + block);
        assert((before + block).map_values(for_key) =~= before.map_values(for_key)
            + block.map_values(for_key));
        lemma_sum_of_both(before.map_values(for_key), block.map_values(for_key));
        lemma_count_of_one_pool(store, pool_id, gamer, game_id, pool_type);
    }
}

/// A gamer without a team in any pool is owed no reward and no refund, and
/// both totals are answered with zero, never with an error.
pub proof fn no_teams_nothing_owed(store: StoreView, gamer: Seq<char>)
    requires
        forall|pool_id: Seq<char>| (#[trigger] store.teams_of(pool_id, gamer)).len() == 0,
    ensures
        total_unclaimed_reward(store, gamer) == 0,
        checked(total_unclaimed_reward(store, gamer) as int) matches Ok(total) && total == 0,
        total_unclaimed_refund(store, gamer) == 0,
        refund_outcome(store, gamer) matches Ok(total) && total == 0,
{
    let rewards = pool_rewards(store, gamer);
    assert forall|i: int| 0 <= i < rewards.len() implies rewards[i] == 0 by {
        let teams = store.teams_of(store.pools.keys[i], gamer);
        assert(teams.map_values(|team: TeamView| reward_owed(team, gamer)) =~= Seq::<
            nat,
        >::empty());
    }
    lemma_sum_of_zeros(rewards);
    let refunds = pool_refunds(store, gamer);
    assert forall|i: int| 0 <= i < refunds.len() implies refunds[i] == 0
        && !refund_fee_missing(store, store.pools.keys[i], gamer) by {
        lemma_no_teams_no_claims(store, store.pools.keys[i], gamer);
    }
    lemma_sum_of_zeros(refunds);
}

/// A pool in which the gamer has no team holds no open refund claim.
proof fn lemma_no_teams_no_claims(store: StoreView, pool_id: Seq<char>, gamer: Seq<char>)
    requires
        store.teams_of(pool_id, gamer).len() == 0,
    ensures
        open_refund_claims(store, pool_id, gamer) == 0,
        refund_in_pool(store, pool_id, gamer) == 0,
        !refund_fee_missing(store, pool_id, gamer),
{
    let teams = store.teams_of(pool_id, gamer);
    assert(teams.map_values(
        |team: TeamView| if refund_due(team, gamer) { 1nat } else { 0nat },
    ) =~= Seq::<nat>::empty());
    assert(refund_in_pool(store, pool_id, gamer) == 0) by (nonlinear_arith)
        requires
            open_refund_claims(store, pool_id, gamer) == 0,
            refund_in_pool(store, pool_id, gamer) == match entry_fee(store, pool_id) {
                Some(fee) => (fee as nat) * open_refund_claims(store, pool_id, gamer),
                None => 0,
            },
    ;
}

/// A team whose reward is claimed owes no reward to anyone, whatever its
/// reward amount says.
pub proof fn claimed_team_owes_no_reward(team: TeamView, gamer: Seq<char>)
    requires
        team.claimed_reward == ClaimStatus::Claimed,
    ensures
        reward_owed(team, gamer) == 0,
{
}

/// The claimed teams of a list add nothing to what the list owes, however
/// many they are: the list owes what its unclaimed teams alone owe.
pub proof fn claimed_teams_add_no_reward(teams: Seq<TeamView>, gamer: Seq<char>)
    ensures
        reward_in_list(teams, gamer) == reward_in_list(
            teams.filter(|team: TeamView| team.claimed_reward == ClaimStatus::Unclaimed),
            gamer,
        ),
    decreases teams.len(),
{
    reveal(Seq::filter);
    let unclaimed = |team: TeamView| team.claimed_reward == ClaimStatus::Unclaimed;
    let owed = |team: TeamView| reward_owed(team, gamer);
    if teams.len() == 0 {
        assert(teams.filter(unclaimed) =~= teams);
    } else {
        let front = teams.drop_last();
        claimed_teams_add_no_reward(front, gamer);
        assert(teams.map_values(owed).drop_last() =~= front.map_values(owed));
        if unclaimed(teams.last()) {
            let kept = front.filter(unclaimed).push(teams.last());
            assert(kept.map_values(owed).drop_last() =~= front.filter(unclaimed).map_values(
                owed,
            ));
        }
    }
}

/// Where every team of a gamer has its reward claimed, in every pool, the
/// gamer's reward total is zero.
pub proof fn all_claimed_no_reward(store: StoreView, gamer: Seq<char>)
    requires
        forall|pool_id: Seq<char>, i: int|
            0 <= i < store.teams_of(pool_id, gamer).len() ==> (#[trigger] store.teams_of(
                pool_id,
                gamer,
            )[i]).claimed_reward == ClaimStatus::Claimed,
    ensures
        total_unclaimed_reward(store, gamer) == 0,
        checked(total_unclaimed_reward(store, gamer) as int) matches Ok(total) && total == 0,
{
    let rewards = pool_rewards(store, gamer);
    assert forall|i: int| 0 <= i < rewards.len() implies rewards[i] == 0 by {
        let teams = store.teams_of(store.pools.keys[i], gamer);
        let owed = teams.map_values(|team: TeamView| reward_owed(team, gamer));
        assert forall|j: int| 0 <= j < owed.len() implies owed[j] == 0 by {
            assert(teams[j].claimed_reward == ClaimStatus::Claimed);
        }
        lemma_sum_of_zeros(owed);
    }
    lemma_sum_of_zeros(rewards);
}

/// A pool that is not marked for refund owes no refund to anyone, whatever
/// the claim flags of its teams say, and it asks for no entry fee.
pub proof fn unmarked_pool_owes_no_refund(store: StoreView, pool_id: Seq<char>, gamer: Seq<char>)
    requires
        store.pools.get(pool_id) matches Some(pool) && !pool.pool_refund_status,
    ensures
        open_refund_claims(store, pool_id, gamer) == 0,
        refund_in_pool(store, pool_id, gamer) == 0,
        !refund_fee_missing(store, pool_id, gamer),
{
    assert(refund_in_pool(store, pool_id, gamer) == 0) by (nonlinear_arith)
        requires
            open_refund_claims(store, pool_id, gamer) == 0,
            refund_in_pool(store, pool_id, gamer) == match entry_fee(store, pool_id) {
                Some(fee) => (fee as nat) * open_refund_claims(store, pool_id, gamer),
                None => 0,
            },
    ;
}

/// Where no listed pool is marked for refund, every gamer's refund total is
/// zero and is answered without an error.
pub proof fn no_marked_pool_no_refund(store: StoreView, gamer: Seq<char>)
    requires
        forall|i: int|
            0 <= i < store.pools.keys.len() ==> (store.pools.get(
                #[trigger] store.pools.keys[i],
            ) matches Some(pool) && !pool.pool_refund_status),
    ensures
        total_unclaimed_refund(store, gamer) == 0,
        refund_outcome(store, gamer) matches Ok(total) && total == 0,
{
    let refunds = pool_refunds(store, gamer);
    assert forall|i: int| 0 <= i < refunds.len() implies refunds[i] == 0
        && !refund_fee_missing(store, store.pools.keys[i], gamer) by {
        unmarked_pool_owes_no_refund(store, store.pools.keys[i], gamer);
    }
    lemma_sum_of_zeros(refunds);
}

/// The fee engine loses nothing: whenever it answers, the platform fee, the
/// transaction fee and the net amount add up to the gross amount.
pub proof fn fees_are_conserved(amount: u128, platform_rate: u128, transaction_rate: u128)
    ensures
        fees_of(amount, platform_rate, transaction_rate) matches Ok(fees)
            ==> fees.platform_fee_amount + fees.transaction_fee_amount + fees.net_amount
            == amount,
{
}

} // verus!
