//! The queries: what a caller can ask of a snapshot.
//!
//! A lookup of one record fails with `NotFound` when the record is absent. A
//! total over many pools never fails because a gamer has no teams in one of
//! them: such a pool adds nothing. Every answer is a function of the
//! snapshot's view and of the arguments, so asking twice gives the same
//! answer twice.

use vstd::prelude::*;

use crate::amount::{checked, checked_add, checked_mul};
use crate::error::{answer, Entity, QueryError};
use crate::fees::{compute_fees, fees_of};
use crate::series::{concat, lemma_concat_step, lemma_sum_prefix, lemma_sum_step, sum};
use crate::settlement::{
    count_entries, count_refund_claims, pool_entries, pool_refunds, pool_rewards, refund_due,
    refund_fee_missing, refund_outcome, reward_in_team_list, reward_owed, team_count,
    team_is_entry, teams_in_all_pools, teams_of_users, total_unclaimed_reward,
};
use crate::state::{
    duplicate_teams, ClaimStatus, FeeDetails, GameDetails, GameResult, GameResultView, GameView,
    PoolDetails, PoolTeamDetails, PoolTypeDetails, PoolTypeView, PoolView, SwapBalanceDetails,
    TeamView,
};
use crate::store::{Store, StoreView};

verus! {

/// What the fee wallet query answers.
pub open spec fn fee_wallet_of(store: StoreView) -> Result<Seq<char>, QueryError> {
    match store.fee_wallet {
        Some(address) => Ok(address),
        None => Err(QueryError::NotFound(Entity::FeeWallet)),
    }
}

/// The address that collects the fees.
pub fn query_get_fee_wallet(store: &Store) -> (r: Result<String, QueryError>)
    ensures
        answer(r) == fee_wallet_of(store@),
{
    match store.fee_wallet() {
        Ok(address) => Ok(address.clone()),
        Err(e) => Err(e),
    }
}

/// The pool type filed under `pool_type`.
pub fn query_pool_type_details(store: &Store, pool_type: String) -> (r: Result<
    PoolTypeDetails,
    QueryError,
>)
    ensures
        answer(r) == store@.pool_types.require(pool_type@, Entity::PoolType),
{
    match store.pool_types().require(pool_type.as_str(), Entity::PoolType) {
        Ok(details) => Ok(details.duplicate()),
        Err(e) => Err(e),
    }
}

/// What the fee query answers: the fees of `amount` at the configured rates.
pub open spec fn total_fees_outcome(store: StoreView, amount: u128) -> Result<
    FeeDetails,
    QueryError,
> {
    match store.config {
        Some(config) => fees_of(amount, config.platform_fee, config.transaction_fee),
        None => Err(QueryError::NotFound(Entity::Config)),
    }
}

/// The fees of `amount` at the configured rates.
pub fn query_total_fees(store: &Store, amount: u128) -> (r: Result<FeeDetails, QueryError>)
    ensures
        r == total_fees_outcome(store@, amount),
        r matches Ok(fees) ==> fees.platform_fee_amount + fees.transaction_fee_amount
            + fees.net_amount == amount,
{
    match store.config() {
        Ok(config) => compute_fees(amount, config.platform_fee, config.transaction_fee),
        Err(e) => Err(e),
    }
}

/// What the listing of pool types answers: all of them, in the order of
/// their keys.
pub open spec fn all_pool_types(store: StoreView) -> Result<Seq<PoolTypeView>, QueryError> {
    Ok(store.pool_types.values())
}

/// All pool types, in the order of their keys. This query does not fail.
pub fn query_all_pool_type_details(store: &Store) -> (r: Result<Vec<PoolTypeDetails>, QueryError>)
    ensures
        answer(r) == all_pool_types(store@),
        store@.pool_types.ordered(),
{
    let pool_types = store.pool_types();
    let mut all: Vec<PoolTypeDetails> = Vec::new();
    let mut i: usize = 0;
    while i < pool_types.len()
        invariant
            i <= pool_types@.keys.len(),
            pool_types@ == store@.pool_types,
            all.len() == i,
            forall|j: int| 0 <= j < i ==> all[j]@ == store@.pool_types.values()[j],
        decreases pool_types@.keys.len() - i,
    {
        all.push(pool_types.value(i).duplicate());
        i += 1;
    }
    assert(all.deep_view() =~= store@.pool_types.values());
    Ok(all)
}

/// What the team list query answers for `user` in pool `pool_id`.
pub open spec fn team_list_of(store: StoreView, pool_id: Seq<char>, user: Seq<char>) -> Result<
    Seq<TeamView>,
    QueryError,
> {
    match store.team_list(pool_id, user) {
        Some(teams) => Ok(teams),
        None => Err(QueryError::NotFound(Entity::TeamList)),
    }
}

/// The teams that `user` has entered into pool `pool_id`.
pub fn query_pool_team_details(store: &Store, pool_id: String, user: String) -> (r: Result<
    Vec<PoolTeamDetails>,
    QueryError,
>)
    ensures
        answer(r) == team_list_of(store@, pool_id@, user@),
{
    match store.team_list(pool_id.as_str(), user.as_str()) {
        Some(teams) => Ok(duplicate_teams(teams)),
        None => Err(QueryError::NotFound(Entity::TeamList)),
    }
}

/// Appends copies of `teams` to `out`.
fn append_teams(out: &mut Vec<PoolTeamDetails>, teams: &Vec<PoolTeamDetails>)
    ensures
        final(out).deep_view() == old(out).deep_view() + teams.deep_view(),
{
    let ghost before = out.deep_view();
    let mut i: usize = 0;
    assert(teams.deep_view().take(0) =~= Seq::<TeamView>::empty());
    assert(before + Seq::<TeamView>::empty() =~= before);
    while i < teams.len()
        invariant
            i <= teams.len(),
            out.deep_view() == before + teams.deep_view().take(i as int),
        decreases teams.len() - i,
    {
        let ghost so_far = out.deep_view();
        out.push(teams[i].duplicate());
        assert(out.deep_view() =~= so_far.push(teams[i as int]@));
        assert(teams.deep_view().take(i + 1) =~= teams.deep_view().take(i as int).push(
            teams[i as int]@,
        ));
        assert(out.deep_view() =~= before + teams.deep_view().take(i + 1));
        i += 1;
    }
    assert(teams.deep_view().take(i as int) =~= teams.deep_view());
}

/// Appends to `out` the teams that the gamers `users` have entered into pool
/// `pool_id`.
fn append_teams_of_users(
    out: &mut Vec<PoolTeamDetails>,
    store: &Store,
    pool_id: &String,
    users: &Vec<String>,
)
    ensures
        final(out).deep_view() == old(out).deep_view() + teams_of_users(
            store@,
            pool_id@,
            users.deep_view(),
        ),
{
    let ghost before = out.deep_view();
    let ghost lists = users.deep_view().map_values(
        |user: Seq<char>| store@.teams_of(pool_id@, user),
    );
    let mut j: usize = 0;
    assert(lists.take(0) =~= Seq::<Seq<TeamView>>::empty());
    assert(before + Seq::<TeamView>::empty() =~= before);
    while j < users.len()
        invariant
            j <= users.len(),
            lists == users.deep_view().map_values(
                |user: Seq<char>| store@.teams_of(pool_id@, user),
            ),
            out.deep_view() == before + concat(lists.take(j as int)),
        decreases users.len() - j,
    {
        proof {
            lemma_concat_step(lists, j as int);
        }
        let ghost so_far = out.deep_view();
        match store.team_list(pool_id.as_str(), users[j].as_str()) {
            Some(teams) => {
                append_teams(out, teams);
            },
            None => {},
        }
        assert(out.deep_view() =~= so_far + lists[j as int]);
        assert(out.deep_view() =~= before + concat(lists.take(j + 1)));
        j += 1;
    }
    assert(lists.take(j as int) =~= lists);
}

/// What the listing of teams answers for the gamers `users`.
pub open spec fn all_teams_of(store: StoreView, users: Seq<Seq<char>>) -> Result<
    Seq<TeamView>,
    QueryError,
> {
    Ok(teams_in_all_pools(store, users))
}

/// The teams of the gamers `users` in all pools: pool after pool in the order
/// of the pool ids, within a pool gamer after gamer in the order of `users`.
/// A gamer without a list in a pool adds nothing. This query does not fail.
pub fn query_all_teams(store: &Store, users: Vec<String>) -> (r: Result<
    Vec<PoolTeamDetails>,
    QueryError,
>)
    ensures
        answer(r) == all_teams_of(store@, users.deep_view()),
        store@.pools.ordered(),
{
    let pools = store.pools();
    let ghost lists = store@.pools.keys.map_values(
        |pool_id: Seq<char>| teams_of_users(store@, pool_id, users.deep_view()),
    );
    let mut all: Vec<PoolTeamDetails> = Vec::new();
    let mut i: usize = 0;
    assert(lists.take(0) =~= Seq::<Seq<TeamView>>::empty());
    assert(all.deep_view() =~= Seq::<TeamView>::empty());
    while i < pools.len()
        invariant
            i <= pools@.keys.len(),
            pools@ == store@.pools,
            lists == store@.pools.keys.map_values(
                |pool_id: Seq<char>| teams_of_users(store@, pool_id, users.deep_view()),
            ),
            all.deep_view() == concat(lists.take(i as int)),
        decreases pools@.keys.len() - i,
    {
        proof {
            lemma_concat_step(lists, i as int);
        }
        append_teams_of_users(&mut all, store, pools.key(i), &users);
        i += 1;
    }
    assert(lists.take(i as int) =~= lists);
    Ok(all)
}

/// All the rewards that `gamer` has not claimed yet: the reward amount of
/// each of the gamer's teams, in any pool, whose reward is unclaimed. The
/// query fails only when that total does not fit in 128 bits.
pub fn query_reward(store: &Store, gamer: String) -> (r: Result<u128, QueryError>)
    ensures
        r == checked(total_unclaimed_reward(store@, gamer@) as int),
        store@.pools.ordered(),
{
    let pools = store.pools();
    let ghost owed = pool_rewards(store@, gamer@);
    let mut total: u128 = 0;
    let mut i: usize = 0;
    assert(owed.take(0) =~= Seq::<nat>::empty());
    while i < pools.len()
        invariant
            i <= pools@.keys.len(),
            pools@ == store@.pools,
            owed == pool_rewards(store@, gamer@),
            total == sum(owed.take(i as int)),
        decreases pools@.keys.len() - i,
    {
        proof {
            lemma_sum_step(owed, i as int);
            lemma_sum_prefix(owed, i + 1);
        }
        let in_pool: u128 = match store.team_list(pools.key(i).as_str(), gamer.as_str()) {
            Some(teams) => match reward_in_team_list(teams, &gamer) {
                Ok(amount) => amount,
                Err(e) => {
                    return Err(e);
                },
            },
            None => {
                assert(Seq::<TeamView>::empty().map_values(
                    |team: TeamView| reward_owed(team, gamer@),
                ) =~= Seq::<nat>::empty());
                0
            },
        };
        total = match checked_add(total, in_pool) {
            Ok(next) => next,
            Err(e) => {
                return Err(e);
            },
        };
        i += 1;
    }
    assert(owed.take(i as int) =~= owed);
    Ok(total)
}

/// All the refunds that `gamer` has not claimed yet: for each pool that is
/// marked for refund, the entry fee of the pool's type for each of the
/// gamer's teams in it whose refund is unclaimed. A team's own refund amount
/// is not read. The query fails with `NotFound` when such a team stands in a
/// pool whose type is not on record, and otherwise with `Overflow` when the
/// total does not fit in 128 bits.
pub fn query_refund(store: &Store, gamer: String) -> (r: Result<u128, QueryError>)
    ensures
        r == refund_outcome(store@, gamer@),
        store@.pools.ordered(),
{
    let pools = store.pools();
    let ghost owed = pool_refunds(store@, gamer@);
    let mut total: u128 = 0;
    let mut overflowed: bool = false;
    let mut i: usize = 0;
    assert(owed.take(0) =~= Seq::<nat>::empty());
    while i < pools.len()
        invariant
            i <= pools@.keys.len(),
            pools@ == store@.pools,
            owed == pool_refunds(store@, gamer@),
            !overflowed ==> total == sum(owed.take(i as int)),
            overflowed ==> sum(owed.take(i as int)) > u128::MAX,
            forall|j: int|
                0 <= j < i ==> !refund_fee_missing(store@, #[trigger] store@.pools.keys[j], gamer@),
        decreases pools@.keys.len() - i,
    {
        proof {
            lemma_sum_step(owed, i as int);
        }
        let pool_id = pools.key(i);
        let pool = pools.value(i);
        if pool.pool_refund_status {
            let claims: usize = match store.team_list(pool_id.as_str(), gamer.as_str()) {
                Some(teams) => count_refund_claims(teams, &gamer),
                None => {
                    assert(Seq::<TeamView>::empty().map_values(
                        |team: TeamView| if refund_due(team, gamer@) { 1nat } else { 0nat },
                    ) =~= Seq::<nat>::empty());
                    0
                },
            };
            if claims > 0 {
                let fee: u128 = match store.pool_types().get(pool.pool_type.as_str()) {
                    Some(pool_type) => pool_type.pool_fee,
                    None => {
                        return Err(QueryError::NotFound(Entity::PoolType));
                    },
                };
                if !overflowed {
                    match checked_mul(fee, claims as u128) {
                        Ok(in_pool) => match checked_add(total, in_pool) {
                            Ok(next) => {
                                total = next;
                            },
                            Err(_) => {
                                overflowed = true;
                            },
                        },
                        Err(_) => {
                            overflowed = true;
                        },
                    }
                }
            }
        }
        i += 1;
    }
    assert(owed.take(i as int) =~= owed);
    if overflowed {
        Err(QueryError::Overflow)
    } else {
        Ok(total)
    }
}

/// Whether `team` is the row that the result of team `team_id` of `gamer` in
/// pool `pool_id` under game `game_id` is read from.
pub open spec fn is_result_row(
    team: TeamView,
    gamer: Seq<char>,
    team_id: Seq<char>,
    game_id: Seq<char>,
    pool_id: Seq<char>,
) -> bool {
    &&& team.gamer_address == gamer
    &&& team.team_id == team_id
    &&& team.game_id == game_id
    &&& team.pool_id == pool_id
}

/// The last team of a list that is such a row, if there is one.
pub open spec fn last_result_row(
    teams: Seq<TeamView>,
    gamer: Seq<char>,
    team_id: Seq<char>,
    game_id: Seq<char>,
    pool_id: Seq<char>,
) -> Option<TeamView>
    decreases teams.len(),
{
    if teams.len() == 0 {
        None
    } else if is_result_row(teams.last(), gamer, team_id, game_id, pool_id) {
        Some(teams.last())
    } else {
        last_result_row(teams.drop_last(), gamer, team_id, game_id, pool_id)
    }
}

/// The unclaimed rewards of the rows of a list.
pub open spec fn reward_of_rows(
    teams: Seq<TeamView>,
    gamer: Seq<char>,
    team_id: Seq<char>,
    game_id: Seq<char>,
    pool_id: Seq<char>,
) -> nat {
    sum(
        teams.map_values(
            |team: TeamView|
                if is_result_row(team, gamer, team_id, game_id, pool_id) {
                    reward_owed(team, gamer)
                } else {
                    0nat
                },
        ),
    )
}

/// A result made from a template: the gamer, the team and the reward are set,
/// the rank and the points come from `row` when there is one, and everything
/// else stays as the template has it.
pub open spec fn overlay(
    template: GameResultView,
    gamer: Seq<char>,
    team_id: Seq<char>,
    row: Option<TeamView>,
    reward_amount: u128,
) -> GameResultView {
    GameResultView {
        gamer_address: gamer,
        game_id: template.game_id,
        team_id: team_id,
        team_rank: match row {
            Some(team) => team.team_rank,
            None => template.team_rank,
        },
        team_points: match row {
            Some(team) => team.team_points,
            None => template.team_points,
        },
        reward_amount: reward_amount,
        refund_amount: template.refund_amount,
    }
}

/// The view of an optional team.
pub open spec fn row_view(row: Option<&PoolTeamDetails>) -> Option<TeamView> {
    match row {
        Some(team) => Some(team@),
        None => None,
    }
}

/// Makes a fresh result from a template; the template is left as it is.
pub fn render_game_result(
    template: &GameResult,
    gamer: String,
    team_id: String,
    row: Option<&PoolTeamDetails>,
    reward_amount: u128,
) -> (r: GameResult)
    ensures
        r@ == overlay(template@, gamer@, team_id@, row_view(row), reward_amount),
{
    let (team_rank, team_points) = match row {
        Some(team) => (team.team_rank, team.team_points),
        None => (template.team_rank, template.team_points),
    };
    GameResult {
        gamer_address: gamer,
        game_id: template.game_id.clone(),
        team_id: team_id,
        team_rank: team_rank,
        team_points: team_points,
        reward_amount: reward_amount,
        refund_amount: template.refund_amount,
    }
}

/// Reads one team list for a result: the last row in it, if there is one,
/// and the unclaimed rewards of its rows, or `Overflow` when these do not fit
/// in 128 bits.
pub fn scan_result_rows<'a>(
    teams: &'a Vec<PoolTeamDetails>,
    gamer: &String,
    team_id: &String,
    game_id: &String,
    pool_id: &String,
) -> (r: Result<(Option<&'a PoolTeamDetails>, u128), QueryError>)
    ensures
        match r {
            Ok((row, reward)) => {
                &&& row_view(row) == last_result_row(
                    teams.deep_view(),
                    gamer@,
                    team_id@,
                    game_id@,
                    pool_id@,
                )
                &&& reward == reward_of_rows(
                    teams.deep_view(),
                    gamer@,
                    team_id@,
                    game_id@,
                    pool_id@,
                )
            },
            Err(e) => {
                &&& e == QueryError::Overflow
                &&& reward_of_rows(teams.deep_view(), gamer@, team_id@, game_id@, pool_id@)
                    > u128::MAX
            },
        },
{
    let ghost all = teams.deep_view();
    let ghost owed = all.map_values(
        |team: TeamView|
            if is_result_row(team, gamer@, team_id@, game_id@, pool_id@) {
                reward_owed(team, gamer@)
            } else {
                0nat
            },
    );
    let mut row: Option<&PoolTeamDetails> = None;
    let mut reward: u128 = 0;
    let mut i: usize = 0;
    assert(owed.take(0) =~= Seq::<nat>::empty());
    assert(all.take(0) =~= Seq::<TeamView>::empty());
    while i < teams.len()
        invariant
            i <= teams.len(),
            all == teams.deep_view(),
            owed == all.map_values(
                |team: TeamView|
                    if is_result_row(team, gamer@, team_id@, game_id@, pool_id@) {
                        reward_owed(team, gamer@)
                    } else {
                        0nat
                    },
            ),
            reward == sum(owed.take(i as int)),
            row_view(row) == last_result_row(
                all.take(i as int),
                gamer@,
                team_id@,
                game_id@,
                pool_id@,
            ),
        decreases teams.len() - i,
    {
        proof {
            lemma_sum_step(owed, i as int);
            lemma_sum_prefix(owed, i + 1);
            assert(all.take(i + 1).drop_last() =~= all.take(i as int));
        }
        let team = &teams[i];
        if *gamer == team.gamer_address && *team_id == team.team_id && *game_id == team.game_id
            && *pool_id == team.pool_id {
            row = Some(team);
            if team.claimed_reward == ClaimStatus::Unclaimed {
                reward = match checked_add(reward, team.reward_amount) {
                    Ok(next) => next,
                    Err(e) => {
                        return Err(e);
                    },
                };
            }
        }
        i += 1;
    }
    assert(all.take(i as int) =~= all);
    assert(owed.take(i as int) =~= owed);
    Ok((row, reward))
}

/// What the game result query answers.
///
/// `template_address` is the address under which the template is filed, as
/// the host validated it, or `None` when the host rejected it.
pub open spec fn game_result_outcome(
    store: StoreView,
    template_address: Option<Seq<char>>,
    gamer: Seq<char>,
    pool_id: Seq<char>,
    team_id: Seq<char>,
) -> Result<GameResultView, QueryError> {
    match store.config {
        None => Err(QueryError::NotFound(Entity::Config)),
        Some(config) => match template_address {
            None => Err(QueryError::InvalidAddress),
            Some(address) => match store.game_results.get(address) {
                None => Err(QueryError::NotFound(Entity::GameResultTemplate)),
                Some(template) => {
                    let teams = store.teams_of(pool_id, gamer);
                    let reward = reward_of_rows(teams, gamer, team_id, config.game_id, pool_id);
                    if reward <= u128::MAX {
                        Ok(
                            overlay(
                                template,
                                gamer,
                                team_id,
                                last_result_row(teams, gamer, team_id, config.game_id, pool_id),
                                reward as u128,
                            ),
                        )
                    } else {
                        Err(QueryError::Overflow)
                    }
                },
            },
        },
    }
}

/// The view of an optional string.
pub open spec fn text_view(text: Option<String>) -> Option<Seq<char>> {
    match text {
        Some(text) => Some(text@),
        None => None,
    }
}

/// The result of the configured game as team `team_id` of `gamer` in pool
/// `pool_id` sees it: the stored template, overlaid with the gamer, the team,
/// the rank and points of the team's row and the row's unclaimed reward. The
/// refund is left as the template has it.
///
/// `template_address` is the address under which the template is filed, as
/// the host validated it, or `None` when the host rejected it.
pub fn query_game_result(
    store: &Store,
    template_address: Option<String>,
    gamer: String,
    pool_id: String,
    team_id: String,
) -> (r: Result<GameResult, QueryError>)
    ensures
        answer(r) == game_result_outcome(
            store@,
            text_view(template_address),
            gamer@,
            pool_id@,
            team_id@,
        ),
{
    let config = match store.config() {
        Ok(config) => config,
        Err(e) => {
            return Err(e);
        },
    };
    let address = match template_address {
        Some(address) => address,
        None => {
            return Err(QueryError::InvalidAddress);
        },
    };
    let template = match store.game_results().require(
        address.as_str(),
        Entity::GameResultTemplate,
    ) {
        Ok(template) => template,
        Err(e) => {
            return Err(e);
        },
    };
    let (row, reward) = match store.team_list(pool_id.as_str(), gamer.as_str()) {
        Some(teams) => match scan_result_rows(teams, &gamer, &team_id, &config.game_id, &pool_id) {
            Ok(found) => found,
            Err(e) => {
                return Err(e);
            },
        },
        None => {
            assert(Seq::<TeamView>::empty().map_values(
                |team: TeamView|
                    if is_result_row(team, gamer@, team_id@, config@.game_id, pool_id@) {
                        reward_owed(team, gamer@)
                    } else {
                        0nat
                    },
            ) =~= Seq::<nat>::empty());
            (None, 0)
        },
    };
    Ok(render_game_result(template, gamer, team_id, row, reward))
}

/// The pool filed under `pool_id`.
pub fn query_pool_details(store: &Store, pool_id: String) -> (r: Result<PoolDetails, QueryError>)
    ensures
        answer(r) == store@.pools.require(pool_id@, Entity::Pool),
{
    match store.pools().require(pool_id.as_str(), Entity::Pool) {
        Ok(details) => Ok(details.duplicate()),
        Err(e) => Err(e),
    }
}

/// A count as the team count query answers it: itself when it fits in 32
/// bits, an overflow otherwise.
pub open spec fn counted(count: nat) -> Result<u32, QueryError> {
    if count <= u32::MAX {
        Ok(count as u32)
    } else {
        Err(QueryError::Overflow)
    }
}

/// The team count of `gamer` for pool type `pool_type` of game `game_id`.
///
/// Every pool that has team lists is visited, and the teams in the gamer's
/// own list for that pool that carry this gamer, game, pool type and pool
/// are counted, each once. The lists of other gamers are not read, and a pool
/// without a list of the gamer adds nothing. The query fails only when the
/// count does not fit in 32 bits.
pub fn get_team_count_for_user_in_pool_type(
    store: &Store,
    gamer: String,
    game_id: String,
    pool_type: String,
) -> (r: Result<u32, QueryError>)
    ensures
        r == counted(team_count(store@, gamer@, game_id@, pool_type@)),
        store@.teams.ordered(),
        store@.team_lists_ordered(),
{
    store.team_lists_ordered();
    let pools = store.teams();
    let ghost added = pool_entries(store@, gamer@, game_id@, pool_type@);
    let mut count: u32 = 0;
    let mut i: usize = 0;
    assert(added.take(0) =~= Seq::<nat>::empty());
    while i < pools.len()
        invariant
            i <= pools@.keys.len(),
            pools@ == store@.teams,
            store@.team_lists_ordered(),
            added == pool_entries(store@, gamer@, game_id@, pool_type@),
            count == sum(added.take(i as int)),
        decreases pools@.keys.len() - i,
    {
        proof {
            lemma_sum_step(added, i as int);
            lemma_sum_prefix(added, i + 1);
        }
        let pool_id = pools.key(i);
        let gamers = pools.value(i);
        let entries: usize = match gamers.get(gamer.as_str()) {
            Some(teams) => count_entries(teams, &gamer, &game_id, &pool_type, pool_id),
            None => {
                assert(Seq::<TeamView>::empty().map_values(
                    |team: TeamView|
                        if team_is_entry(team, gamer@, game_id@, pool_type@, pool_id@) {
                            1nat
                        } else {
                            0nat
                        },
                ) =~= Seq::<nat>::empty());
                0
            },
        };
        if entries as u64 > (u32::MAX - count) as u64 {
            return Err(QueryError::Overflow);
        }
        count = count + (entries as u32);
        i += 1;
    }
    assert(added.take(i as int) =~= added);
    Ok(count)
}

/// What the game query answers: the game that the configuration names.
pub open spec fn game_details_lookup(store: StoreView) -> Result<GameView, QueryError> {
    match store.config {
        Some(config) => store.games.require(config.game_id, Entity::Game),
        None => Err(QueryError::NotFound(Entity::Config)),
    }
}

/// The game that the configuration names.
pub fn query_game_details(store: &Store) -> (r: Result<GameDetails, QueryError>)
    ensures
        answer(r) == game_details_lookup(store@),
{
    let config = match store.config() {
        Ok(config) => config,
        Err(e) => {
            return Err(e);
        },
    };
    match store.games().require(config.game_id.as_str(), Entity::Game) {
        Ok(game) => Ok(game.duplicate()),
        Err(e) => Err(e),
    }
}

/// The first team of a list whose id is `team_id`, if there is one.
pub open spec fn first_team_with_id(teams: Seq<TeamView>, team_id: Seq<char>) -> Option<TeamView>
    decreases teams.len(),
{
    if teams.len() == 0 {
        None
    } else if teams.first().team_id == team_id {
        Some(teams.first())
    } else {
        first_team_with_id(teams.drop_first(), team_id)
    }
}

/// What the team query answers: the team list must be there, and a team with
/// that id must be in it.
pub open spec fn team_details_lookup(
    store: StoreView,
    pool_id: Seq<char>,
    team_id: Seq<char>,
    gamer: Seq<char>,
) -> Result<TeamView, QueryError> {
    match store.team_list(pool_id, gamer) {
        Some(teams) => match first_team_with_id(teams, team_id) {
            Some(team) => Ok(team),
            None => Err(QueryError::NotFound(Entity::Team)),
        },
        None => Err(QueryError::NotFound(Entity::TeamList)),
    }
}

/// The team `team_id` that `gamer` has entered into pool `pool_id`: the
/// first team with that id in the gamer's list for the pool.
pub fn query_team_details(store: &Store, pool_id: String, team_id: String, gamer: String) -> (r:
    Result<PoolTeamDetails, QueryError>)
    ensures
        answer(r) == team_details_lookup(store@, pool_id@, team_id@, gamer@),
{
    let teams = match store.team_list(pool_id.as_str(), gamer.as_str()) {
        Some(teams) => teams,
        None => {
            return Err(QueryError::NotFound(Entity::TeamList));
        },
    };
    let ghost all = teams.deep_view();
    let mut i: usize = 0;
    assert(all.skip(0) =~= all);
    while i < teams.len()
        invariant
            i <= teams.len(),
            all == teams.deep_view(),
            store@.team_list(pool_id@, gamer@) == Some(all),
            first_team_with_id(all, team_id@) == first_team_with_id(all.skip(i as int), team_id@),
        decreases teams.len() - i,
    {
        proof {
            assert(all.skip(i as int).first() == all[i as int]);
            assert(all.skip(i as int).drop_first() =~= all.skip(i + 1));
        }
        if teams[i].team_id == team_id {
            return Ok(teams[i].duplicate());
        }
        i += 1;
    }
    Err(QueryError::NotFound(Entity::Team))
}

/// What the pool listing answers: the pools, in the order of their keys,
/// whose game is the configured one.
pub open spec fn pools_in_game(store: StoreView) -> Result<Seq<PoolView>, QueryError> {
    match store.config {
        Some(config) => Ok(
            store.pools.values().filter(|pool: PoolView| pool.game_id == config.game_id),
        ),
        None => Err(QueryError::NotFound(Entity::Config)),
    }
}

/// The pools of the configured game, in the order of their keys.
pub fn query_all_pools_in_game(store: &Store) -> (r: Result<Vec<PoolDetails>, QueryError>)
    ensures
        answer(r) == pools_in_game(store@),
        store@.pools.ordered(),
{
    let pools = store.pools();
    let config = match store.config() {
        Ok(config) => config,
        Err(e) => {
            return Err(e);
        },
    };
    let ghost all = store@.pools.values();
    let ghost in_game = |pool: PoolView| pool.game_id == config@.game_id;
    let mut found: Vec<PoolDetails> = Vec::new();
    let mut i: usize = 0;
    proof {
        reveal(Seq::filter);
        assert(all.take(0) =~= Seq::<PoolView>::empty());
        assert(found.deep_view() =~= Seq::<PoolView>::empty());
    }
    while i < pools.len()
        invariant
            i <= pools@.keys.len(),
            pools@ == store@.pools,
            all == store@.pools.values(),
            in_game == |pool: PoolView| pool.game_id == config@.game_id,
            found.deep_view() == all.take(i as int).filter(in_game),
        decreases pools@.keys.len() - i,
    {
        let pool = pools.value(i);
        proof {
            reveal(Seq::filter);
            assert(all.take(i + 1).drop_last() =~= all.take(i as int));
            assert(all.take(i + 1).last() == pool@);
        }
        if pool.game_id == config.game_id {
            let ghost so_far = found.deep_view();
            found.push(pool.duplicate());
            assert(found.deep_view() =~= so_far.push(pool@));
        }
        i += 1;
    }
    assert(all.take(i as int) =~= all);
    Ok(found)
}

/// What a pool has collected: the entry fee of its type for each of its
/// teams, or zero when that product does not fit in 128 bits.
pub open spec fn collection_of(pool_fee: u128, teams: u32) -> u128 {
    if pool_fee * teams <= u128::MAX {
        (pool_fee * teams) as u128
    } else {
        0
    }
}

/// What the collection query answers for pool `pool_id`.
pub open spec fn pool_collection(store: StoreView, pool_id: Seq<char>) -> Result<u128, QueryError> {
    match store.pools.get(pool_id) {
        Some(pool) => match store.pool_types.get(pool.pool_type) {
            Some(pool_type) => Ok(collection_of(pool_type.pool_fee, pool.current_teams_count)),
            None => Err(QueryError::NotFound(Entity::PoolType)),
        },
        None => Err(QueryError::NotFound(Entity::Pool)),
    }
}

/// The amount that pool `pool_id` has collected from its teams. A product
/// that leaves the integer range is answered with zero, not with an error.
pub fn query_pool_collection(store: &Store, pool_id: String) -> (r: Result<u128, QueryError>)
    ensures
        r == pool_collection(store@, pool_id@),
{
    let pool = match store.pools().require(pool_id.as_str(), Entity::Pool) {
        Ok(pool) => pool,
        Err(e) => {
            return Err(e);
        },
    };
    let pool_type = match store.pool_types().require(pool.pool_type.as_str(), Entity::PoolType) {
        Ok(pool_type) => pool_type,
        Err(e) => {
            return Err(e);
        },
    };
    match checked_mul(pool_type.pool_fee, pool.current_teams_count as u128) {
        Ok(collected) => Ok(collected),
        Err(_) => Ok(0),
    }
}

/// The swap balance filed under `pool_id`.
pub fn query_swap_data_for_pool(store: &Store, pool_id: String) -> (r: Result<
    SwapBalanceDetails,
    QueryError,
>)
    ensures
        answer(r) == store@.swap_balances.require(pool_id@, Entity::SwapBalance),
{
    match store.swap_balances().require(pool_id.as_str(), Entity::SwapBalance) {
        Ok(balance) => Ok(*balance),
        Err(e) => Err(e),
    }
}

} // verus!
