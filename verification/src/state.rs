//! The records that the store holds, and the mathematical view of each.
//!
//! A record's view replaces every string by its sequence of characters, so
//! that two records with the same view are the same record to every query.

use vstd::prelude::*;

verus! {

/// Whether an owed amount has been paid out. A team's flags are the only
/// record of payment: an amount is owed exactly while its flag is `Unclaimed`.
#[derive(Clone, Copy, Debug, PartialEq, Eq, Structural)]
pub enum ClaimStatus {
    Unclaimed,
    Claimed,
}

/// The configuration that is fixed when the contract is set up.
#[derive(Clone, Debug, PartialEq, Eq)]
pub struct Config {
    pub game_id: String,
    pub platform_fee: u128,
    pub transaction_fee: u128,
}

/// What a `Config` holds, with every string as its sequence of characters.
pub struct ConfigView {
    pub game_id: Seq<char>,
    pub platform_fee: u128,
    pub transaction_fee: u128,
}

/// A class of pools that share an entry fee and the limits on their teams.
#[derive(Clone, Debug, PartialEq, Eq)]
pub struct PoolTypeDetails {
    pub pool_type: String,
    pub pool_fee: u128,
    pub min_teams_for_pool: u32,
    pub max_teams_for_pool: u32,
    pub max_teams_for_gamer: u32,
}

/// What a `PoolTypeDetails` holds, with every string as its sequence of characters.
pub struct PoolTypeView {
    pub pool_type: Seq<char>,
    pub pool_fee: u128,
    pub min_teams_for_pool: u32,
    pub max_teams_for_pool: u32,
    pub max_teams_for_gamer: u32,
}

/// A group of teams that are resolved together under one game.
#[derive(Clone, Debug, PartialEq, Eq)]
pub struct PoolDetails {
    pub pool_id: String,
    pub pool_type: String,
    pub game_id: String,
    pub current_teams_count: u32,
    pub pool_refund_status: bool,
}

/// What a `PoolDetails` holds, with every string as its sequence of characters.
pub struct PoolView {
    pub pool_id: Seq<char>,
    pub pool_type: Seq<char>,
    pub game_id: Seq<char>,
    pub current_teams_count: u32,
    pub pool_refund_status: bool,
}

/// One gamer's entry into a pool.
#[derive(Clone, Debug, PartialEq, Eq)]
pub struct PoolTeamDetails {
    pub team_id: String,
    pub game_id: String,
    pub pool_id: String,
    pub pool_type: String,
    pub gamer_address: String,
    pub team_rank: u64,
    pub team_points: u64,
    pub reward_amount: u128,
    pub refund_amount: u128,
    pub claimed_reward: ClaimStatus,
    pub claimed_refund: ClaimStatus,
}

/// What a `PoolTeamDetails` holds, with every string as its sequence of characters.
pub struct TeamView {
    pub team_id: Seq<char>,
    pub game_id: Seq<char>,
    pub pool_id: Seq<char>,
    pub pool_type: Seq<char>,
    pub gamer_address: Seq<char>,
    pub team_rank: u64,
    pub team_points: u64,
    pub reward_amount: u128,
    pub refund_amount: u128,
    pub claimed_reward: ClaimStatus,
    pub claimed_refund: ClaimStatus,
}

/// The static configuration of a game.
#[derive(Clone, Debug, PartialEq, Eq)]
pub struct GameDetails {
    pub game_id: String,
    pub game_status: u64,
}

/// What a `GameDetails` holds, with every string as its sequence of characters.
pub struct GameView {
    pub game_id: Seq<char>,
    pub game_status: u64,
}

/// The result of a game as one gamer's team sees it.
#[derive(Clone, Debug, PartialEq, Eq)]
pub struct GameResult {
    pub gamer_address: String,
    pub game_id: String,
    pub team_id: String,
    pub team_rank: u64,
    pub team_points: u64,
    pub reward_amount: u128,
    pub refund_amount: u128,
}

/// What a `GameResult` holds, with every string as its sequence of characters.
pub struct GameResultView {
    pub gamer_address: Seq<char>,
    pub game_id: Seq<char>,
    pub team_id: Seq<char>,
    pub team_rank: u64,
    pub team_points: u64,
    pub reward_amount: u128,
    pub refund_amount: u128,
}

/// The balances around a swap of a pool's funds.
#[derive(Clone, Copy, Debug, PartialEq, Eq, Structural)]
pub struct SwapBalanceDetails {
    pub balance_pre_swap: u128,
    pub balance_post_swap: u128,
}

/// How a gross amount splits into the two fees and what is left.
#[derive(Clone, Copy, Debug, PartialEq, Eq, Structural)]
pub struct FeeDetails {
    pub platform_fee_amount: u128,
    pub transaction_fee_amount: u128,
    pub net_amount: u128,
}

impl View for Config {
    type V = ConfigView;

    open spec fn view(&self) -> ConfigView {
        ConfigView {
            game_id: self.game_id@,
            platform_fee: self.platform_fee,
            transaction_fee: self.transaction_fee,
        }
    }
}

impl DeepView for Config {
    type V = ConfigView;

    open spec fn deep_view(&self) -> ConfigView {
        self@
    }
}

impl Config {
    /// A copy with the same view.
    pub fn duplicate(&self) -> (r: Config)
        ensures
            r@ == self@,
    {
        Config {
            game_id: self.game_id.clone(),
            platform_fee: self.platform_fee,
            transaction_fee: self.transaction_fee,
        }
    }
}

impl View for PoolTypeDetails {
    type V = PoolTypeView;

    open spec fn view(&self) -> PoolTypeView {
        PoolTypeView {
            pool_type: self.pool_type@,
            pool_fee: self.pool_fee,
            min_teams_for_pool: self.min_teams_for_pool,
            max_teams_for_pool: self.max_teams_for_pool,
            max_teams_for_gamer: self.max_teams_for_gamer,
        }
    }
}

impl DeepView for PoolTypeDetails {
    type V = PoolTypeView;

    open spec fn deep_view(&self) -> PoolTypeView {
        self@
    }
}

impl PoolTypeDetails {
    /// A copy with the same view.
    pub fn duplicate(&self) -> (r: PoolTypeDetails)
        ensures
            r@ == self@,
    {
        PoolTypeDetails {
            pool_type: self.pool_type.clone(),
            pool_fee: self.pool_fee,
            min_teams_for_pool: self.min_teams_for_pool,
            max_teams_for_pool: self.max_teams_for_pool,
            max_teams_for_gamer: self.max_teams_for_gamer,
        }
    }
}

impl View for PoolDetails {
    type V = PoolView;

    open spec fn view(&self) -> PoolView {
        PoolView {
            pool_id: self.pool_id@,
            pool_type: self.pool_type@,
            game_id: self.game_id@,
            current_teams_count: self.current_teams_count,
            pool_refund_status: self.pool_refund_status,
        }
    }
}

impl DeepView for PoolDetails {
    type V = PoolView;

    open spec fn deep_view(&self) -> PoolView {
        self@
    }
}

impl PoolDetails {
    /// A copy with the same view.
    pub fn duplicate(&self) -> (r: PoolDetails)
        ensures
            r@ == self@,
    {
        PoolDetails {
            pool_id: self.pool_id.clone(),
            pool_type: self.pool_type.clone(),
            game_id: self.game_id.clone(),
            current_teams_count: self.current_teams_count,
            pool_refund_status: self.pool_refund_status,
        }
    }
}

impl View for PoolTeamDetails {
    type V = TeamView;

    open spec fn view(&self) -> TeamView {
        TeamView {
            team_id: self.team_id@,
            game_id: self.game_id@,
            pool_id: self.pool_id@,
            pool_type: self.pool_type@,
            gamer_address: self.gamer_address@,
            team_rank: self.team_rank,
            team_points: self.team_points,
            reward_amount: self.reward_amount,
            refund_amount: self.refund_amount,
            claimed_reward: self.claimed_reward,
            claimed_refund: self.claimed_refund,
        }
    }
}

impl DeepView for PoolTeamDetails {
    type V = TeamView;

    open spec fn deep_view(&self) -> TeamView {
        self@
    }
}

impl PoolTeamDetails {
    /// A copy with the same view.
    pub fn duplicate(&self) -> (r: PoolTeamDetails)
        ensures
            r@ == self@,
    {
        PoolTeamDetails {
            team_id: self.team_id.clone(),
            game_id: self.game_id.clone(),
            pool_id: self.pool_id.clone(),
            pool_type: self.pool_type.clone(),
            gamer_address: self.gamer_address.clone(),
            team_rank: self.team_rank,
            team_points: self.team_points,
            reward_amount: self.reward_amount,
            refund_amount: self.refund_amount,
            claimed_reward: self.claimed_reward,
            claimed_refund: self.claimed_refund,
        }
    }
}

impl View for GameDetails {
    type V = GameView;

    open spec fn view(&self) -> GameView {
        GameView { game_id: self.game_id@, game_status: self.game_status }
    }
}

impl DeepView for GameDetails {
    type V = GameView;

    open spec fn deep_view(&self) -> GameView {
        self@
    }
}

impl GameDetails {
    /// A copy with the same view.
    pub fn duplicate(&self) -> (r: GameDetails)
        ensures
            r@ == self@,
    {
        GameDetails { game_id: self.game_id.clone(), game_status: self.game_status }
    }
}

impl View for GameResult {
    type V = GameResultView;

    open spec fn view(&self) -> GameResultView {
        GameResultView {
            gamer_address: self.gamer_address@,
            game_id: self.game_id@,
            team_id: self.team_id@,
            team_rank: self.team_rank,
            team_points: self.team_points,
            reward_amount: self.reward_amount,
            refund_amount: self.refund_amount,
        }
    }
}

impl DeepView for GameResult {
    type V = GameResultView;

    open spec fn deep_view(&self) -> GameResultView {
        self@
    }
}

impl GameResult {
    /// A copy with the same view.
    pub fn duplicate(&self) -> (r: GameResult)
        ensures
            r@ == self@,
    {
        GameResult {
            gamer_address: self.gamer_address.clone(),
            game_id: self.game_id.clone(),
            team_id: self.team_id.clone(),
            team_rank: self.team_rank,
            team_points: self.team_points,
            reward_amount: self.reward_amount,
            refund_amount: self.refund_amount,
        }
    }
}

impl View for SwapBalanceDetails {
    type V = SwapBalanceDetails;

    open spec fn view(&self) -> SwapBalanceDetails {
        *self
    }
}

impl DeepView for SwapBalanceDetails {
    type V = SwapBalanceDetails;

    open spec fn deep_view(&self) -> SwapBalanceDetails {
        *self
    }
}

impl View for FeeDetails {
    type V = FeeDetails;

    open spec fn view(&self) -> FeeDetails {
        *self
    }
}

impl DeepView for FeeDetails {
    type V = FeeDetails;

    open spec fn deep_view(&self) -> FeeDetails {
        *self
    }
}

/// A copy of a list of teams, team by team.
pub fn duplicate_teams(teams: &Vec<PoolTeamDetails>) -> (r: Vec<PoolTeamDetails>)
    ensures
        r.deep_view() == teams.deep_view(),
{
    let mut out: Vec<PoolTeamDetails> = Vec::new();
    let mut i: usize = 0;
    while i < teams.len()
        invariant
            i <= teams.len(),
            out.len() == i,
            forall|j: int| 0 <= j < i ==> out[j]@ == teams[j]@,
        decreases teams.len() - i,
    {
        out.push(teams[i].duplicate());
        i += 1;
    }
    assert(out.deep_view() =~= teams.deep_view());
    out
}

} // verus!
