//! A snapshot of the record store, with one typed accessor per kind of record.
//!
//! The queries read a snapshot and nothing else. Team lists are kept pool by
//! pool and, within a pool, gamer by gamer, which lists their keys in the
//! lexicographic order of the pair of pool and gamer.

use vstd::prelude::*;

use crate::error::{Entity, QueryError};
use crate::series::{concat, lemma_concat_step};
use crate::state::{
    Config, ConfigView, GameDetails, GameResult, GameResultView, GameView, PoolDetails,
    PoolTeamDetails, PoolTypeDetails, PoolTypeView, PoolView, SwapBalanceDetails, TeamView,
};
use crate::keys::key_lt;
use crate::table::{ascending, Table, TableView};

verus! {

/// What a snapshot holds.
pub struct StoreView {
    /// The configuration, once it has been set.
    pub config: Option<ConfigView>,
    /// The address that collects the fees, once it has been set.
    pub fee_wallet: Option<Seq<char>>,
    /// Pool types by name.
    pub pool_types: TableView<PoolTypeView>,
    /// Pools by pool id.
    pub pools: TableView<PoolView>,
    /// Team lists by pool id and, under it, by gamer address.
    pub teams: TableView<TableView<Seq<TeamView>>>,
    /// Games by game id.
    pub games: TableView<GameView>,
    /// Game result templates by the address that they are filed under.
    pub game_results: TableView<GameResultView>,
    /// Swap balances by pool id.
    pub swap_balances: TableView<SwapBalanceDetails>,
}

impl StoreView {
    /// The teams that `gamer` has entered into pool `pool_id`, if a list is
    /// stored for that pair.
    pub open spec fn team_list(self, pool_id: Seq<char>, gamer: Seq<char>) -> Option<
        Seq<TeamView>,
    > {
        match self.teams.get(pool_id) {
            Some(gamers) => gamers.get(gamer),
            None => None,
        }
    }

    /// The same list, with an absent list read as an empty one.
    pub open spec fn teams_of(self, pool_id: Seq<char>, gamer: Seq<char>) -> Seq<TeamView> {
        match self.team_list(pool_id, gamer) {
            Some(teams) => teams,
            None => Seq::empty(),
        }
    }

    /// The gamers that have a team list stored under pool `pool_id`, in the
    /// order in which they are listed.
    pub open spec fn gamers_in_pool(self, pool_id: Seq<char>) -> Seq<Seq<char>> {
        match self.teams.get(pool_id) {
            Some(gamers) => gamers.keys,
            None => Seq::empty(),
        }
    }

    /// The keys of the team lists stored under pool `pool_id`, as pairs of
    /// pool and gamer.
    pub open spec fn team_list_keys_in_pool(self, pool_id: Seq<char>) -> Seq<
        (Seq<char>, Seq<char>),
    > {
        self.gamers_in_pool(pool_id).map_values(|gamer: Seq<char>| (pool_id, gamer))
    }

    /// The keys of the team lists of the first `n` listed pools.
    pub open spec fn team_list_keys_of_first(self, n: int) -> Seq<(Seq<char>, Seq<char>)> {
        concat(
            self.teams.keys.map_values(
                |pool_id: Seq<char>| self.team_list_keys_in_pool(pool_id),
            ).take(n),
        )
    }

    /// The keys of all team lists, as pairs of pool and gamer: pool after
    /// pool, and within a pool gamer after gamer.
    pub open spec fn team_list_keys(self) -> Seq<(Seq<char>, Seq<char>)> {
        self.team_list_keys_of_first(self.teams.keys.len() as int)
    }

    /// Whether, under each pool, the listed gamers are ascending and are
    /// exactly the gamers that have a team list there.
    pub open spec fn team_lists_ordered(self) -> bool {
        forall|pool_id: Seq<char>| #[trigger]
            self.teams.entries.contains_key(pool_id) ==> self.teams.entries[pool_id].ordered()
    }

    /// The team lists stored under pool `pool_id`, by gamer.
    pub open spec fn lists_in_pool(self, pool_id: Seq<char>) -> Map<Seq<char>, Seq<TeamView>> {
        match self.teams.get(pool_id) {
            Some(gamers) => gamers.entries,
            None => Map::empty(),
        }
    }
}

/// Strict lexicographic order on pairs of keys: the first keys decide, and
/// the second keys where the first are equal.
pub open spec fn pair_lt(a: (Seq<char>, Seq<char>), b: (Seq<char>, Seq<char>)) -> bool {
    key_lt(a.0, b.0) || (a.0 == b.0 && key_lt(a.1, b.1))
}

/// Whether each pair comes strictly before all the pairs after it.
pub open spec fn pairs_ascending(keys: Seq<(Seq<char>, Seq<char>)>) -> bool {
    forall|i: int, j: int|
        0 <= i < j < keys.len() ==> pair_lt(#[trigger] keys[i], #[trigger] keys[j])
}

/// The keys of the team lists of the first `n` pools are ascending when the
/// pools are and, within each of these pools, the gamers are.
proof fn lemma_team_list_keys_ascending(store: StoreView, n: int)
    requires
        0 <= n <= store.teams.keys.len(),
        ascending(store.teams.keys),
        forall|i: int|
            0 <= i < n ==> ascending(store.gamers_in_pool(#[trigger] store.teams.keys[i])),
    ensures
        pairs_ascending(store.team_list_keys_of_first(n)),
        forall|k: int|
            0 <= k < store.team_list_keys_of_first(n).len() ==> exists|i: int|
                0 <= i < n && (#[trigger] store.team_list_keys_of_first(n)[k]).0
                    == store.teams.keys[i],
    decreases n,
{
    let per_pool = store.teams.keys.map_values(
        |pool_id: Seq<char>| store.team_list_keys_in_pool(pool_id),
    );
    if n == 0 {
        assert(per_pool.take(0) =~= Seq::<Seq<(Seq<char>, Seq<char>)>>::empty());
    } else {
        lemma_team_list_keys_ascending(store, n - 1);
        lemma_concat_step(per_pool, n - 1);
        let before = store.team_list_keys_of_first(n - 1);
        let pool_id = store.teams.keys[n - 1];
        let block = store.team_list_keys_in_pool(pool_id);
        let all = store.team_list_keys_of_first(n);
        assert(all == before + block);
        assert(ascending(store.gamers_in_pool(pool_id)));
        assert forall|k: int| 0 <= k < all.len() implies exists|i: int|
            0 <= i < n && (#[trigger] all[k]).0 == store.teams.keys[i] by {
            if k < before.len() {
                assert(all[k] == before[k]);
                let i = choose|i: int| 0 <= i < n - 1 && before[k].0 == store.teams.keys[i];
                assert(0 <= i < n && all[k].0 == store.teams.keys[i]);
            } else {
                assert(all[k] == block[k - before.len()]);
                assert(all[k].0 == store.teams.keys[n - 1]);
            }
        }
        assert forall|a: int, b: int| 0 <= a < b < all.len() implies pair_lt(
            #[trigger] all[a],
            #[trigger] all[b],
        ) by {
            if b < before.len() {
                assert(all[a] == before[a] && all[b] == before[b]);
            } else if a < before.len() {
                assert(all[a] == before[a]);
                assert(all[b] == block[b - before.len()]);
                let i = choose|i: int| 0 <= i < n - 1 && before[a].0 == store.teams.keys[i];
                assert(key_lt(store.teams.keys[i], store.teams.keys[n - 1]));
            } else {
                let gamers = store.gamers_in_pool(pool_id);
                assert(all[a] == block[a - before.len()]);
                assert(all[b] == block[b - before.len()]);
                assert(key_lt(gamers[a - before.len()], gamers[b - before.len()]));
            }
        }
    }
}

/// A snapshot of the record store.
pub struct Store {
    config: Option<Config>,
    fee_wallet: Option<String>,
    pool_types: Table<PoolTypeDetails>,
    pools: Table<PoolDetails>,
    teams: Table<Table<Vec<PoolTeamDetails>>>,
    games: Table<GameDetails>,
    game_results: Table<GameResult>,
    swap_balances: Table<SwapBalanceDetails>,
}

impl View for Store {
    type V = StoreView;

    closed spec fn view(&self) -> StoreView {
        StoreView {
            config: match self.config {
                Some(config) => Some(config@),
                None => None,
            },
            fee_wallet: match self.fee_wallet {
                Some(address) => Some(address@),
                None => None,
            },
            pool_types: self.pool_types@,
            pools: self.pools@,
            teams: self.teams@,
            games: self.games@,
            game_results: self.game_results@,
            swap_balances: self.swap_balances@,
        }
    }
}

impl Store {
    #[verifier::type_invariant]
    spec fn well_formed(&self) -> bool {
        self@.team_lists_ordered()
    }

    /// Shows that the team lists of every pool are ordered. Nothing is
    /// computed: the fact follows from the way a snapshot is built.
    pub fn team_lists_ordered(&self)
        ensures
            self@.team_lists_ordered(),
    {
        proof {
            use_type_invariant(self);
        }
    }

    /// A snapshot without any record.
    pub fn new() -> (r: Store)
        ensures
            r@.config is None,
            r@.fee_wallet is None,
            r@.pool_types.is_empty(),
            r@.pools.is_empty(),
            r@.teams.is_empty(),
            r@.games.is_empty(),
            r@.game_results.is_empty(),
            r@.swap_balances.is_empty(),
    {
        Store {
            config: None,
            fee_wallet: None,
            pool_types: Table::new(),
            pools: Table::new(),
            teams: Table::new(),
            games: Table::new(),
            game_results: Table::new(),
            swap_balances: Table::new(),
        }
    }

    /// The configuration.
    pub fn config(&self) -> (r: Result<&Config, QueryError>)
        ensures
            match r {
                Ok(config) => self@.config == Some(config@),
                Err(e) => self@.config is None && e == QueryError::NotFound(Entity::Config),
            },
    {
        match &self.config {
            Some(config) => Ok(config),
            None => Err(QueryError::NotFound(Entity::Config)),
        }
    }

    /// The address that collects the fees.
    pub fn fee_wallet(&self) -> (r: Result<&String, QueryError>)
        ensures
            match r {
                Ok(address) => self@.fee_wallet == Some(address@),
                Err(e) => self@.fee_wallet is None && e == QueryError::NotFound(
                    Entity::FeeWallet,
                ),
            },
    {
        match &self.fee_wallet {
            Some(address) => Ok(address),
            None => Err(QueryError::NotFound(Entity::FeeWallet)),
        }
    }

    /// The pool types, by name.
    pub fn pool_types(&self) -> (r: &Table<PoolTypeDetails>)
        ensures
            r@ == self@.pool_types,
            self@.pool_types.ordered(),
    {
        self.pool_types.ordered();
        &self.pool_types
    }

    /// The pools, by pool id.
    pub fn pools(&self) -> (r: &Table<PoolDetails>)
        ensures
            r@ == self@.pools,
            self@.pools.ordered(),
    {
        self.pools.ordered();
        &self.pools
    }

    /// The team lists, by pool id and then by gamer address.
    pub fn teams(&self) -> (r: &Table<Table<Vec<PoolTeamDetails>>>)
        ensures
            r@ == self@.teams,
            self@.teams.ordered(),
    {
        self.teams.ordered();
        &self.teams
    }

    /// The games, by game id.
    pub fn games(&self) -> (r: &Table<GameDetails>)
        ensures
            r@ == self@.games,
            self@.games.ordered(),
    {
        self.games.ordered();
        &self.games
    }

    /// The game result templates, by address.
    pub fn game_results(&self) -> (r: &Table<GameResult>)
        ensures
            r@ == self@.game_results,
            self@.game_results.ordered(),
    {
        self.game_results.ordered();
        &self.game_results
    }

    /// The swap balances, by pool id.
    pub fn swap_balances(&self) -> (r: &Table<SwapBalanceDetails>)
        ensures
            r@ == self@.swap_balances,
            self@.swap_balances.ordered(),
    {
        self.swap_balances.ordered();
        &self.swap_balances
    }

    /// The teams that `gamer` has entered into pool `pool_id`, if a list is
    /// stored for that pair.
    pub fn team_list(&self, pool_id: &str, gamer: &str) -> (r: Option<&Vec<PoolTeamDetails>>)
        ensures
            r is Some <==> self@.team_list(pool_id@, gamer@) is Some,
            r matches Some(teams) ==> self@.team_list(pool_id@, gamer@) == Some(
                teams.deep_view(),
            ),
            r is None ==> self@.teams_of(pool_id@, gamer@) == Seq::<TeamView>::empty(),
            r matches Some(teams) ==> self@.teams_of(pool_id@, gamer@) == teams.deep_view(),
    {
        match self.teams.get(pool_id) {
            Some(gamers) => gamers.get(gamer),
            None => None,
        }
    }

    /// The keys of the team lists stored under pool `pool_id`, in ascending
    /// order of the gamer.
    pub fn team_list_keys_in_pool(&self, pool_id: &str) -> (r: Vec<(String, String)>)
        ensures
            r.deep_view() == self@.team_list_keys_in_pool(pool_id@),
            ascending(self@.gamers_in_pool(pool_id@)),
    {
        let mut keys: Vec<(String, String)> = Vec::new();
        match self.teams.get(pool_id) {
            Some(gamers) => {
                let mut i: usize = 0;
                while i < gamers.len()
                    invariant
                        i <= gamers@.keys.len(),
                        keys.len() == i,
                        forall|j: int|
                            0 <= j < i ==> (#[trigger] keys[j]).0@ == pool_id@ && keys[j].1@
                                == gamers@.keys[j],
                    decreases gamers@.keys.len() - i,
                {
                    keys.push((pool_id.to_owned(), gamers.key(i).clone()));
                    i += 1;
                }
            },
            None => {},
        }
        assert(keys.deep_view() =~= self@.team_list_keys_in_pool(pool_id@));
        keys
    }

    /// The keys of all team lists, in ascending order of the pair of pool and
    /// gamer.
    pub fn team_list_keys(&self) -> (r: Vec<(String, String)>)
        ensures
            r.deep_view() == self@.team_list_keys(),
            pairs_ascending(self@.team_list_keys()),
    {
        let ghost per_pool = self@.teams.keys.map_values(
            |pool_id: Seq<char>| self@.team_list_keys_in_pool(pool_id),
        );
        let pools: usize = self.teams.len();
        let mut keys: Vec<(String, String)> = Vec::new();
        let mut i: usize = 0;
        assert(per_pool.take(0) =~= Seq::<Seq<(Seq<char>, Seq<char>)>>::empty());
        assert(keys.deep_view() =~= Seq::<(Seq<char>, Seq<char>)>::empty());
        while i < pools
            invariant
                i <= pools == self.teams@.keys.len(),
                self.teams@ == self@.teams,
                self@.teams.ordered(),
                per_pool == self@.teams.keys.map_values(
                    |pool_id: Seq<char>| self@.team_list_keys_in_pool(pool_id),
                ),
                keys.deep_view() == concat(per_pool.take(i as int)),
                forall|j: int|
                    0 <= j < i ==> ascending(
                        self@.gamers_in_pool(#[trigger] self@.teams.keys[j]),
                    ),
            decreases self.teams@.keys.len() - i,
        {
            proof {
                lemma_concat_step(per_pool, i as int);
            }
            let ghost so_far = keys.deep_view();
            let mut in_pool = self.team_list_keys_in_pool(self.teams.key(i).as_str());
            let ghost added = in_pool.deep_view();
            keys.append(&mut in_pool);
            assert(keys.deep_view() =~= so_far + added);
            i += 1;
        }
        proof {
            lemma_team_list_keys_ascending(self@, i as int);
        }
        keys
    }

    /// Sets the configuration.
    pub fn set_config(&mut self, config: Config)
        ensures
            final(self)@ == (StoreView { config: Some(config@), ..old(self)@ }),
    {
        proof {
            use_type_invariant(&*self);
        }
        self.config = Some(config);
    }

    /// Sets the address that collects the fees.
    pub fn set_fee_wallet(&mut self, address: String)
        ensures
            final(self)@ == (StoreView { fee_wallet: Some(address@), ..old(self)@ }),
    {
        proof {
            use_type_invariant(&*self);
        }
        self.fee_wallet = Some(address);
    }

    /// Files a pool type under `key`.
    pub fn save_pool_type(&mut self, key: String, details: PoolTypeDetails)
        ensures
            final(self)@ == (StoreView { pool_types: final(self)@.pool_types, ..old(self)@ }),
            final(self)@.pool_types.entries == old(self)@.pool_types.entries.insert(
                key@,
                details@,
            ),
            final(self)@.pool_types.ordered(),
    {
        proof {
            use_type_invariant(&*self);
        }
        let mut pool_types = Table::new();
        core::mem::swap(&mut self.pool_types, &mut pool_types);
        pool_types.insert(key, details);
        core::mem::swap(&mut self.pool_types, &mut pool_types);
    }

    /// Files a pool under `key`.
    pub fn save_pool(&mut self, key: String, details: PoolDetails)
        ensures
            final(self)@ == (StoreView { pools: final(self)@.pools, ..old(self)@ }),
            final(self)@.pools.entries == old(self)@.pools.entries.insert(key@, details@),
            final(self)@.pools.ordered(),
    {
        proof {
            use_type_invariant(&*self);
        }
        let mut pools = Table::new();
        core::mem::swap(&mut self.pools, &mut pools);
        pools.insert(key, details);
        core::mem::swap(&mut self.pools, &mut pools);
    }

    /// Files the list of teams that `gamer` has entered into pool `pool_id`.
    pub fn save_team_list(&mut self, pool_id: String, gamer: String, teams: Vec<PoolTeamDetails>)
        ensures
            final(self)@ == (StoreView { teams: final(self)@.teams, ..old(self)@ }),
            final(self)@.teams.entries == old(self)@.teams.entries.insert(
                pool_id@,
                final(self)@.teams.entries[pool_id@],
            ),
            final(self)@.lists_in_pool(pool_id@) == old(self)@.lists_in_pool(pool_id@).insert(
                gamer@,
                teams.deep_view(),
            ),
            final(self)@.teams.ordered(),
            final(self)@.teams.entries[pool_id@].ordered(),
    {
        proof {
            use_type_invariant(&*self);
        }
        let mut lists = Table::new();
        core::mem::swap(&mut self.teams, &mut lists);
        let mut gamers = match lists.remove(pool_id.as_str()) {
            Some(gamers) => gamers,
            None => Table::new(),
        };
        gamers.insert(gamer, teams);
        lists.insert(pool_id, gamers);
        proof {
            assert(lists@.entries =~= old(self)@.teams.entries.insert(
                pool_id@,
                lists@.entries[pool_id@],
            ));
        }
        core::mem::swap(&mut self.teams, &mut lists);
    }

    /// Files a game under `key`.
    pub fn save_game(&mut self, key: String, details: GameDetails)
        ensures
            final(self)@ == (StoreView { games: final(self)@.games, ..old(self)@ }),
            final(self)@.games.entries == old(self)@.games.entries.insert(key@, details@),
            final(self)@.games.ordered(),
    {
        proof {
            use_type_invariant(&*self);
        }
        let mut games = Table::new();
        core::mem::swap(&mut self.games, &mut games);
        games.insert(key, details);
        core::mem::swap(&mut self.games, &mut games);
    }

    /// Files a game result template under `address`.
    pub fn save_game_result(&mut self, address: String, template: GameResult)
        ensures
            final(self)@ == (StoreView { game_results: final(self)@.game_results, ..old(self)@ }),
            final(self)@.game_results.entries == old(self)@.game_results.entries.insert(
                address@,
                template@,
            ),
            final(self)@.game_results.ordered(),
    {
        proof {
            use_type_invariant(&*self);
        }
        let mut game_results = Table::new();
        core::mem::swap(&mut self.game_results, &mut game_results);
        game_results.insert(address, template);
        core::mem::swap(&mut self.game_results, &mut game_results);
    }

    /// Files a swap balance under `pool_id`.
    pub fn save_swap_balance(&mut self, pool_id: String, balance: SwapBalanceDetails)
        ensures
            final(self)@ == (StoreView { swap_balances: final(self)@.swap_balances, ..old(self)@ }),
            final(self)@.swap_balances.entries == old(self)@.swap_balances.entries.insert(
                pool_id@,
                balance,
            ),
            final(self)@.swap_balances.ordered(),
    {
        proof {
            use_type_invariant(&*self);
        }
        let mut swap_balances = Table::new();
        core::mem::swap(&mut self.swap_balances, &mut swap_balances);
        swap_balances.insert(pool_id, balance);
        core::mem::swap(&mut self.swap_balances, &mut swap_balances);
    }
}

} // verus!
