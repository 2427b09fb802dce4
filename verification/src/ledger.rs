//! The state that betting reads and writes within one invocation, and the
//! effects that it asks of the host.
use vstd::prelude::*;

use crate::books::Books;
use crate::error::Error;
use crate::host::IdMap;
use crate::limits::EventLimits;
use crate::table::Table;
use crate::types::{
    Address, BatchKey, Bet, BetKey, BetLimits, BetRegistryKey, BetStats, BetStatsView, BetStatus,
    KeyTag, Market, MarketBetsKey, MarketView, Outcome, Symbol, UserStakeKey,
};

verus! {

/// A platform fee as a configuration states it, in basis points.
#[derive(Clone, Copy, Debug, PartialEq, Eq, Structural)]
pub struct FeeSettings {
    pub fees_enabled: bool,
    pub platform_fee_percentage: i128,
}

/// The sections of the contract that must not be entered while they run.
#[derive(Clone, Copy, Debug, PartialEq, Eq, Structural)]
pub enum GuardScope {
    PlaceBet,
    PlaceBets,
    LockFunds,
    UnlockFunds,
}

/// The symbol that a guarded section is locked under.
pub open spec fn scope_name(scope: GuardScope) -> Seq<char> {
    match scope {
        GuardScope::PlaceBet => "place_bet"@,
        GuardScope::PlaceBets => "batch_bet"@,
        GuardScope::LockFunds => "lock_fn"@,
        GuardScope::UnlockFunds => "ulck_fn"@,
    }
}

impl GuardScope {
    /// The symbol that the section is locked under.
    pub fn name(&self) -> (r: &'static str)
        ensures
            r@ == scope_name(*self),
    {
        match self {
            GuardScope::PlaceBet => "place_bet",
            GuardScope::PlaceBets => "batch_bet",
            GuardScope::LockFunds => "lock_fn",
            GuardScope::UnlockFunds => "ulck_fn",
        }
    }
}

/// Which guarded sections are running when the invocation starts.
#[derive(Clone, Copy, Debug, PartialEq, Eq, Structural)]
pub struct Locks {
    pub place_bet: bool,
    pub place_bets: bool,
    pub lock_funds: bool,
    pub unlock_funds: bool,
}

impl Locks {
    /// Whether `scope` is running.
    pub open spec fn held(self, scope: GuardScope) -> bool {
        match scope {
            GuardScope::PlaceBet => self.place_bet,
            GuardScope::PlaceBets => self.place_bets,
            GuardScope::LockFunds => self.lock_funds,
            GuardScope::UnlockFunds => self.unlock_funds,
        }
    }

    /// Refuses to enter a section that is running.
    pub fn enter(&self, scope: GuardScope) -> (r: Result<(), Error>)
        ensures
            r == (if self.held(scope) {
                Err::<(), Error>(Error::InvalidState)
            } else {
                Ok(())
            }),
    {
        let running = match scope {
            GuardScope::PlaceBet => self.place_bet,
            GuardScope::PlaceBets => self.place_bets,
            GuardScope::LockFunds => self.lock_funds,
            GuardScope::UnlockFunds => self.unlock_funds,
        };
        if running {
            Err(Error::InvalidState)
        } else {
            Ok(())
        }
    }
}

/// What the surrounding contract tells betting about an invocation. Betting
/// changes none of it.
#[derive(Clone, Copy, Debug, PartialEq, Eq, Structural)]
pub struct Context {
    /// The time of the ledger that is being closed, in seconds.
    pub timestamp: u64,
    /// The address of the contract itself.
    pub contract: Address,
    /// The token that bets are made in, where one is configured.
    pub token: Option<Address>,
    /// The admin, where one is set.
    pub admin: Option<Address>,
    /// The fee of the runtime configuration, where it can be read.
    pub config: Option<FeeSettings>,
    /// The fee of the fee configuration, where it can be read.
    pub fee_config: Option<FeeSettings>,
    /// The entry under the legacy key `platform_fee`.
    pub platform_fee: Option<i128>,
    /// The entry under the legacy key `plat_fee`.
    pub plat_fee: Option<i128>,
    /// Whether the circuit breaker holds back the placing of bets.
    pub betting_paused: bool,
    /// Whether the circuit breaker holds back the cancelling of bets.
    pub cancelling_paused: bool,
    /// Whether the circuit breaker holds back the settling of bets.
    pub resolving_paused: bool,
    /// Whether the circuit breaker holds back the paying back of bets.
    pub refunding_paused: bool,
    /// The sections that are running.
    pub locks: Locks,
    /// For how many ledgers the entries of a market are kept alive.
    pub market_ttl_ledgers: u32,
}

/// Something betting makes known.
#[derive(Clone, Copy, Debug, PartialEq, Eq, Structural)]
pub enum Event {
    BetPlaced { market_id: Symbol, user: Address, outcome: Outcome, amount: i128 },
    BetStatusUpdated {
        market_id: Symbol,
        user: Address,
        old_status: BetStatus,
        new_status: BetStatus,
        payout: Option<i128>,
    },
    MaxBetCapSet { cap: i128 },
}

/// An entry whose life is extended.
#[derive(Clone, Copy, Debug, PartialEq, Eq, Structural)]
pub enum TtlEntry {
    UserStake { stake: UserStakeKey },
    MaxBetCap,
    Batch { batch: BatchKey },
}

/// Something that only the host can do. The host performs the effects of an
/// invocation in order and, where one of them fails, undoes the invocation.
#[derive(Clone, Copy, Debug, PartialEq, Eq, Structural)]
pub enum Effect {
    /// Demand that `address` has authorised the invocation.
    RequireAuth { address: Address },
    /// Move `amount` of the token.
    Transfer { from: Address, to: Address, amount: i128 },
    /// Keep an entry alive for `ledgers` more ledgers.
    ExtendTtl { entry: TtlEntry, ledgers: u32 },
    /// Publish an event.
    Publish { event: Event },
}

/// What a resolved market pays out, as the resolution summed it up.
#[derive(Clone, Copy, Debug, PartialEq, Eq, Structural)]
pub struct ResolutionSummary {
    pub num_winning_outcomes: u32,
    pub total_pool: i128,
}

/// The ledger entries of an invocation, and the effects asked for so far.
pub struct Ledger {
    /// The host that keeps the maps and lists.
    pub host: soroban_sdk::Env,
    pub context: Context,
    /// How many more bets this ledger takes; `None` where there is no cap.
    pub bets_left: Option<u32>,
    /// Balances of the token; an account without an entry holds nothing.
    pub balances: Table<Address, i128>,
    pub global_limits: Option<BetLimits>,
    /// The least and the most that may be bet, by market.
    pub event_limits: EventLimits,
    /// The most that a single bet may be, by market.
    pub market_caps: IdMap,
    /// The most that one user may stake on one market.
    pub max_bet_cap: Option<i128>,
    pub books: Books,
    pub stats: Table<MarketBetsKey, BetStats>,
    pub markets: Table<Symbol, Market>,
    pub user_stakes: Table<UserStakeKey, i128>,
    pub batches: Table<BatchKey, bool>,
    pub resolutions: Table<Symbol, ResolutionSummary>,
    pub effects: Vec<Effect>,
}

/// The mathematical value of a [`Ledger`].
#[verifier::ext_equal]
pub struct LedgerView {
    pub context: Context,
    pub bets_left: Option<u32>,
    pub balances: Map<Address, i128>,
    pub global_limits: Option<BetLimits>,
    pub event_limits: Map<u64, BetLimits>,
    pub market_caps: Map<u64, i128>,
    pub max_bet_cap: Option<i128>,
    pub bets: Map<BetKey, Bet>,
    pub registries: Map<BetRegistryKey, Seq<u64>>,
    pub stats: Map<MarketBetsKey, BetStatsView>,
    pub markets: Map<Symbol, MarketView>,
    pub user_stakes: Map<UserStakeKey, i128>,
    pub batches: Map<BatchKey, bool>,
    pub resolutions: Map<Symbol, ResolutionSummary>,
    pub effects: Seq<Effect>,
}

impl View for Ledger {
    type V = LedgerView;

    open spec fn view(&self) -> LedgerView {
        LedgerView {
            context: self.context,
            bets_left: self.bets_left,
            balances: self.balances@,
            global_limits: self.global_limits,
            event_limits: self.event_limits@,
            market_caps: self.market_caps@,
            max_bet_cap: self.max_bet_cap,
            bets: self.books@.bets,
            registries: self.books@.registries,
            stats: crate::table::views(self.stats@),
            markets: crate::table::views(self.markets@),
            user_stakes: self.user_stakes@,
            batches: self.batches@,
            resolutions: self.resolutions@,
            effects: self.effects@,
        }
    }
}

/// The key of the bet of `user` on `market_id`.
pub open spec fn bet_key(market_id: Symbol, user: Address) -> BetKey {
    BetKey { market_id, user }
}

/// The key of the bettors of `market_id`.
pub open spec fn registry_key(market_id: Symbol) -> BetRegistryKey {
    BetRegistryKey { tag: KeyTag::Registry, market_id }
}

/// The key of the statistics of `market_id`.
pub open spec fn stats_key(market_id: Symbol) -> MarketBetsKey {
    MarketBetsKey { market_id }
}

/// The key of the stake of `user` on `market_id`.
pub open spec fn stake_key(market_id: Symbol, user: Address) -> UserStakeKey {
    UserStakeKey { user, market_id }
}

impl LedgerView {
    /// The bet of `user` on `market_id`, if there is one.
    pub open spec fn bet(self, market_id: Symbol, user: Address) -> Option<Bet> {
        crate::host::lookup(self.bets, bet_key(market_id, user))
    }

    /// The bettors of `market_id`, in the order of their first bets.
    pub open spec fn registry(self, market_id: Symbol) -> Seq<u64> {
        crate::books::registry_in(self.registries, market_id)
    }

    /// The betting statistics of `market_id`.
    pub open spec fn market_stats(self, market_id: Symbol) -> BetStatsView {
        if self.stats.contains_key(stats_key(market_id)) {
            self.stats[stats_key(market_id)]
        } else {
            BetStatsView::empty()
        }
    }

    /// What `user` has staked on `market_id` over time.
    pub open spec fn user_stake(self, market_id: Symbol, user: Address) -> i128 {
        if self.user_stakes.contains_key(stake_key(market_id, user)) {
            self.user_stakes[stake_key(market_id, user)]
        } else {
            0
        }
    }

    /// What `who` holds of the token.
    pub open spec fn balance(self, who: Address) -> i128 {
        balance_in(self.balances, who)
    }

    /// The ledger with one more effect asked for.
    pub open spec fn asking(self, effect: Effect) -> LedgerView {
        LedgerView { effects: self.effects.push(effect), ..self }
    }

    /// That the bets and the lists of bettors fit together.
    pub open spec fn books_in_order(self) -> bool {
        crate::books::in_order(self.bets, self.registries)
    }

    /// That every limit on single bets lies within the absolute bounds.
    pub open spec fn limits_in_bounds(self) -> bool {
        forall|m: Symbol|
            crate::limits::limits_check(#[trigger] self.effective_limits(m)) is Ok
    }

    /// What every operation keeps.
    pub open spec fn well_formed(self) -> bool {
        &&& self.books_in_order()
        &&& self.limits_in_bounds()
    }
}

/// What `who` holds according to `balances`.
pub open spec fn balance_in(balances: Map<Address, i128>, who: Address) -> i128 {
    if balances.contains_key(who) {
        balances[who]
    } else {
        0
    }
}

impl Ledger {
    /// A ledger without entries.
    pub fn new(host: soroban_sdk::Env, context: Context) -> (l: Ledger)
        ensures
            l@ == (LedgerView {
                context,
                bets_left: None,
                balances: Map::empty(),
                global_limits: None,
                event_limits: Map::empty(),
                market_caps: Map::empty(),
                max_bet_cap: None,
                bets: Map::empty(),
                registries: Map::empty(),
                stats: Map::empty(),
                markets: Map::empty(),
                user_stakes: Map::empty(),
                batches: Map::empty(),
                resolutions: Map::empty(),
                effects: Seq::empty(),
            }),
            l@.well_formed(),
    {
        let event_limits = EventLimits::new(&host);
        let market_caps = IdMap::new(&host);
        let l = Ledger {
            host,
            context,
            bets_left: None,
            balances: Table::new(),
            global_limits: None,
            event_limits,
            market_caps,
            max_bet_cap: None,
            books: Books::new(),
            stats: Table::new(),
            markets: Table::new(),
            user_stakes: Table::new(),
            batches: Table::new(),
            resolutions: Table::new(),
            effects: Vec::new(),
        };
        proof {
            assert(l@.stats =~= Map::empty());
            assert(l@.markets =~= Map::empty());
        }
        l
    }

    /// The market `market_id`, if it exists.
    pub fn market(&self, market_id: &Symbol) -> (r: Result<&Market, Error>)
        ensures
            match r {
                Ok(m) => self@.markets.contains_key(*market_id) && self@.markets[*market_id] == m@,
                Err(e) => !self@.markets.contains_key(*market_id) && e == Error::MarketNotFound,
            },
    {
        match self.markets.get(market_id) {
            Some(m) => Ok(m),
            None => Err(Error::MarketNotFound),
        }
    }

    /// What `who` holds of the token.
    pub fn balance(&self, who: &Address) -> (r: i128)
        ensures
            r == self@.balance(*who),
    {
        read_balance(&self.balances, who)
    }

    /// Writes a market.
    pub fn put_market(&mut self, market_id: Symbol, market: Market)
        ensures
            final(self)@ == (LedgerView {
                markets: old(self)@.markets.insert(market_id, market@),
                ..old(self)@
            }),
            old(self)@.well_formed() ==> final(self)@.well_formed(),
    {
        proof {
            crate::table::lemma_views_insert(self.markets@, market_id, market);
            if self@.well_formed() {
                let markets = self@.markets.insert(market_id, market@);
                crate::bookkeeping::lemma_same_books(self@, LedgerView { markets, ..self@ });
            }
        }
        self.markets.set(market_id, market);
    }

    /// Writes the statistics of a market.
    pub fn put_stats(&mut self, market_id: Symbol, stats: BetStats)
        ensures
            final(self)@ == (LedgerView {
                stats: old(self)@.stats.insert(stats_key(market_id), stats@),
                ..old(self)@
            }),
            old(self)@.well_formed() ==> final(self)@.well_formed(),
    {
        proof {
            crate::table::lemma_views_insert(self.stats@, stats_key(market_id), stats);
            if self@.well_formed() {
                crate::bookkeeping::lemma_same_books(self@, self@.with_stats(market_id, stats@));
            }
        }
        self.stats.set(MarketBetsKey { market_id }, stats);
    }

    /// Asks the host for an effect.
    pub fn ask(&mut self, effect: Effect)
        ensures
            final(self)@ == old(self)@.asking(effect),
            old(self)@.well_formed() ==> final(self)@.well_formed(),
    {
        proof {
            if self@.well_formed() {
                crate::bookkeeping::lemma_same_books(self@, self@.asking(effect));
            }
        }
        self.effects.push(effect);
    }
}

/// What `who` holds according to `balances`.
pub fn read_balance(balances: &Table<Address, i128>, who: &Address) -> (r: i128)
    ensures
        r == balance_in(balances@, *who),
{
    match balances.get(who) {
        Some(held) => *held,
        None => 0,
    }
}

} // verus!
