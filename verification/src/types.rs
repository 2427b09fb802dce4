//! Bets, markets and the keys they are kept under.
use vstd::prelude::*;

use crate::host::{IdList, IdMap};
use crate::math::saturating_sub;
use crate::table::Key;

verus! {

/// A market identifier.
#[derive(Clone, Copy, Debug, PartialEq, Eq, Structural)]
pub struct Symbol {
    pub id: u64,
}

/// An account or a contract.
#[derive(Clone, Copy, Debug, PartialEq, Eq, Structural)]
pub struct Address {
    pub id: u64,
}

/// An outcome that a market can end in.
#[derive(Clone, Copy, Debug, PartialEq, Eq, Structural)]
pub struct Outcome {
    pub id: u64,
}

/// The token that makes a batch of bets unique: 32 bytes, as two big-endian
/// halves.
#[derive(Clone, Copy, Debug, PartialEq, Eq, Structural)]
pub struct BatchToken {
    pub high: u128,
    pub low: u128,
}

/// The least and the most that may be bet.
#[derive(Clone, Copy, Debug, PartialEq, Eq, Structural)]
pub struct BetLimits {
    pub min_bet: i128,
    pub max_bet: i128,
}

/// Where a bet stands.
#[derive(Clone, Copy, Debug, PartialEq, Eq, Structural)]
pub enum BetStatus {
    Active,
    Won,
    Lost,
    Refunded,
    Cancelled,
}

/// The name under which a status is published.
pub open spec fn status_name(status: BetStatus) -> Seq<char> {
    match status {
        BetStatus::Active => "Active"@,
        BetStatus::Won => "Won"@,
        BetStatus::Lost => "Lost"@,
        BetStatus::Refunded => "Refunded"@,
        BetStatus::Cancelled => "Cancelled"@,
    }
}

impl BetStatus {
    /// The name under which the status is published.
    pub fn name(&self) -> (r: &'static str)
        ensures
            r@ == status_name(*self),
    {
        match self {
            BetStatus::Active => "Active",
            BetStatus::Won => "Won",
            BetStatus::Lost => "Lost",
            BetStatus::Refunded => "Refunded",
            BetStatus::Cancelled => "Cancelled",
        }
    }
}

/// One user's bet on one market.
#[derive(Clone, Copy, Debug, PartialEq, Eq, Structural)]
pub struct Bet {
    pub user: Address,
    pub market_id: Symbol,
    pub outcome: Outcome,
    pub amount: i128,
    pub timestamp: u64,
    pub status: BetStatus,
}

impl Bet {
    /// A fresh bet, made at `timestamp`.
    pub fn new(
        user: Address,
        market_id: Symbol,
        outcome: Outcome,
        amount: i128,
        timestamp: u64,
    ) -> (bet: Bet)
        ensures
            bet == (Bet {
                user,
                market_id,
                outcome,
                amount,
                timestamp,
                status: BetStatus::Active,
            }),
    {
        Bet { user, market_id, outcome, amount, timestamp, status: BetStatus::Active }
    }

    /// The bet with another status.
    pub open spec fn with_status(self, status: BetStatus) -> Bet {
        Bet { status, ..self }
    }

    /// The key that the bet is kept under.
    pub open spec fn key(self) -> BetKey {
        BetKey { market_id: self.market_id, user: self.user }
    }

    /// Whether the bet is still open.
    pub fn is_active(&self) -> (r: bool)
        ensures
            r == (self.status == BetStatus::Active),
    {
        self.status == BetStatus::Active
    }

    /// Whether the bet was won or lost.
    pub fn is_resolved(&self) -> (r: bool)
        ensures
            r == (self.status == BetStatus::Won || self.status == BetStatus::Lost),
    {
        self.status == BetStatus::Won || self.status == BetStatus::Lost
    }

    /// Whether the bet was won.
    pub fn is_winner(&self) -> (r: bool)
        ensures
            r == (self.status == BetStatus::Won),
    {
        self.status == BetStatus::Won
    }

    /// Marks the bet as won.
    pub fn mark_as_won(&mut self)
        ensures
            *final(self) == old(self).with_status(BetStatus::Won),
    {
        self.status = BetStatus::Won;
    }

    /// Marks the bet as lost.
    pub fn mark_as_lost(&mut self)
        ensures
            *final(self) == old(self).with_status(BetStatus::Lost),
    {
        self.status = BetStatus::Lost;
    }

    /// Marks the bet as refunded.
    pub fn mark_as_refunded(&mut self)
        ensures
            *final(self) == old(self).with_status(BetStatus::Refunded),
    {
        self.status = BetStatus::Refunded;
    }
}

/// The key of a user's bet on a market.
#[derive(Clone, Copy, Debug, PartialEq, Eq, Structural)]
pub struct BetKey {
    pub market_id: Symbol,
    pub user: Address,
}

/// The key of a market's betting statistics.
#[derive(Clone, Copy, Debug, PartialEq, Eq, Structural)]
pub struct MarketBetsKey {
    pub market_id: Symbol,
}

/// The mark that tells a registry key from the other keys of a market.
#[derive(Clone, Copy, Debug, PartialEq, Eq, Structural)]
pub enum KeyTag {
    Registry,
}

/// The key of a market's list of bettors.
#[derive(Clone, Copy, Debug, PartialEq, Eq, Structural)]
pub struct BetRegistryKey {
    pub tag: KeyTag,
    pub market_id: Symbol,
}

/// The key of a user's cumulative stake on a market.
#[derive(Clone, Copy, Debug, PartialEq, Eq, Structural)]
pub struct UserStakeKey {
    pub user: Address,
    pub market_id: Symbol,
}

/// The key that marks a batch of bets as placed.
#[derive(Clone, Copy, Debug, PartialEq, Eq, Structural)]
pub struct BatchKey {
    pub user: Address,
    pub token: BatchToken,
}

impl Key for Symbol {
    fn same(&self, other: &Symbol) -> (r: bool) {
        *self == *other
    }
}

impl Key for Address {
    fn same(&self, other: &Address) -> (r: bool) {
        *self == *other
    }
}

impl Key for BetKey {
    fn same(&self, other: &BetKey) -> (r: bool) {
        *self == *other
    }
}

impl Key for MarketBetsKey {
    fn same(&self, other: &MarketBetsKey) -> (r: bool) {
        *self == *other
    }
}

impl Key for BetRegistryKey {
    fn same(&self, other: &BetRegistryKey) -> (r: bool) {
        *self == *other
    }
}

impl Key for UserStakeKey {
    fn same(&self, other: &UserStakeKey) -> (r: bool) {
        *self == *other
    }
}

impl Key for BatchKey {
    fn same(&self, other: &BatchKey) -> (r: bool) {
        *self == *other
    }
}

/// What has been bet on a market, in all and by outcome.
pub struct BetStats {
    pub total_bets: u32,
    pub total_amount_locked: i128,
    pub unique_bettors: u32,
    pub outcome_totals: IdMap,
}

/// The mathematical value of a [`BetStats`].
#[verifier::ext_equal]
pub struct BetStatsView {
    pub total_bets: u32,
    pub total_amount_locked: i128,
    pub unique_bettors: u32,
    pub outcome_totals: Map<u64, i128>,
}

impl View for BetStats {
    type V = BetStatsView;

    open spec fn view(&self) -> BetStatsView {
        BetStatsView {
            total_bets: self.total_bets,
            total_amount_locked: self.total_amount_locked,
            unique_bettors: self.unique_bettors,
            outcome_totals: self.outcome_totals@,
        }
    }
}

impl BetStats {
    /// Statistics without a bet.
    pub fn empty(env: &soroban_sdk::Env) -> (s: BetStats)
        ensures
            s@ == BetStatsView::empty(),
    {
        BetStats {
            total_bets: 0,
            total_amount_locked: 0,
            unique_bettors: 0,
            outcome_totals: IdMap::new(env),
        }
    }

    /// A second record with the same contents.
    pub fn copy(&self) -> (s: BetStats)
        ensures
            s@ == self@,
    {
        BetStats {
            total_bets: self.total_bets,
            total_amount_locked: self.total_amount_locked,
            unique_bettors: self.unique_bettors,
            outcome_totals: self.outcome_totals.copy(),
        }
    }
}

impl BetStatsView {
    /// Statistics without a bet.
    pub open spec fn empty() -> BetStatsView {
        BetStatsView {
            total_bets: 0,
            total_amount_locked: 0,
            unique_bettors: 0,
            outcome_totals: Map::empty(),
        }
    }

    /// The amount bet on `outcome`.
    pub open spec fn outcome_total(self, outcome: Outcome) -> i128 {
        if self.outcome_totals.contains_key(outcome.id) {
            self.outcome_totals[outcome.id]
        } else {
            0
        }
    }
}

/// The stage that a market is in.
#[derive(Clone, Copy, Debug, PartialEq, Eq, Structural)]
pub enum MarketState {
    Active,
    Ended,
    Disputed,
    Resolved,
    Closed,
    Cancelled,
}

/// What betting reads and writes of a market. The votes are kept by user, each
/// as the identifier of the outcome.
pub struct Market {
    pub outcomes: IdList,
    pub end_time: u64,
    pub bet_deadline: u64,
    pub min_pool_size: Option<i128>,
    pub state: MarketState,
    pub winning_outcomes: Option<IdList>,
    pub total_staked: i128,
    pub votes: IdMap,
    pub stakes: IdMap,
}

/// The mathematical value of a [`Market`].
#[verifier::ext_equal]
pub struct MarketView {
    pub outcomes: Seq<u64>,
    pub end_time: u64,
    pub bet_deadline: u64,
    pub min_pool_size: Option<i128>,
    pub state: MarketState,
    pub winning_outcomes: Option<Seq<u64>>,
    pub total_staked: i128,
    pub votes: Map<u64, i128>,
    pub stakes: Map<u64, i128>,
}

impl View for Market {
    type V = MarketView;

    open spec fn view(&self) -> MarketView {
        MarketView {
            outcomes: self.outcomes@,
            end_time: self.end_time,
            bet_deadline: self.bet_deadline,
            min_pool_size: self.min_pool_size,
            state: self.state,
            winning_outcomes: match self.winning_outcomes {
                Some(l) => Some(l@),
                None => None,
            },
            total_staked: self.total_staked,
            votes: self.votes@,
            stakes: self.stakes@,
        }
    }
}

impl MarketView {
    /// The market once `user` has staked `amount` on `outcome`, which brings
    /// the total to `total`.
    pub open spec fn staked(
        self,
        user: Address,
        outcome: Outcome,
        amount: i128,
        total: i128,
    ) -> MarketView {
        MarketView {
            total_staked: total,
            votes: self.votes.insert(user.id, outcome.id as i128),
            stakes: self.stakes.insert(user.id, amount),
            ..self
        }
    }

    /// Whether the market has room for a vote and a stake of `user`.
    pub open spec fn takes(self, user: Address) -> bool {
        crate::host::has_room(self.votes, user.id) && crate::host::has_room(self.stakes, user.id)
    }

    /// The market once the stake of `user`, of `amount`, has been taken back.
    pub open spec fn unstaked(self, user: Address, amount: i128) -> MarketView {
        MarketView {
            total_staked: crate::math::clamp(self.total_staked - amount),
            votes: self.votes.remove(user.id),
            stakes: self.stakes.remove(user.id),
            ..self
        }
    }
}

impl Market {
    /// A market on which nothing has been staked, without a betting deadline of
    /// its own.
    pub fn new(
        env: &soroban_sdk::Env,
        outcomes: IdList,
        end_time: u64,
        state: MarketState,
    ) -> (m: Market)
        ensures
            m@ == (MarketView {
                outcomes: outcomes@,
                end_time,
                bet_deadline: 0,
                min_pool_size: None,
                state,
                winning_outcomes: None,
                total_staked: 0,
                votes: Map::empty(),
                stakes: Map::empty(),
            }),
    {
        Market {
            outcomes,
            end_time,
            bet_deadline: 0,
            min_pool_size: None,
            state,
            winning_outcomes: None,
            total_staked: 0,
            votes: IdMap::new(env),
            stakes: IdMap::new(env),
        }
    }

    /// A second record with the same contents.
    pub fn copy(&self) -> (m: Market)
        ensures
            m@ == self@,
    {
        Market {
            outcomes: self.outcomes.copy(),
            end_time: self.end_time,
            bet_deadline: self.bet_deadline,
            min_pool_size: self.min_pool_size,
            state: self.state,
            winning_outcomes: match &self.winning_outcomes {
                Some(l) => Some(l.copy()),
                None => None,
            },
            total_staked: self.total_staked,
            votes: self.votes.copy(),
            stakes: self.stakes.copy(),
        }
    }

    /// The market once `user` has staked `amount` on `outcome`, which brings
    /// the total to `total`, or `None` where there is no room for the stake.
    pub fn staked(&self, user: Address, outcome: Outcome, amount: i128, total: i128) -> (r: Option<
        Market,
    >)
        ensures
            r is Some <==> self@.takes(user),
            r matches Some(m) ==> m@ == self@.staked(user, outcome, amount, total),
    {
        let votes = match self.votes.with(user.id, outcome.id as i128) {
            Some(votes) => votes,
            None => {
                return None;
            },
        };
        let stakes = match self.stakes.with(user.id, amount) {
            Some(stakes) => stakes,
            None => {
                return None;
            },
        };
        let mut m = self.copy();
        m.total_staked = total;
        m.votes = votes;
        m.stakes = stakes;
        Some(m)
    }

    /// The market once the stake of `user`, of `amount`, has been taken back.
    pub fn unstaked(&self, user: Address, amount: i128) -> (m: Market)
        ensures
            m@ == self@.unstaked(user, amount),
    {
        let mut m = self.copy();
        m.total_staked = saturating_sub(m.total_staked, amount);
        m.votes = m.votes.without(user.id);
        m.stakes = m.stakes.without(user.id);
        m
    }
}

} // verus!
