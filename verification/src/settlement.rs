//! Settling the bets on a market: marking winners and losers, and paying back
//! when the market is called off.
use vstd::prelude::*;

use crate::error::Error;
use crate::funds::{move_balance, BetUtils};
use crate::host::IdList;
use crate::ledger::{Effect, Event, GuardScope, Ledger, LedgerView};
use crate::manager::BetManager;
use crate::storage::BetStorage;
use crate::types::{Address, Bet, BetKey, BetStatus, Symbol};

verus! {

impl Bet {
    /// The bet once the market has ended in `winners`.
    pub open spec fn settled(self, winners: Seq<u64>) -> Bet {
        if winners.contains(self.outcome.id) {
            self.with_status(BetStatus::Won)
        } else {
            self.with_status(BetStatus::Lost)
        }
    }
}

impl LedgerView {
    /// The effects asked for once the bets of the first `n` bettors of
    /// `market_id` have been settled: one event for each bet whose status
    /// changes.
    pub open spec fn resolution_effects(
        self,
        market_id: Symbol,
        winners: Seq<u64>,
        n: int,
    ) -> Seq<Effect>
        decreases n,
    {
        if n <= 0 {
            self.effects
        } else {
            let so_far = self.resolution_effects(market_id, winners, n - 1);
            let user = Address { id: self.registry(market_id)[n - 1] };
            match self.bet(market_id, user) {
                Some(bet) => if bet.settled(winners).status == bet.status {
                    so_far
                } else {
                    so_far.push(
                        Effect::Publish {
                            event: Event::BetStatusUpdated {
                                market_id,
                                user: bet.user,
                                old_status: bet.status,
                                new_status: bet.settled(winners).status,
                                payout: None,
                            },
                        },
                    )
                },
                None => so_far,
            }
        }
    }

    /// The bets, with those on `market_id` that `chosen` picks settled.
    pub open spec fn bets_settled(
        self,
        market_id: Symbol,
        winners: Seq<u64>,
        chosen: spec_fn(u64) -> bool,
    ) -> Map<BetKey, Bet> {
        Map::new(
            |k: BetKey| self.bets.contains_key(k),
            |k: BetKey|
                if k.market_id == market_id && chosen(k.user.id) {
                    self.bets[k].settled(winners)
                } else {
                    self.bets[k]
                },
        )
    }

    /// The ledger once every bet on `market_id` has been settled.
    pub open spec fn resolving(self, market_id: Symbol, winners: Seq<u64>) -> LedgerView {
        LedgerView {
            bets: self.bets_settled(market_id, winners, |id: u64| true),
            effects: self.resolution_effects(
                market_id,
                winners,
                self.registry(market_id).len() as int,
            ),
            ..self
        }
    }

    /// The ledger after a call of `resolve_market_bets`, or the error that it
    /// gives.
    pub open spec fn settling(self, market_id: Symbol, winners: Seq<u64>) -> Result<
        LedgerView,
        Error,
    > {
        if self.context.resolving_paused {
            Err(Error::CircuitBreakerOpen)
        } else {
            Ok(self.resolving(market_id, winners))
        }
    }

    /// The ledger once the bet of the bettor `id` on `market_id` has been paid
    /// back, where it is active.
    pub open spec fn refund_step(self, market_id: Symbol, id: u64) -> Result<LedgerView, Error> {
        match self.bet(market_id, Address { id }) {
            Some(bet) => if bet.status == BetStatus::Active {
                match self.unlocking(bet.user, bet.amount) {
                    Ok(balances) => Ok(
                        LedgerView {
                            balances,
                            bets: self.bets.insert(
                                bet.key(),
                                bet.with_status(BetStatus::Refunded),
                            ),
                            markets: self.markets.insert(
                                market_id,
                                self.markets[market_id].unstaked(bet.user, bet.amount),
                            ),
                            effects: self.effects + seq![
                                Effect::Transfer {
                                    from: self.context.contract,
                                    to: bet.user,
                                    amount: bet.amount,
                                },
                                Effect::Publish {
                                    event: crate::cancellation::paid_back(
                                        market_id,
                                        bet.user,
                                        BetStatus::Refunded,
                                        bet.amount,
                                    ),
                                },
                            ],
                            ..self
                        },
                    ),
                    Err(e) => Err(e),
                }
            } else {
                Ok(self)
            },
            None => Ok(self),
        }
    }

    /// The ledger once the first `n` of `bettors` have been paid back.
    pub open spec fn refund_steps(self, market_id: Symbol, bettors: Seq<u64>, n: int) -> Result<
        LedgerView,
        Error,
    >
        decreases n,
    {
        if n <= 0 {
            Ok(self)
        } else {
            match self.refund_steps(market_id, bettors, n - 1) {
                Ok(next) => next.refund_step(market_id, bettors[n - 1]),
                Err(e) => Err(e),
            }
        }
    }

    /// The ledger after a call of `refund_market_bets`, or the error that it
    /// gives.
    pub open spec fn refunding(self, market_id: Symbol) -> Result<LedgerView, Error> {
        let bettors = self.registry(market_id);
        if self.context.refunding_paused {
            Err(Error::CircuitBreakerOpen)
        } else if !self.markets.contains_key(market_id) {
            Err(Error::MarketNotFound)
        } else {
            self.refund_steps(market_id, bettors, bettors.len() as int)
        }
    }
}

/// Taking one more item of a list without repeats adds just that item.
pub proof fn lemma_take_one_more(items: Seq<u64>, n: int)
    requires
        items.no_duplicates(),
        0 <= n < items.len(),
    ensures
        items.contains(items[n]),
        !items.take(n).contains(items[n]),
        forall|x: u64| #[trigger]
            items.take(n + 1).contains(x) == (items.take(n).contains(x) || x == items[n]),
{
    let shorter = items.take(n);
    let longer = items.take(n + 1);
    if shorter.contains(items[n]) {
        let j = choose|j: int| 0 <= j < shorter.len() && #[trigger] shorter[j] == items[n];
        assert(items[j] == items[n]);
    }
    assert forall|x: u64| #[trigger] longer.contains(x) == (shorter.contains(x) || x
        == items[n]) by {
        if shorter.contains(x) {
            let j = choose|j: int| 0 <= j < shorter.len() && #[trigger] shorter[j] == x;
            assert(longer[j] == x);
        }
        if x == items[n] {
            assert(longer[n] == x);
        }
        if longer.contains(x) {
            let j = choose|j: int| 0 <= j < longer.len() && #[trigger] longer[j] == x;
            if j < n {
                assert(shorter[j] == x);
            }
        }
    }
}

/// What paying back the first `n` bettors leaves alone, and what it does to
/// each bet.
pub proof fn lemma_refund_steps(s: LedgerView, market_id: Symbol, n: int)
    requires
        s.books_in_order(),
        s.markets.contains_key(market_id),
        0 <= n <= s.registry(market_id).len(),
        s.refund_steps(market_id, s.registry(market_id), n) is Ok,
    ensures
        ({
            let t = s.refund_steps(market_id, s.registry(market_id), n)->Ok_0;
            &&& t == (LedgerView {
                balances: t.balances,
                bets: t.bets,
                markets: t.markets,
                effects: t.effects,
                ..s
            })
            &&& t.markets.contains_key(market_id)
            &&& t.bets.dom() == s.bets.dom()
            &&& forall|k: BetKey| #[trigger]
                s.bets.contains_key(k) ==> t.bets[k] == (if k.market_id == market_id && s.registry(
                    market_id,
                ).take(n).contains(k.user.id) && s.bets[k].status == BetStatus::Active {
                    s.bets[k].with_status(BetStatus::Refunded)
                } else {
                    s.bets[k]
                })
        }),
    decreases n,
{
    let bettors = s.registry(market_id);
    if n > 0 {
        lemma_refund_steps(s, market_id, n - 1);
        let t = s.refund_steps(market_id, bettors, n - 1)->Ok_0;
        let u = s.refund_steps(market_id, bettors, n)->Ok_0;
        let id = bettors[n - 1];
        lemma_take_one_more(bettors, n - 1);
        assert(bettors.take(n - 1 + 1) == bettors.take(n));
        let key = crate::ledger::bet_key(market_id, Address { id });
        if s.bets.contains_key(key) {
            assert(t.bets[key] == s.bets[key]);
            assert(s.bets[key].key() == key);
        }
        assert(u.bets.dom() =~= s.bets.dom());
        assert forall|k: BetKey| #[trigger] s.bets.contains_key(k) implies u.bets[k] == (if k.market_id
            == market_id && bettors.take(n).contains(k.user.id) && s.bets[k].status
            == BetStatus::Active {
            s.bets[k].with_status(BetStatus::Refunded)
        } else {
            s.bets[k]
        }) by {
            assert(bettors.take(n).contains(k.user.id) == (bettors.take(n - 1).contains(k.user.id)
                || k.user.id == id));
            if k.market_id == market_id && k.user.id == id {
                assert(k.user == Address { id });
                assert(k == key);
            } else {
                assert(u.bets[k] == t.bets[k]);
            }
        }
    } else {
        assert(bettors.take(0) =~= Seq::<u64>::empty());
    }
}

proof fn lemma_refund_err(s: LedgerView, market_id: Symbol, bettors: Seq<u64>, i: int, n: int)
    requires
        0 <= i <= n,
        s.refund_steps(market_id, bettors, i) is Err,
    ensures
        s.refund_steps(market_id, bettors, n) == s.refund_steps(market_id, bettors, i),
    decreases n,
{
    if i < n {
        lemma_refund_err(s, market_id, bettors, i, n - 1);
    }
}

impl BetManager {
    /// Marks every bet on a market as won or lost. A bet is won when its outcome
    /// is among the winning ones, of which a tie has several. Each bet whose
    /// status changes is published.
    ///
    /// # Errors
    ///
    /// [`Error::CircuitBreakerOpen`] when settling is paused.
    pub fn resolve_market_bets(
        env: &mut Ledger,
        market_id: &Symbol,
        winning_outcomes: &IdList,
    ) -> (r: Result<(), Error>)
        ensures
            match old(env)@.settling(*market_id, winning_outcomes@) {
                Ok(next) => r == Ok::<(), Error>(()) && final(env)@ == next,
                Err(e) => r == Err::<(), Error>(e) && final(env)@ == old(env)@,
            },
            old(env)@.well_formed() ==> final(env)@.well_formed(),
    {
        proof {
            if env@.well_formed() {
                crate::bookkeeping::law_resolving_keeps_books(
                    env@,
                    *market_id,
                    winning_outcomes@,
                );
            }
        }
        if env.context.resolving_paused {
            return Err(Error::CircuitBreakerOpen);
        }
        let ghost base = env@;
        let ghost winners = winning_outcomes@;
        let bets = BetStorage::get_all_bets_for_market(env, market_id);
        let bet_count: u32 = bets.len();
        let mut i: u32 = 0;
        proof {
            assert(env@.bets =~= base.bets_settled(
                *market_id,
                winners,
                |id: u64| bets@.take(0).contains(id),
            ));
        }
        while i < bet_count
            invariant
                base.books_in_order(),
                !base.context.resolving_paused,
                bets@ == base.registry(*market_id),
                bet_count == bets@.len(),
                i <= bet_count,
                winners == winning_outcomes@,
                env@ == (LedgerView {
                    bets: base.bets_settled(
                        *market_id,
                        winners,
                        |id: u64| bets@.take(i as int).contains(id),
                    ),
                    effects: base.resolution_effects(*market_id, winners, i as int),
                    ..base
                }),
            decreases bet_count - i,
        {
            let ghost before = env@;
            proof {
                lemma_take_one_more(bets@, i as int);
            }
            if let Some(id) = bets.get(i) {
                let user = Address { id };
                proof {
                    assert(before.bet(*market_id, user) == base.bet(*market_id, user));
                }
                if let Some(mut bet) = BetStorage::get_bet(env, market_id, &user) {
                    let old_status = bet.status;
                    let ghost old_bet = bet;
                    if winning_outcomes.contains(bet.outcome.id) {
                        bet.mark_as_won();
                    } else {
                        bet.mark_as_lost();
                    }
                    proof {
                        let key = crate::ledger::bet_key(*market_id, user);
                        assert(base.bets.contains_key(key));
                        assert(bet == old_bet.settled(winners));
                        assert(before.registry(*market_id) == base.registry(*market_id));
                    }
                    BetStorage::store_bet(env, &bet)?;
                    if old_status != bet.status {
                        env.ask(
                            Effect::Publish {
                                event: Event::BetStatusUpdated {
                                    market_id: *market_id,
                                    user: bet.user,
                                    old_status,
                                    new_status: bet.status,
                                    payout: None,
                                },
                            },
                        );
                    }
                }
            }
            i = i + 1;
            proof {
                assert(env@.bets =~= base.bets_settled(
                    *market_id,
                    winners,
                    |id: u64| bets@.take(i as int).contains(id),
                ));
            }
        }
        proof {
            assert(bets@.take(i as int) =~= bets@);
            assert(env@.bets =~= base.bets_settled(*market_id, winners, |id: u64| true));
        }
        Ok(())
    }

    /// Pays back every active bet on a market that is called off, in the order
    /// of the bettors. Either all of them are paid back or the ledger stays as
    /// it was.
    ///
    /// # Errors
    ///
    /// In this order: [`Error::CircuitBreakerOpen`] when paying back is paused,
    /// [`Error::MarketNotFound`], and the first error of
    /// [`BetUtils::unlock_funds`].
    pub fn refund_market_bets(env: &mut Ledger, market_id: &Symbol) -> (r: Result<(), Error>)
        ensures
            match old(env)@.refunding(*market_id) {
                Ok(next) => r == Ok::<(), Error>(()) && final(env)@ == next,
                Err(e) => r == Err::<(), Error>(e) && final(env)@ == old(env)@,
            },
            old(env)@.well_formed() ==> final(env)@.well_formed(),
    {
        proof {
            if env@.well_formed() && env@.refunding(*market_id) is Ok {
                crate::bookkeeping::law_refunding_keeps_books(env@, *market_id);
            }
        }
        if env.context.refunding_paused {
            return Err(Error::CircuitBreakerOpen);
        }
        let ghost base = env@;
        let mut market = env.market(market_id)?.copy();
        let bets = BetStorage::get_all_bets_for_market(env, market_id);
        let bet_count: u32 = bets.len();
        let mut balances = env.balances.copy();
        let contract = env.context.contract;

        // Try every transfer on a copy of the balances.
        let mut i: u32 = 0;
        while i < bet_count
            invariant
                base.books_in_order(),
                !base.context.refunding_paused,
                base.markets.contains_key(*market_id),
                bets@ == base.registry(*market_id),
                bet_count == bets@.len(),
                i <= bet_count,
                contract == base.context.contract,
                env@ == base,
                base.refund_steps(*market_id, bets@, i as int) is Ok,
                balances@ == base.refund_steps(*market_id, bets@, i as int)->Ok_0.balances,
            decreases bet_count - i,
        {
            proof {
                lemma_next_bettor(base, *market_id, i as int);
                if base.refund_steps(*market_id, bets@, i + 1) is Err {
                    lemma_refund_err(base, *market_id, bets@, i + 1, bets@.len() as int);
                }
            }
            if let Some(id) = bets.get(i) {
                let user = Address { id };
                if let Some(bet) = BetStorage::get_bet(env, market_id, &user) {
                    if bet.is_active() {
                        BetUtils::check_open(env, GuardScope::UnlockFunds)?;
                        move_balance(&mut balances, &contract, &bet.user, bet.amount)?;
                    }
                }
            }
            i = i + 1;
        }

        // Nothing fails from here on.
        i = 0;
        while i < bet_count
            invariant
                base.books_in_order(),
                base.markets.contains_key(*market_id),
                bets@ == base.registry(*market_id),
                bet_count == bets@.len(),
                i <= bet_count,
                contract == base.context.contract,
                base.refund_steps(*market_id, bets@, bets@.len() as int) is Ok,
                base.refund_steps(*market_id, bets@, i as int) is Ok,
                env@ == (LedgerView {
                    balances: base.balances,
                    markets: base.markets,
                    ..base.refund_steps(*market_id, bets@, i as int)->Ok_0
                }),
                market@ == base.refund_steps(
                    *market_id,
                    bets@,
                    i as int,
                )->Ok_0.markets[*market_id],
                base.refund_steps(*market_id, bets@, i as int)->Ok_0.markets
                    == base.markets.insert(*market_id, market@),
            decreases bet_count - i,
        {
            let ghost before = base.refund_steps(*market_id, bets@, i as int)->Ok_0;
            proof {
                lemma_next_bettor(base, *market_id, i as int);
                if base.refund_steps(*market_id, bets@, i + 1) is Err {
                    lemma_refund_err(base, *market_id, bets@, i + 1, bets@.len() as int);
                }
            }
            if let Some(id) = bets.get(i) {
                let user = Address { id };
                if let Some(mut bet) = BetStorage::get_bet(env, market_id, &user) {
                    if bet.is_active() {
                        env.ask(
                            Effect::Transfer { from: contract, to: bet.user, amount: bet.amount },
                        );
                        bet.mark_as_refunded();
                        proof {
                            lemma_refund_steps(base, *market_id, i as int);
                            assert(bets@.contains(id));
                            assert(before.registry(*market_id) == base.registry(*market_id));
                        }
                        BetStorage::store_bet(env, &bet)?;
                        market = market.unstaked(bet.user, bet.amount);
                        env.ask(
                            Effect::Publish {
                                event: Event::BetStatusUpdated {
                                    market_id: *market_id,
                                    user: bet.user,
                                    old_status: BetStatus::Active,
                                    new_status: BetStatus::Refunded,
                                    payout: Some(bet.amount),
                                },
                            },
                        );
                    }
                }
            }
            i = i + 1;
            proof {
                let after = base.refund_steps(*market_id, bets@, i as int)->Ok_0;
                assert(after.markets =~= base.markets.insert(*market_id, market@));
                assert(env@ =~= (LedgerView {
                    balances: base.balances,
                    markets: base.markets,
                    ..after
                }));
            }
        }
        env.balances = balances;
        env.put_market(*market_id, market);
        Ok(())
    }
}

/// When the first `i` bettors have been paid back, the bet of the next one is
/// still as it was.
pub proof fn lemma_next_bettor(s: LedgerView, market_id: Symbol, i: int)
    requires
        s.books_in_order(),
        s.markets.contains_key(market_id),
        0 <= i < s.registry(market_id).len(),
        s.refund_steps(market_id, s.registry(market_id), i) is Ok,
    ensures
        ({
            let user = Address { id: s.registry(market_id)[i] };
            let t = s.refund_steps(market_id, s.registry(market_id), i)->Ok_0;
            &&& t.bet(market_id, user) == s.bet(market_id, user)
            &&& t.context == s.context
            &&& s.bet(market_id, user) is Some ==> s.bet(market_id, user)->0.user == user && s.bet(
                market_id,
                user,
            )->0.market_id == market_id
        }),
{
    lemma_refund_steps(s, market_id, i);
    let bettors = s.registry(market_id);
    let user = Address { id: bettors[i] };
    let key = crate::ledger::bet_key(market_id, user);
    if s.bets.contains_key(key) {
        assert(s.bets[key].key() == key);
        lemma_take_one_more(bettors, i);
    }
}

} // verus!
