//! Placing several bets at once.
use vstd::prelude::*;

use crate::error::Error;
use crate::funds::BetUtils;
use crate::host::IdMap;
use crate::ledger::{Effect, Event, GuardScope, Ledger, LedgerView, TtlEntry};
use crate::limits::MAX_BATCH_SIZE;
use crate::manager::BetManager;
use crate::storage::BetStorage;
use crate::types::{
    Address, BatchKey, BatchToken, Bet, BetStats, BetStatsView, Market, MarketView, Outcome, Symbol,
};
use crate::validator::BetValidator;

verus! {

/// For how many ledgers a placed batch is remembered: seven days of five-second
/// ledgers.
pub const PLACE_BETS_IDEM_TTL_LEDGERS: u32 = 120_960;

/// The sum of the amounts of the first `n` requests.
pub open spec fn total_amount(bets: Seq<(Symbol, Outcome, i128)>, n: int) -> int
    decreases n,
{
    if n <= 0 {
        0
    } else {
        total_amount(bets, n - 1) + bets[n - 1].2
    }
}

/// What one request of a batch writes.
struct PreparedEntry {
    bet: Bet,
    stake: i128,
    stats: BetStats,
    market: Market,
}

/// What one request of a batch writes: the bet, the stake of the user, the
/// statistics and the market.
#[verifier::ext_equal]
pub struct EntryWrite {
    pub bet: Bet,
    pub stake: i128,
    pub stats: BetStatsView,
    pub market: MarketView,
}

impl View for PreparedEntry {
    type V = EntryWrite;

    closed spec fn view(&self) -> EntryWrite {
        EntryWrite {
            bet: self.bet,
            stake: self.stake,
            stats: self.stats@,
            market: self.market@,
        }
    }
}

/// The key that remembers a batch.
pub open spec fn batch_key(user: Address, token: BatchToken) -> BatchKey {
    BatchKey { user, token }
}

impl LedgerView {
    /// Whether request `i` of a batch may be placed, the ones before it being
    /// in order: its market is new to the batch, this ledger takes that many
    /// bets, the bet itself is in order, and the amounts so far can be summed.
    pub open spec fn request_check(
        self,
        user: Address,
        bets: Seq<(Symbol, Outcome, i128)>,
        i: int,
    ) -> Result<(), Error> {
        let (market_id, outcome, amount) = bets[i];
        if exists|j: int| 0 <= j < i && (#[trigger] bets[j]).0 == market_id {
            Err(Error::InvalidInput)
        } else if self.bets_left is Some && self.bets_left->0 <= i {
            Err(Error::RateLimitExceeded)
        } else if self.admission(user, market_id, outcome, amount) is Err {
            self.admission(user, market_id, outcome, amount)
        } else if !crate::math::fits(total_amount(bets, i + 1)) {
            Err(Error::InvalidInput)
        } else {
            Ok(())
        }
    }

    /// The error of the first of the first `n` requests that may not be placed.
    pub open spec fn requests_check(
        self,
        user: Address,
        bets: Seq<(Symbol, Outcome, i128)>,
        n: int,
    ) -> Result<(), Error>
        decreases n,
    {
        if n <= 0 {
            Ok(())
        } else if self.requests_check(user, bets, n - 1) is Err {
            self.requests_check(user, bets, n - 1)
        } else {
            self.request_check(user, bets, n - 1)
        }
    }

    /// What a request writes, where every sum fits and there is room for it.
    pub open spec fn entry_write(self, user: Address, request: (Symbol, Outcome, i128)) -> Result<
        EntryWrite,
        Error,
    > {
        let (market_id, outcome, amount) = request;
        let registries = self.registries_with(market_id, user);
        let stake = self.stake_sum(market_id, user, amount);
        let stats = self.market_stats(market_id).after_bet(outcome, amount);
        let total = self.markets[market_id].total_staked + amount;
        if registries is Err {
            Err(registries->Err_0)
        } else if stake is Err {
            Err(stake->Err_0)
        } else if stats is Err {
            Err(stats->Err_0)
        } else if !crate::math::fits(total) || !self.markets[market_id].takes(user) {
            Err(Error::InvalidInput)
        } else {
            Ok(
                EntryWrite {
                    bet: self.new_bet(user, market_id, outcome, amount),
                    stake: stake->Ok_0,
                    stats: stats->Ok_0,
                    market: self.markets[market_id].staked(user, outcome, amount, total as i128),
                },
            )
        }
    }

    /// The error of the first of the first `n` requests with a sum that does not
    /// fit.
    pub open spec fn writes_check(
        self,
        user: Address,
        bets: Seq<(Symbol, Outcome, i128)>,
        n: int,
    ) -> Result<(), Error>
        decreases n,
    {
        if n <= 0 {
            Ok(())
        } else if self.writes_check(user, bets, n - 1) is Err {
            self.writes_check(user, bets, n - 1)
        } else {
            match self.entry_write(user, bets[n - 1]) {
                Ok(_) => Ok(()),
                Err(e) => Err(e),
            }
        }
    }

    /// The ledger once `write` has been made and its bet published.
    pub open spec fn after_write(self, write: EntryWrite) -> LedgerView {
        let market_id = write.bet.market_id;
        let stake_key = crate::ledger::stake_key(market_id, write.bet.user);
        LedgerView {
            bets: self.bets.insert(write.bet.key(), write.bet),
            registries: self.registries_with(market_id, write.bet.user)->Ok_0,
            user_stakes: self.user_stakes.insert(stake_key, write.stake),
            stats: self.stats.insert(crate::ledger::stats_key(market_id), write.stats),
            markets: self.markets.insert(market_id, write.market),
            ..self
        }.asking(
            Effect::ExtendTtl {
                entry: TtlEntry::UserStake { stake: stake_key },
                ledgers: self.context.market_ttl_ledgers,
            },
        ).asking(
            Effect::Publish {
                event: Event::BetPlaced {
                    market_id,
                    user: write.bet.user,
                    outcome: write.bet.outcome,
                    amount: write.bet.amount,
                },
            },
        )
    }

    /// The ledger once the first `n` requests have been written, each as it was
    /// prepared from `base`.
    pub open spec fn after_writes(
        self,
        base: LedgerView,
        user: Address,
        bets: Seq<(Symbol, Outcome, i128)>,
        n: int,
    ) -> LedgerView
        decreases n,
    {
        if n <= 0 {
            self
        } else {
            self.after_writes(base, user, bets, n - 1).after_write(
                base.entry_write(user, bets[n - 1])->Ok_0,
            )
        }
    }

    /// Whether a call of `place_bets` gets as far as locking funds.
    pub open spec fn batch_check(
        self,
        user: Address,
        bets: Seq<(Symbol, Outcome, i128)>,
        max_fee_bps: i128,
        token: BatchToken,
    ) -> Result<(), Error> {
        if self.context.locks.held(GuardScope::PlaceBets) {
            Err(Error::InvalidState)
        } else if self.context.betting_paused {
            Err(Error::CircuitBreakerOpen)
        } else if self.batches.contains_key(batch_key(user, token)) {
            Err(Error::IdempotentBatchAlreadyApplied)
        } else if self.fee_check(max_fee_bps) is Err {
            self.fee_check(max_fee_bps)
        } else if bets.len() == 0 {
            Err(Error::BatchEmpty)
        } else if bets.len() > MAX_BATCH_SIZE {
            Err(Error::BatchSizeExceeded)
        } else if max_fee_bps != 0 && self.slippage_fee() > max_fee_bps {
            Err(Error::FeeExceedsMax)
        } else {
            self.requests_check(user, bets, bets.len() as int)
        }
    }

    /// The ledger once the funds of a batch are locked, before its bets are
    /// written.
    pub open spec fn batch_paid(
        self,
        user: Address,
        bets: Seq<(Symbol, Outcome, i128)>,
        balances: Map<Address, i128>,
    ) -> LedgerView {
        let amount = total_amount(bets, bets.len() as int) as i128;
        LedgerView {
            bets_left: crate::placement::fewer_left(self.bets_left, bets.len() as int),
            ..self
        }.asking(Effect::RequireAuth { address: user }).paid(
            balances,
            user,
            self.context.contract,
            amount,
        )
    }

    /// The ledger after a call of `place_bets`, or the error that it gives.
    pub open spec fn placing_batch(
        self,
        user: Address,
        bets: Seq<(Symbol, Outcome, i128)>,
        max_fee_bps: i128,
        token: BatchToken,
    ) -> Result<LedgerView, Error> {
        let n = bets.len() as int;
        let check = self.batch_check(user, bets, max_fee_bps, token);
        let balances = self.locking(user, total_amount(bets, n) as i128);
        let writes = self.writes_check(user, bets, n);
        let key = batch_key(user, token);
        if check is Err {
            Err(check->Err_0)
        } else if balances is Err {
            Err(balances->Err_0)
        } else if writes is Err {
            Err(writes->Err_0)
        } else {
            let written = self.batch_paid(user, bets, balances->Ok_0).after_writes(
                self,
                user,
                bets,
                n,
            );
            Ok(
                LedgerView { batches: written.batches.insert(key, true), ..written }.asking(
                    Effect::ExtendTtl {
                        entry: TtlEntry::Batch { batch: key },
                        ledgers: PLACE_BETS_IDEM_TTL_LEDGERS,
                    },
                ),
            )
        }
    }
}

/// Where all requests are in order, each one is.
pub proof fn lemma_requests_ok(
    s: LedgerView,
    user: Address,
    bets: Seq<(Symbol, Outcome, i128)>,
    i: int,
    n: int,
)
    requires
        0 <= i < n,
        s.requests_check(user, bets, n) is Ok,
    ensures
        s.request_check(user, bets, i) is Ok,
    decreases n,
{
    if i < n - 1 {
        lemma_requests_ok(s, user, bets, i, n - 1);
    }
}

/// An error among the first requests is the error of the batch.
proof fn lemma_requests_err(
    s: LedgerView,
    user: Address,
    bets: Seq<(Symbol, Outcome, i128)>,
    i: int,
    n: int,
)
    requires
        0 <= i <= n,
        s.requests_check(user, bets, i) is Err,
    ensures
        s.requests_check(user, bets, n) == s.requests_check(user, bets, i),
    decreases n,
{
    if i < n {
        lemma_requests_err(s, user, bets, i, n - 1);
    }
}

/// Where the sums of all requests fit, those of each one do.
pub proof fn lemma_writes_ok(
    s: LedgerView,
    user: Address,
    bets: Seq<(Symbol, Outcome, i128)>,
    i: int,
    n: int,
)
    requires
        0 <= i < n,
        s.writes_check(user, bets, n) is Ok,
    ensures
        s.entry_write(user, bets[i]) is Ok,
    decreases n,
{
    if i < n - 1 {
        lemma_writes_ok(s, user, bets, i, n - 1);
    }
}

proof fn lemma_writes_err(
    s: LedgerView,
    user: Address,
    bets: Seq<(Symbol, Outcome, i128)>,
    i: int,
    n: int,
)
    requires
        0 <= i <= n,
        s.writes_check(user, bets, i) is Err,
    ensures
        s.writes_check(user, bets, n) == s.writes_check(user, bets, i),
    decreases n,
{
    if i < n {
        lemma_writes_err(s, user, bets, i, n - 1);
    }
}

/// When the first `n` requests have been written, the bettors of the markets of
/// the others are as they were.
pub proof fn lemma_writes_leave_room(
    paid: LedgerView,
    base: LedgerView,
    user: Address,
    bets: Seq<(Symbol, Outcome, i128)>,
    n: int,
)
    requires
        paid.registries == base.registries,
        0 <= n <= bets.len(),
        base.requests_check(user, bets, bets.len() as int) is Ok,
        base.writes_check(user, bets, bets.len() as int) is Ok,
    ensures
        forall|i: int|
            n <= i < bets.len() ==> paid.after_writes(base, user, bets, n).registry(
                (#[trigger] bets[i]).0,
            ) == base.registry(bets[i].0),
        n < bets.len() ==> paid.after_writes(base, user, bets, n).registries_with(
            bets[n].0,
            user,
        ) is Ok,
    decreases n,
{
    if n > 0 {
        lemma_writes_leave_room(paid, base, user, bets, n - 1);
        lemma_writes_ok(base, user, bets, n - 1, bets.len() as int);
        let s = paid.after_writes(base, user, bets, n - 1);
        let t = paid.after_writes(base, user, bets, n);
        crate::books::lemma_enlisted(s.registries, t.registries, bets[n - 1].0, user);
        assert forall|i: int| n <= i < bets.len() implies t.registry((#[trigger] bets[i]).0)
            == base.registry(bets[i].0) by {
            lemma_requests_ok(base, user, bets, i, bets.len() as int);
            assert(bets[n - 1].0 != bets[i].0);
            assert(s.registry(bets[i].0) == base.registry(bets[i].0));
        }
    }
    if n < bets.len() {
        lemma_writes_ok(base, user, bets, n, bets.len() as int);
        assert(paid.after_writes(base, user, bets, n).registry(bets[n].0) == base.registry(
            bets[n].0,
        ));
    }
}

impl BetManager {
    /// Places several bets and locks the sum of their amounts. Either all of
    /// them are placed or the ledger stays as it was.
    ///
    /// # Errors
    ///
    /// In this order: [`Error::InvalidState`] when a batch is being placed
    /// already, [`Error::CircuitBreakerOpen`] when betting is paused,
    /// [`Error::IdempotentBatchAlreadyApplied`] when the user has placed a batch
    /// with this token, [`Error::FeeExceedsMax`] when the fee in force is above a
    /// positive `max_fee_bps`, [`Error::BatchEmpty`],
    /// [`Error::BatchSizeExceeded`] above [`MAX_BATCH_SIZE`] bets,
    /// [`Error::FeeExceedsMax`] of [`BetValidator::validate_fee_slippage`] for a
    /// `max_fee_bps` other than zero, the first error of a request
    /// ([`Error::InvalidInput`] for a market that the batch names twice,
    /// [`Error::RateLimitExceeded`], the errors of a single bet,
    /// [`Error::InvalidInput`] when the amounts cannot be summed), the errors of
    /// [`BetUtils::lock_funds`], and the first error of a write
    /// ([`Error::Overflow`] in the stake of the user and in the statistics,
    /// [`Error::InvalidInput`] elsewhere). A `max_fee_bps` of zero accepts any
    /// fee. The cap on stakes is a check of single bets; a batch is added to the
    /// stakes that it goes by.
    pub fn place_bets(
        env: &mut Ledger,
        user: Address,
        bets: Vec<(Symbol, Outcome, i128)>,
        max_fee_bps: i128,
        idempotency_key: BatchToken,
    ) -> (r: Result<Vec<Bet>, Error>)
        ensures
            match old(env)@.placing_batch(user, bets@, max_fee_bps, idempotency_key) {
                Ok(next) => {
                    &&& r matches Ok(placed)
                    &&& placed@.len() == bets@.len()
                    &&& forall|i: int|
                        0 <= i < bets@.len() ==> #[trigger] placed@[i] == old(env)@.new_bet(
                            user,
                            bets@[i].0,
                            bets@[i].1,
                            bets@[i].2,
                        )
                    &&& final(env)@ == next
                },
                Err(e) => r matches Err(x) && x == e && final(env)@ == old(env)@,
            },
            old(env)@.well_formed() ==> final(env)@.well_formed(),
    {
        proof {
            if env@.well_formed() && env@.placing_batch(user, bets@, max_fee_bps, idempotency_key) is Ok {
                crate::bookkeeping::law_batch_keeps_books(env@, user, bets@, max_fee_bps, idempotency_key);
            }
        }
        env.context.locks.enter(GuardScope::PlaceBets)?;
        Self::place_bets_inner(env, user, bets, max_fee_bps, idempotency_key)
    }

    fn place_bets_inner(
        env: &mut Ledger,
        user: Address,
        bets: Vec<(Symbol, Outcome, i128)>,
        max_fee_bps: i128,
        idempotency_key: BatchToken,
    ) -> (r: Result<Vec<Bet>, Error>)
        requires
            !old(env)@.context.locks.held(GuardScope::PlaceBets),
        ensures
            match old(env)@.placing_batch(user, bets@, max_fee_bps, idempotency_key) {
                Ok(next) => {
                    &&& r matches Ok(placed)
                    &&& placed@.len() == bets@.len()
                    &&& forall|i: int|
                        0 <= i < bets@.len() ==> #[trigger] placed@[i] == old(env)@.new_bet(
                            user,
                            bets@[i].0,
                            bets@[i].1,
                            bets@[i].2,
                        )
                    &&& final(env)@ == next
                },
                Err(e) => r matches Err(x) && x == e && final(env)@ == old(env)@,
            },
    {
        if env.context.betting_paused {
            return Err(Error::CircuitBreakerOpen);
        }
        let key = BatchKey { user, token: idempotency_key };
        if env.batches.get(&key).is_some() {
            return Err(Error::IdempotentBatchAlreadyApplied);
        }
        Self::check_fee(env, max_fee_bps)?;
        if bets.len() == 0 {
            return Err(Error::BatchEmpty);
        }
        if bets.len() > MAX_BATCH_SIZE as usize {
            return Err(Error::BatchSizeExceeded);
        }
        if max_fee_bps != 0 {
            BetValidator::validate_fee_slippage(env, max_fee_bps)?;
        }

        let (total, bets_left) = Self::check_requests(env, &user, &bets)?;
        BetUtils::check_lock(env, &user, total)?;
        let prepared = Self::prepare_entries(env, &user, &bets)?;

        // Nothing fails from here on.
        let ghost base = env@;
        env.bets_left = bets_left;
        env.ask(Effect::RequireAuth { address: user });
        BetUtils::lock_funds(env, &user, total)?;
        let ghost paid = env@;
        proof {
            assert(paid =~= base.batch_paid(user, bets@, paid.balances));
        }
        let mut placed: Vec<Bet> = Vec::new();
        let mut i: usize = 0;
        while i < prepared.len()
            invariant
                i <= prepared@.len() == bets@.len(),
                placed@.len() == i,
                forall|j: int|
                    0 <= j < bets@.len() ==> base.entry_write(user, bets@[j]) == Ok::<
                        EntryWrite,
                        Error,
                    >((#[trigger] prepared@[j])@),
                forall|j: int|
                    0 <= j < i ==> #[trigger] placed@[j] == base.new_bet(
                        user,
                        bets@[j].0,
                        bets@[j].1,
                        bets@[j].2,
                    ),
                env@ == paid.after_writes(base, user, bets@, i as int),
                paid.registries == base.registries,
                base.requests_check(user, bets@, bets@.len() as int) is Ok,
                base.writes_check(user, bets@, bets@.len() as int) is Ok,
            decreases prepared@.len() - i,
        {
            let entry = &prepared[i];
            proof {
                lemma_writes_leave_room(paid, base, user, bets@, i as int);
            }
            Self::commit_entry(env, entry)?;
            placed.push(entry.bet);
            i = i + 1;
        }
        env.batches.set(key, true);
        env.ask(
            Effect::ExtendTtl {
                entry: TtlEntry::Batch { batch: key },
                ledgers: PLACE_BETS_IDEM_TTL_LEDGERS,
            },
        );
        Ok(placed)
    }

    /// Checks the requests of a batch in order. Gives the sum of the amounts and
    /// how many bets the ledger takes after them.
    fn check_requests(env: &Ledger, user: &Address, bets: &Vec<(Symbol, Outcome, i128)>) -> (r:
        Result<(i128, Option<u32>), Error>)
        requires
            bets@.len() <= MAX_BATCH_SIZE,
        ensures
            match env@.requests_check(*user, bets@, bets@.len() as int) {
                Ok(_) => {
                    &&& r matches Ok((total, bets_left))
                    &&& total == total_amount(bets@, bets@.len() as int)
                    &&& bets_left == crate::placement::fewer_left(
                        env@.bets_left,
                        bets@.len() as int,
                    )
                },
                Err(e) => r matches Err(x) && x == e,
            },
    {
        let mut total: i128 = 0;
        let mut bets_left = env.bets_left;
        let mut seen_markets = IdMap::new(&env.host);
        let mut i: usize = 0;
        while i < bets.len()
            invariant
                i <= bets@.len() <= MAX_BATCH_SIZE,
                env@.requests_check(*user, bets@, i as int) is Ok,
                total == total_amount(bets@, i as int),
                env@.bets_left is Some ==> env@.bets_left->0 >= i,
                bets_left == crate::placement::fewer_left(env@.bets_left, i as int),
                seen_markets@.dom().finite(),
                seen_markets@.len() <= i,
                forall|j: int| 0 <= j < i ==> seen_markets@.contains_key((#[trigger] bets@[j]).0.id),
                forall|id: u64| #[trigger]
                    seen_markets@.contains_key(id) ==> exists|j: int|
                        0 <= j < i && (#[trigger] bets@[j]).0.id == id,
            decreases bets@.len() - i,
        {
            let (market_id, outcome, amount) = bets[i];
            proof {
                if env@.request_check(*user, bets@, i as int) is Err {
                    lemma_requests_err(env@, *user, bets@, i + 1, bets@.len() as int);
                }
            }
            if seen_markets.contains_key(market_id.id) {
                return Err(Error::InvalidInput);
            }
            let ghost seen_before = seen_markets@;
            seen_markets = seen_markets.with_room(market_id.id, 1);
            proof {
                assert forall|id: u64| #[trigger]
                    seen_markets@.contains_key(id) implies exists|j: int|
                    0 <= j < i + 1 && (#[trigger] bets@[j]).0.id == id by {
                    if id == market_id.id {
                        assert(bets@[i as int].0.id == id);
                    } else {
                        assert(seen_before.contains_key(id));
                    }
                }
            }
            bets_left = match bets_left {
                Some(left) => {
                    if left == 0 {
                        return Err(Error::RateLimitExceeded);
                    }
                    Some(left - 1)
                },
                None => None,
            };
            Self::check_admission(env, user, &market_id, &outcome, amount)?;
            total = match total.checked_add(amount) {
                Some(sum) => sum,
                None => {
                    return Err(Error::InvalidInput);
                },
            };
            i = i + 1;
        }
        Ok((total, bets_left))
    }

    /// Prepares what each request of a batch writes. Writes nothing.
    fn prepare_entries(env: &Ledger, user: &Address, bets: &Vec<(Symbol, Outcome, i128)>) -> (r:
        Result<Vec<PreparedEntry>, Error>)
        requires
            env@.requests_check(*user, bets@, bets@.len() as int) is Ok,
        ensures
            match env@.writes_check(*user, bets@, bets@.len() as int) {
                Ok(_) => {
                    &&& r matches Ok(prepared)
                    &&& prepared@.len() == bets@.len()
                    &&& forall|j: int|
                        0 <= j < bets@.len() ==> env@.entry_write(*user, bets@[j]) == Ok::<
                            EntryWrite,
                            Error,
                        >((#[trigger] prepared@[j])@)
                },
                Err(e) => r matches Err(x) && x == e,
            },
    {
        let mut prepared: Vec<PreparedEntry> = Vec::new();
        let mut i: usize = 0;
        while i < bets.len()
            invariant
                i <= bets@.len(),
                prepared@.len() == i,
                env@.requests_check(*user, bets@, bets@.len() as int) is Ok,
                env@.writes_check(*user, bets@, i as int) is Ok,
                forall|j: int|
                    0 <= j < i ==> env@.entry_write(*user, bets@[j]) == Ok::<EntryWrite, Error>(
                        (#[trigger] prepared@[j])@,
                    ),
            decreases bets@.len() - i,
        {
            proof {
                lemma_requests_ok(env@, *user, bets@, i as int, bets@.len() as int);
                if env@.entry_write(*user, bets@[i as int]) is Err {
                    lemma_writes_err(env@, *user, bets@, i + 1, bets@.len() as int);
                }
            }
            let entry = Self::prepare_entry(env, user, &bets[i])?;
            prepared.push(entry);
            i = i + 1;
        }
        Ok(prepared)
    }

    fn prepare_entry(env: &Ledger, user: &Address, request: &(Symbol, Outcome, i128)) -> (r: Result<
        PreparedEntry,
        Error,
    >)
        requires
            env@.markets.contains_key(request.0),
        ensures
            match env@.entry_write(*user, *request) {
                Ok(write) => r matches Ok(entry) && entry@ == write,
                Err(e) => r matches Err(x) && x == e,
            },
    {
        let (market_id, outcome, amount) = *request;
        BetStorage::check_store(env, &market_id, user)?;
        let stake: i128 = BetValidator::sum_user_stake(env, &market_id, user, amount)?;
        let stats = Self::prepare_market_bet_stats(env, &market_id, &outcome, amount)?;
        let market = env.market(&market_id)?;
        let total: i128 = match market.total_staked.checked_add(amount) {
            Some(total) => total,
            None => {
                return Err(Error::InvalidInput);
            },
        };
        let market = match market.staked(*user, outcome, amount, total) {
            Some(market) => market,
            None => {
                return Err(Error::InvalidInput);
            },
        };
        let bet = Bet::new(*user, market_id, outcome, amount, env.context.timestamp);
        Ok(PreparedEntry { bet, stake, stats, market })
    }

    fn commit_entry(env: &mut Ledger, entry: &PreparedEntry) -> (r: Result<(), Error>)
        requires
            old(env)@.registries_with(entry@.bet.market_id, entry@.bet.user) is Ok,
        ensures
            r == Ok::<(), Error>(()),
            final(env)@ == old(env)@.after_write(entry@),
    {
        let bet = entry.bet;
        BetStorage::store_bet(env, &bet)?;
        BetValidator::store_user_stake(env, &bet.market_id, &bet.user, entry.stake);
        env.put_stats(bet.market_id, entry.stats.copy());
        env.put_market(bet.market_id, entry.market.copy());
        env.ask(
            Effect::Publish {
                event: Event::BetPlaced {
                    market_id: bet.market_id,
                    user: bet.user,
                    outcome: bet.outcome,
                    amount: bet.amount,
                },
            },
        );
        proof {
            assert(env@ =~= old(env)@.after_write(entry@));
        }
        Ok(())
    }
}

} // verus!
