//! The bets and, market by market, who has made them.
use vstd::prelude::*;

use crate::error::Error;
use crate::host::IdList;
use crate::table::Table;
use crate::types::{Address, Bet, BetKey, BetRegistryKey, KeyTag, Symbol};

verus! {

/// The bettors of `market_id` according to `registries`, in the order of their
/// first bets.
pub open spec fn registry_in(registries: Map<BetRegistryKey, Seq<u64>>, market_id: Symbol) -> Seq<
    u64,
> {
    if registries.contains_key(crate::ledger::registry_key(market_id)) {
        registries[crate::ledger::registry_key(market_id)]
    } else {
        Seq::empty()
    }
}

/// The lists of bettors once `user` is among those of `market_id`. A bettor who
/// is listed stays where they are; a list that is full takes no more.
pub open spec fn enlisted(
    registries: Map<BetRegistryKey, Seq<u64>>,
    market_id: Symbol,
    user: Address,
) -> Result<Map<BetRegistryKey, Seq<u64>>, Error> {
    let bettors = registry_in(registries, market_id);
    if bettors.contains(user.id) {
        Ok(registries)
    } else if bettors.len() >= u32::MAX {
        Err(Error::InvalidInput)
    } else {
        Ok(registries.insert(crate::ledger::registry_key(market_id), bettors.push(user.id)))
    }
}

/// That a bet is filed under its own market and user, that its user is among the
/// bettors of its market, and that no bettor is listed twice.
pub open spec fn in_order(
    bets: Map<BetKey, Bet>,
    registries: Map<BetRegistryKey, Seq<u64>>,
) -> bool {
    &&& forall|k: BetKey| #[trigger]
        bets.contains_key(k) ==> bets[k].key() == k && registry_in(
            registries,
            k.market_id,
        ).contains(k.user.id)
    &&& forall|m: Symbol| (#[trigger] registry_in(registries, m)).no_duplicates()
}

/// Listing one more bettor keeps the lists free of repeats and strikes nobody.
pub proof fn lemma_enlisted(
    before: Map<BetRegistryKey, Seq<u64>>,
    after: Map<BetRegistryKey, Seq<u64>>,
    market_id: Symbol,
    user: Address,
)
    requires
        (enlisted(before, market_id, user) == Ok::<Map<BetRegistryKey, Seq<u64>>, Error>(after)),
    ensures
        registry_in(after, market_id).contains(user.id),
        forall|m: Symbol|
            registry_in(before, m).no_duplicates() ==> (#[trigger] registry_in(
                after,
                m,
            )).no_duplicates(),
        forall|m: Symbol, id: u64|
            registry_in(before, m).contains(id) ==> #[trigger] registry_in(after, m).contains(id),
        forall|m: Symbol|
            m != market_id ==> #[trigger] registry_in(after, m) == registry_in(before, m),
{
    let bettors = registry_in(before, market_id);
    if !bettors.contains(user.id) {
        let longer = bettors.push(user.id);
        assert(longer[bettors.len() as int] == user.id);
        assert forall|id: u64| bettors.contains(id) implies #[trigger] longer.contains(id) by {
            let i = choose|i: int| 0 <= i < bettors.len() && #[trigger] bettors[i] == id;
            assert(longer[i] == id);
        }
        assert forall|m: Symbol| #[trigger]
            registry_in(after, m) == (if m == market_id {
                longer
            } else {
                registry_in(before, m)
            }) by {}
    }
}

/// The bets and the lists of bettors, which are always in order.
pub struct Books {
    bets: Table<BetKey, Bet>,
    registries: Table<BetRegistryKey, IdList>,
}

/// The mathematical value of [`Books`].
#[verifier::ext_equal]
pub struct BooksView {
    pub bets: Map<BetKey, Bet>,
    pub registries: Map<BetRegistryKey, Seq<u64>>,
}

impl View for Books {
    type V = BooksView;

    closed spec fn view(&self) -> BooksView {
        BooksView { bets: self.bets@, registries: crate::table::views(self.registries@) }
    }
}

impl Books {
    #[verifier::type_invariant]
    spec fn well_formed(self) -> bool {
        in_order(self@.bets, self@.registries)
    }

    /// Books without a bet.
    pub fn new() -> (b: Books)
        ensures
            b@ == (BooksView { bets: Map::empty(), registries: Map::empty() }),
    {
        let bets: Table<BetKey, Bet> = Table::new();
        let registries: Table<BetRegistryKey, IdList> = Table::new();
        proof {
            assert(crate::table::views(registries@) =~= Map::<BetRegistryKey, Seq<u64>>::empty());
        }
        Books { bets, registries }
    }

    /// The bet of a user on a market, if there is one.
    pub fn bet(&self, market_id: &Symbol, user: &Address) -> (r: Option<Bet>)
        ensures
            r == crate::host::lookup(self@.bets, crate::ledger::bet_key(*market_id, *user)),
            in_order(self@.bets, self@.registries),
    {
        proof {
            use_type_invariant(self);
        }
        let key = BetKey { market_id: *market_id, user: *user };
        match self.bets.get(&key) {
            Some(bet) => Some(*bet),
            None => None,
        }
    }

    /// The bettors of a market, in the order of their first bets.
    pub fn bettors(&self, host: &soroban_sdk::Env, market_id: &Symbol) -> (r: IdList)
        ensures
            r@ == registry_in(self@.registries, *market_id),
            in_order(self@.bets, self@.registries),
    {
        proof {
            use_type_invariant(self);
        }
        let key = BetRegistryKey { tag: KeyTag::Registry, market_id: *market_id };
        match self.registries.get(&key) {
            Some(bettors) => bettors.copy(),
            None => IdList::new(host),
        }
    }

    /// Lists a user among the bettors of a market.
    ///
    /// # Errors
    ///
    /// [`Error::InvalidInput`] when the list can take no more.
    pub fn enlist(&mut self, host: &soroban_sdk::Env, market_id: &Symbol, user: &Address) -> (r:
        Result<(), Error>)
        ensures
            match enlisted(old(self)@.registries, *market_id, *user) {
                Ok(registries) => r == Ok::<(), Error>(()) && final(self)@ == (BooksView {
                    registries,
                    ..old(self)@
                }),
                Err(e) => r == Err::<(), Error>(e) && final(self)@ == old(self)@,
            },
    {
        let bettors = self.bettors(host, market_id);
        if bettors.contains(user.id) {
            return Ok(());
        }
        match bettors.with_last(user.id) {
            Some(added) => {
                let ghost before = self@;
                let mut bets: Table<BetKey, Bet> = Table::new();
                let mut registries: Table<BetRegistryKey, IdList> = Table::new();
                self.release(&mut bets, &mut registries);
                proof {
                    crate::table::lemma_views_insert(
                        registries@,
                        crate::ledger::registry_key(*market_id),
                        added,
                    );
                    lemma_enlisted(
                        before.registries,
                        before.registries.insert(
                            crate::ledger::registry_key(*market_id),
                            added@,
                        ),
                        *market_id,
                        *user,
                    );
                }
                registries.set(
                    BetRegistryKey { tag: KeyTag::Registry, market_id: *market_id },
                    added,
                );
                *self = Books { bets, registries };
                Ok(())
            },
            None => Err(Error::InvalidInput),
        }
    }

    /// Files a bet under its market and user, in place of an earlier one, and
    /// lists the user among the bettors of the market.
    ///
    /// # Errors
    ///
    /// [`Error::InvalidInput`] when the list of bettors can take no more.
    pub fn file(&mut self, host: &soroban_sdk::Env, bet: &Bet) -> (r: Result<(), Error>)
        ensures
            match enlisted(old(self)@.registries, bet.market_id, bet.user) {
                Ok(registries) => r == Ok::<(), Error>(()) && final(self)@ == (BooksView {
                    bets: old(self)@.bets.insert(bet.key(), *bet),
                    registries,
                }),
                Err(e) => r == Err::<(), Error>(e) && final(self)@ == old(self)@,
            },
    {
        let ghost before = self@;
        self.enlist(host, &bet.market_id, &bet.user)?;
        proof {
            use_type_invariant(&*self);
            lemma_enlisted(before.registries, self@.registries, bet.market_id, bet.user);
        }
        let mut bets: Table<BetKey, Bet> = Table::new();
        let mut registries: Table<BetRegistryKey, IdList> = Table::new();
        self.release(&mut bets, &mut registries);
        bets.set(BetKey { market_id: bet.market_id, user: bet.user }, *bet);
        *self = Books { bets, registries };
        Ok(())
    }

    /// Strikes the bet of a user on a market. The user stays listed.
    pub fn strike(&mut self, market_id: &Symbol, user: &Address)
        ensures
            final(self)@ == (BooksView {
                bets: old(self)@.bets.remove(crate::ledger::bet_key(*market_id, *user)),
                ..old(self)@
            }),
    {
        let mut bets: Table<BetKey, Bet> = Table::new();
        let mut registries: Table<BetRegistryKey, IdList> = Table::new();
        self.release(&mut bets, &mut registries);
        let key = BetKey { market_id: *market_id, user: *user };
        let _ = bets.take(&key);
        *self = Books { bets, registries };
    }

    /// Hands the tables out and leaves empty ones.
    fn release(
        &mut self,
        bets: &mut Table<BetKey, Bet>,
        registries: &mut Table<BetRegistryKey, IdList>,
    )
        requires
            old(bets)@ == Map::<BetKey, Bet>::empty(),
            old(registries)@ == Map::<BetRegistryKey, IdList>::empty(),
        ensures
            final(bets)@ == old(self)@.bets,
            crate::table::views(final(registries)@) == old(self)@.registries,
            in_order(old(self)@.bets, old(self)@.registries),
    {
        proof {
            use_type_invariant(&*self);
            assert(crate::table::views(registries@) =~= Map::<BetRegistryKey, Seq<u64>>::empty());
        }
        std::mem::swap(bets, &mut self.bets);
        std::mem::swap(registries, &mut self.registries);
    }
}

} // verus!
