//! Moving the token between bettors and the contract.
use vstd::prelude::*;

use crate::error::Error;
use crate::ledger::{read_balance, Effect, GuardScope, Ledger, LedgerView};
use crate::table::Table;
use crate::types::Address;

verus! {

/// The balances once `amount` has gone from `from` to `to`. A transfer fails
/// when the amount is negative, when the payer holds less, and when the
/// receiver would hold more than an `i128` can say.
pub open spec fn moved(
    balances: Map<Address, i128>,
    from: Address,
    to: Address,
    amount: i128,
) -> Result<Map<Address, i128>, Error> {
    let held = crate::ledger::balance_in(balances, from);
    let debited = balances.insert(from, (held - amount) as i128);
    let credited = crate::ledger::balance_in(debited, to) + amount;
    if amount < 0 {
        Err(Error::InvalidInput)
    } else if held < amount {
        Err(Error::InsufficientBalance)
    } else if !crate::math::fits(credited) {
        Err(Error::Overflow)
    } else {
        Ok(debited.insert(to, credited as i128))
    }
}

impl LedgerView {
    /// The balances once a transfer guarded by `scope` has been made.
    pub open spec fn transferring(
        self,
        scope: GuardScope,
        from: Address,
        to: Address,
        amount: i128,
    ) -> Result<Map<Address, i128>, Error> {
        if self.context.token is None {
            Err(Error::InvalidInput)
        } else if self.context.locks.held(scope) {
            Err(Error::InvalidState)
        } else {
            moved(self.balances, from, to, amount)
        }
    }

    /// The balances once `user` has paid `amount` to the contract.
    pub open spec fn locking(self, user: Address, amount: i128) -> Result<
        Map<Address, i128>,
        Error,
    > {
        self.transferring(GuardScope::LockFunds, user, self.context.contract, amount)
    }

    /// The balances once the contract has paid `amount` to `user`.
    pub open spec fn unlocking(self, user: Address, amount: i128) -> Result<
        Map<Address, i128>,
        Error,
    > {
        self.transferring(GuardScope::UnlockFunds, self.context.contract, user, amount)
    }

    /// The ledger once a transfer that leaves `balances` has been asked for.
    pub open spec fn paid(
        self,
        balances: Map<Address, i128>,
        from: Address,
        to: Address,
        amount: i128,
    ) -> LedgerView {
        LedgerView { balances, ..self }.asking(Effect::Transfer { from, to, amount })
    }
}

/// Brings `balances` forward over a transfer; leaves them alone where it fails.
pub fn move_balance(
    balances: &mut Table<Address, i128>,
    from: &Address,
    to: &Address,
    amount: i128,
) -> (r: Result<(), Error>)
    ensures
        match moved(old(balances)@, *from, *to, amount) {
            Ok(next) => r == Ok::<(), Error>(()) && final(balances)@ == next,
            Err(e) => r == Err::<(), Error>(e) && final(balances)@ == old(balances)@,
        },
{
    if amount < 0 {
        return Err(Error::InvalidInput);
    }
    let held: i128 = read_balance(balances, from);
    if held < amount {
        return Err(Error::InsufficientBalance);
    }
    let debited: i128 = held - amount;
    let receives: i128 = if from.id == to.id {
        debited
    } else {
        read_balance(balances, to)
    };
    match receives.checked_add(amount) {
        Some(credited) => {
            balances.set(*from, debited);
            balances.set(*to, credited);
            Ok(())
        },
        None => Err(Error::Overflow),
    }
}

/// Transfers of the token and questions about balances.
pub struct BetUtils;

impl BetUtils {
    /// Locks funds by a transfer from a user to the contract.
    ///
    /// # Errors
    ///
    /// [`Error::InvalidInput`] when no token is configured or the amount is
    /// negative, [`Error::InvalidState`] when funds are being locked already,
    /// [`Error::InsufficientBalance`] when the user holds less than `amount`,
    /// [`Error::Overflow`] when the contract cannot hold the sum.
    pub fn lock_funds(env: &mut Ledger, user: &Address, amount: i128) -> (r: Result<(), Error>)
        ensures
            match old(env)@.locking(*user, amount) {
                Ok(balances) => r == Ok::<(), Error>(()) && final(env)@ == old(env)@.paid(
                    balances,
                    *user,
                    old(env)@.context.contract,
                    amount,
                ),
                Err(e) => r == Err::<(), Error>(e) && final(env)@ == old(env)@,
            },
            old(env)@.well_formed() ==> final(env)@.well_formed(),
    {
        let contract = env.context.contract;
        Self::transfer(env, GuardScope::LockFunds, user, &contract, amount)
    }

    /// Unlocks funds by a transfer from the contract to a user.
    ///
    /// # Errors
    ///
    /// As for [`BetUtils::lock_funds`], with the contract as the payer.
    pub fn unlock_funds(env: &mut Ledger, user: &Address, amount: i128) -> (r: Result<(), Error>)
        ensures
            match old(env)@.unlocking(*user, amount) {
                Ok(balances) => r == Ok::<(), Error>(()) && final(env)@ == old(env)@.paid(
                    balances,
                    old(env)@.context.contract,
                    *user,
                    amount,
                ),
                Err(e) => r == Err::<(), Error>(e) && final(env)@ == old(env)@,
            },
            old(env)@.well_formed() ==> final(env)@.well_formed(),
    {
        let contract = env.context.contract;
        Self::transfer(env, GuardScope::UnlockFunds, &contract, user, amount)
    }

    fn transfer(
        env: &mut Ledger,
        scope: GuardScope,
        from: &Address,
        to: &Address,
        amount: i128,
    ) -> (r: Result<(), Error>)
        ensures
            match old(env)@.transferring(scope, *from, *to, amount) {
                Ok(balances) => r == Ok::<(), Error>(()) && final(env)@ == old(env)@.paid(
                    balances,
                    *from,
                    *to,
                    amount,
                ),
                Err(e) => r == Err::<(), Error>(e) && final(env)@ == old(env)@,
            },
            old(env)@.well_formed() ==> final(env)@.well_formed(),
    {
        proof {
            if env@.well_formed() && env@.transferring(scope, *from, *to, amount) is Ok {
                let balances = env@.transferring(scope, *from, *to, amount)->Ok_0;
                crate::bookkeeping::lemma_same_books(env@, env@.paid(balances, *from, *to, amount));
            }
        }
        Self::check_open(env, scope)?;
        move_balance(&mut env.balances, from, to, amount)?;
        env.ask(Effect::Transfer { from: *from, to: *to, amount });
        Ok(())
    }

    /// Whether [`BetUtils::lock_funds`] would succeed, and the error where it
    /// would not. Writes nothing.
    pub fn check_lock(env: &Ledger, user: &Address, amount: i128) -> (r: Result<(), Error>)
        ensures
            match env@.locking(*user, amount) {
                Ok(_) => r == Ok::<(), Error>(()),
                Err(e) => r == Err::<(), Error>(e),
            },
    {
        Self::check_transfer(env, GuardScope::LockFunds, user, &env.context.contract, amount)
    }

    /// Whether [`BetUtils::unlock_funds`] would succeed, and the error where it
    /// would not. Writes nothing.
    pub fn check_unlock(env: &Ledger, user: &Address, amount: i128) -> (r: Result<(), Error>)
        ensures
            match env@.unlocking(*user, amount) {
                Ok(_) => r == Ok::<(), Error>(()),
                Err(e) => r == Err::<(), Error>(e),
            },
    {
        Self::check_transfer(env, GuardScope::UnlockFunds, &env.context.contract, user, amount)
    }

    fn check_transfer(
        env: &Ledger,
        scope: GuardScope,
        from: &Address,
        to: &Address,
        amount: i128,
    ) -> (r: Result<(), Error>)
        ensures
            match env@.transferring(scope, *from, *to, amount) {
                Ok(_) => r == Ok::<(), Error>(()),
                Err(e) => r == Err::<(), Error>(e),
            },
    {
        Self::check_open(env, scope)?;
        let mut balances = env.balances.copy();
        move_balance(&mut balances, from, to, amount)
    }

    /// Refuses transfers where no token is configured or the section is running.
    pub fn check_open(env: &Ledger, scope: GuardScope) -> (r: Result<(), Error>)
        ensures
            r == (if env@.context.token is None {
                Err::<(), Error>(Error::InvalidInput)
            } else if env@.context.locks.held(scope) {
                Err(Error::InvalidState)
            } else {
                Ok(())
            }),
    {
        if env.context.token.is_none() {
            return Err(Error::InvalidInput);
        }
        env.context.locks.enter(scope)
    }

    /// The contract's balance of the token.
    ///
    /// # Errors
    ///
    /// [`Error::InvalidInput`] when no token is configured.
    pub fn get_contract_balance(env: &Ledger) -> (r: Result<i128, Error>)
        ensures
            r == (if env@.context.token is None {
                Err::<i128, Error>(Error::InvalidInput)
            } else {
                Ok(env@.balance(env@.context.contract))
            }),
    {
        if env.context.token.is_none() {
            return Err(Error::InvalidInput);
        }
        Ok(env.balance(&env.context.contract))
    }

    /// Whether a user holds at least `amount` of the token.
    ///
    /// # Errors
    ///
    /// [`Error::InvalidInput`] when no token is configured.
    pub fn has_sufficient_balance(env: &Ledger, user: &Address, amount: i128) -> (r: Result<
        bool,
        Error,
    >)
        ensures
            r == (if env@.context.token is None {
                Err::<bool, Error>(Error::InvalidInput)
            } else {
                Ok(env@.balance(*user) >= amount)
            }),
    {
        if env.context.token.is_none() {
            return Err(Error::InvalidInput);
        }
        Ok(env.balance(user) >= amount)
    }
}

} // verus!
