//! The pools of the protocol, by key.
use vstd::prelude::*;
use crate::collections::mapping::{KeyEq, Mapping};
use crate::errors::InvariantError;
use crate::storage::pool::Pool;
use crate::storage::pool_key::PoolKey;

verus! {

impl KeyEq for PoolKey {
    fn key_eq(&self, other: &Self) -> (r: bool) {
        *self == *other
    }
}

/// The pools, each under its key. A removed pool leaves an empty slot.
pub struct Pools {
    pools: Mapping<PoolKey, Option<Pool>>,
}

impl Pools {
    /// The pools that exist, by key.
    pub closed spec fn view(&self) -> Map<PoolKey, Pool> {
        Map::new(
            |k: PoolKey| self.pools@.dom().contains(k) && self.pools@[k] is Some,
            |k: PoolKey| self.pools@[k]->0,
        )
    }

    pub closed spec fn wf(&self) -> bool {
        self.pools.wf()
    }

    /// No pools.
    pub fn default() -> (r: Pools)
        ensures
            r.wf(),
            r@ == Map::<PoolKey, Pool>::empty(),
    {
        let r = Pools { pools: Mapping::new() };
        assert(r@ =~= Map::<PoolKey, Pool>::empty());
        r
    }

    /// Adds a pool under a key that has none; an error where one exists.
    pub fn add(&mut self, pool_key: PoolKey, pool: &Pool) -> (r: Result<(), InvariantError>)
        requires
            old(self).wf(),
        ensures
            final(self).wf(),
            old(self)@.dom().contains(pool_key) ==> r == Err::<(), InvariantError>(InvariantError::PoolAlreadyExist)
                && final(self)@ == old(self)@,
            !old(self)@.dom().contains(pool_key) ==> r == Ok::<(), InvariantError>(())
                && final(self)@ == old(self)@.insert(pool_key, *pool),
    {
        match self.get(pool_key) {
            Ok(_) => return Err(InvariantError::PoolAlreadyExist),
            Err(_) => {},
        }
        self.pools.set(&pool_key, Some(*pool));
        assert(self@ =~= old(self)@.insert(pool_key, *pool));
        Ok(())
    }

    /// Replaces the pool under a key; an error where there is none.
    pub fn update(&mut self, pool_key: PoolKey, pool: &Pool) -> (r: Result<(), InvariantError>)
        requires
            old(self).wf(),
        ensures
            final(self).wf(),
            old(self)@.dom().contains(pool_key) ==> r == Ok::<(), InvariantError>(())
                && final(self)@ == old(self)@.insert(pool_key, *pool),
            !old(self)@.dom().contains(pool_key) ==> r == Err::<(), InvariantError>(InvariantError::PoolNotFound)
                && final(self)@ == old(self)@,
    {
        match self.get(pool_key) {
            Ok(_) => {},
            Err(e) => return Err(e),
        }
        self.pools.set(&pool_key, Some(*pool));
        assert(self@ =~= old(self)@.insert(pool_key, *pool));
        Ok(())
    }

    /// Removes the pool under a key; an error where there is none.
    pub fn remove(&mut self, pool_key: PoolKey) -> (r: Result<(), InvariantError>)
        requires
            old(self).wf(),
        ensures
            final(self).wf(),
            old(self)@.dom().contains(pool_key) ==> r == Ok::<(), InvariantError>(())
                && final(self)@ == old(self)@.remove(pool_key),
            !old(self)@.dom().contains(pool_key) ==> r == Err::<(), InvariantError>(InvariantError::PoolNotFound)
                && final(self)@ == old(self)@,
    {
        match self.get(pool_key) {
            Ok(_) => {},
            Err(e) => return Err(e),
        }
        self.pools.set(&pool_key, None);
        assert(self@ =~= old(self)@.remove(pool_key));
        Ok(())
    }

    /// The pool under a key; an error where there is none.
    pub fn get(&self, pool_key: PoolKey) -> (r: Result<Pool, InvariantError>)
        requires
            self.wf(),
        ensures
            self@.dom().contains(pool_key) ==> r == Ok::<Pool, InvariantError>(self@[pool_key]),
            !self@.dom().contains(pool_key) ==> r == Err::<Pool, InvariantError>(InvariantError::PoolNotFound),
    {
        match self.pools.get(&pool_key) {
            Some(Some(pool)) => Ok(pool),
            _ => Err(InvariantError::PoolNotFound),
        }
    }
}

/// Removing a pool undoes adding it: the pools are as before.
pub proof fn law_pools_remove_undoes_add(pools: Map<PoolKey, Pool>, pool_key: PoolKey, pool: Pool)
    requires
        !pools.dom().contains(pool_key),
    ensures
        pools.insert(pool_key, pool).remove(pool_key) == pools,
{
    assert(pools.insert(pool_key, pool).remove(pool_key) =~= pools);
}

} // verus!
