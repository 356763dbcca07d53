//! The initialized ticks of all pools, by pool key and index.
use vstd::prelude::*;
use crate::collections::mapping::{KeyEq, Mapping};
use crate::errors::InvariantError;
use crate::storage::pool_key::PoolKey;
use crate::storage::tick::Tick;

verus! {

/// The place of a tick: its pool and its index.
#[derive(Clone, Copy, Debug, PartialEq, Eq, Structural)]
pub struct TickKey {
    pub pool_key: PoolKey,
    pub index: i32,
}

impl KeyEq for TickKey {
    fn key_eq(&self, other: &Self) -> (r: bool) {
        *self == *other
    }
}

/// The ticks, each under its pool's key and its index. A removed tick
/// leaves an empty slot.
pub struct Ticks {
    ticks: Mapping<TickKey, Option<Tick>>,
}

impl Ticks {
    /// The ticks that exist, by pool key and index.
    pub closed spec fn view(&self) -> Map<(PoolKey, i32), Tick> {
        Map::new(
            |k: (PoolKey, i32)| self.ticks@.dom().contains(TickKey { pool_key: k.0, index: k.1 })
                && self.ticks@[TickKey { pool_key: k.0, index: k.1 }] is Some,
            |k: (PoolKey, i32)| self.ticks@[TickKey { pool_key: k.0, index: k.1 }]->0,
        )
    }

    pub closed spec fn wf(&self) -> bool {
        self.ticks.wf()
    }

    /// No ticks.
    pub fn default() -> (r: Ticks)
        ensures
            r.wf(),
            r@ == Map::<(PoolKey, i32), Tick>::empty(),
    {
        let r = Ticks { ticks: Mapping::new() };
        assert(r@ =~= Map::<(PoolKey, i32), Tick>::empty());
        r
    }

    /// Adds a tick where there is none; an error where one exists.
    pub fn add(&mut self, pool_key: PoolKey, index: i32, tick: &Tick) -> (r: Result<(), InvariantError>)
        requires
            old(self).wf(),
        ensures
            final(self).wf(),
            old(self)@.dom().contains((pool_key, index)) ==> r == Err::<(), InvariantError>(InvariantError::TickAlreadyExist)
                && final(self)@ == old(self)@,
            !old(self)@.dom().contains((pool_key, index)) ==> r == Ok::<(), InvariantError>(())
                && final(self)@ == old(self)@.insert((pool_key, index), *tick),
    {
        match self.get(pool_key, index) {
            Ok(_) => return Err(InvariantError::TickAlreadyExist),
            Err(_) => {},
        }
        self.ticks.set(&TickKey { pool_key, index }, Some(*tick));
        assert(self@ =~= old(self)@.insert((pool_key, index), *tick));
        Ok(())
    }

    /// Replaces a tick; an error where there is none.
    pub fn update(&mut self, pool_key: PoolKey, index: i32, tick: &Tick) -> (r: Result<(), InvariantError>)
        requires
            old(self).wf(),
        ensures
            final(self).wf(),
            old(self)@.dom().contains((pool_key, index)) ==> r == Ok::<(), InvariantError>(())
                && final(self)@ == old(self)@.insert((pool_key, index), *tick),
            !old(self)@.dom().contains((pool_key, index)) ==> r == Err::<(), InvariantError>(InvariantError::TickNotFound)
                && final(self)@ == old(self)@,
    {
        match self.get(pool_key, index) {
            Ok(_) => {},
            Err(e) => return Err(e),
        }
        self.ticks.set(&TickKey { pool_key, index }, Some(*tick));
        assert(self@ =~= old(self)@.insert((pool_key, index), *tick));
        Ok(())
    }

    /// Removes a tick; an error where there is none.
    pub fn remove(&mut self, pool_key: PoolKey, index: i32) -> (r: Result<(), InvariantError>)
        requires
            old(self).wf(),
        ensures
            final(self).wf(),
            old(self)@.dom().contains((pool_key, index)) ==> r == Ok::<(), InvariantError>(())
                && final(self)@ == old(self)@.remove((pool_key, index)),
            !old(self)@.dom().contains((pool_key, index)) ==> r == Err::<(), InvariantError>(InvariantError::TickNotFound)
                && final(self)@ == old(self)@,
    {
        match self.get(pool_key, index) {
            Ok(_) => {},
            Err(e) => return Err(e),
        }
        self.ticks.set(&TickKey { pool_key, index }, None);
        assert(self@ =~= old(self)@.remove((pool_key, index)));
        Ok(())
    }

    /// The tick at `index` of a pool; an error where there is none.
    pub fn get(&self, pool_key: PoolKey, index: i32) -> (r: Result<Tick, InvariantError>)
        requires
            self.wf(),
        ensures
            self@.dom().contains((pool_key, index)) ==> r == Ok::<Tick, InvariantError>(self@[(pool_key, index)]),
            !self@.dom().contains((pool_key, index)) ==> r == Err::<Tick, InvariantError>(InvariantError::TickNotFound),
    {
        match self.ticks.get(&TickKey { pool_key, index }) {
            Some(Some(tick)) => Ok(tick),
            _ => Err(InvariantError::TickNotFound),
        }
    }
}

/// Removing a tick undoes adding it: the ticks are as before.
pub proof fn law_ticks_remove_undoes_add(ticks: Map<(PoolKey, i32), Tick>, pool_key: PoolKey, index: i32, tick: Tick)
    requires
        !ticks.dom().contains((pool_key, index)),
    ensures
        ticks.insert((pool_key, index), tick).remove((pool_key, index)) == ticks,
{
    assert(ticks.insert((pool_key, index), tick).remove((pool_key, index)) =~= ticks);
}

} // verus!
