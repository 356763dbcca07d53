//! The positions of each account, numbered from zero.
use vstd::prelude::*;
use crate::address::Address;
use crate::collections::mapping::{KeyEq, Mapping};
use crate::errors::InvariantError;
use crate::storage::position::Position;

verus! {

impl KeyEq for Address {
    fn key_eq(&self, other: &Self) -> (r: bool) {
        *self == *other
    }
}

/// The place of a position: its owner and its number.
#[derive(Clone, Copy, Debug, PartialEq, Eq, Structural)]
pub struct PositionKey {
    pub account_id: Address,
    pub index: u32,
}

impl KeyEq for PositionKey {
    fn key_eq(&self, other: &Self) -> (r: bool) {
        *self == *other
    }
}

/// `s` without its element `i`, the last element taking its place.
pub open spec fn swap_remove<T>(s: Seq<T>, i: int) -> Seq<T> {
    if i < s.len() - 1 {
        s.update(i, s.last()).drop_last()
    } else {
        s.drop_last()
    }
}

/// Removing an element keeps every other one: what is left is what there
/// was, less the removed element, counted with multiplicity.
pub proof fn law_swap_remove_keeps_others<T>(s: Seq<T>, i: int)
    requires
        0 <= i < s.len(),
    ensures
        swap_remove(s, i).len() == s.len() - 1,
        swap_remove(s, i).to_multiset() =~= s.to_multiset().remove(s[i]),
{
    broadcast use vstd::seq_lib::group_seq_properties;
    let n = s.len();
    if i < n - 1 {
        let u = s.update(i, s.last());
        assert(swap_remove(s, i) =~= u.remove(n - 1));
        assert(u.remove(i) =~= s.remove(i));
        u.to_multiset_ensures();
        s.to_multiset_ensures();
        assert(u.remove(n - 1).to_multiset() =~= u.to_multiset().remove(u[n - 1]));
        assert(u.remove(i).to_multiset() =~= u.to_multiset().remove(u[i]));
    } else {
        assert(swap_remove(s, i) =~= s.remove(i));
        s.to_multiset_ensures();
    }
}

/// A transfer between two accounts moves one position: together the two
/// accounts hold the same positions as before.
pub proof fn law_transfer_keeps_positions(v: Map<Address, Seq<Position>>, account_id: Address, index: int,
    receiver_account_id: Address)
    requires
        account_id != receiver_account_id,
        0 <= index < v[account_id].len(),
    ensures
        ({
            let removed = v.insert(account_id, swap_remove(v[account_id], index));
            let after = removed.insert(receiver_account_id, removed[receiver_account_id].push(v[account_id][index]));
            after[account_id].to_multiset().add(after[receiver_account_id].to_multiset())
                =~= v[account_id].to_multiset().add(v[receiver_account_id].to_multiset())
        }),
{
    broadcast use vstd::seq_lib::group_seq_properties;
    let s = v[account_id];
    let t = v[receiver_account_id];
    law_swap_remove_keeps_others(s, index);
    t.to_multiset_ensures();
    assert(t.push(s[index]).to_multiset() =~= t.to_multiset().insert(s[index]));
    s.to_multiset_ensures();
    assert(s.to_multiset().count(s[index]) > 0);
}

/// The positions of each account: numbers `0..n` hold the account's `n`
/// positions, and no number beyond.
pub struct Positions {
    positions_length: Mapping<Address, u32>,
    positions: Mapping<PositionKey, Option<Position>>,
}

impl Positions {
    closed spec fn len_of(&self, account_id: Address) -> nat {
        if self.positions_length@.dom().contains(account_id) { self.positions_length@[account_id] as nat } else { 0 }
    }

    closed spec fn slot(&self, account_id: Address, index: u32) -> Option<Position> {
        let k = PositionKey { account_id, index };
        if self.positions@.dom().contains(k) { self.positions@[k] } else { None }
    }

    /// The positions of each account, in the order of their numbers.
    pub closed spec fn view(&self) -> Map<Address, Seq<Position>> {
        Map::new(
            |a: Address| true,
            |a: Address| Seq::new(self.len_of(a), |i: int| self.slot(a, i as u32)->0),
        )
    }

    pub closed spec fn wf(&self) -> bool {
        &&& self.positions_length.wf()
        &&& self.positions.wf()
        &&& forall|a: Address, i: u32| #[trigger] self.slot(a, i) is Some <==> i < self.len_of(a)
    }

    /// No positions.
    pub fn default() -> (r: Positions)
        ensures
            r.wf(),
            forall|a: Address| #[trigger] r@[a] == Seq::<Position>::empty(),
    {
        let r = Positions { positions_length: Mapping::new(), positions: Mapping::new() };
        assert forall|a: Address| #[trigger] r@[a] == Seq::<Position>::empty() by {
            assert(r@[a] =~= Seq::<Position>::empty());
        }
        r
    }

    /// The number of positions of an account.
    pub fn get_length(&self, account_id: Address) -> (r: u32)
        requires
            self.wf(),
        ensures
            r == self@[account_id].len(),
    {
        match self.positions_length.get(&account_id) {
            Some(l) => l,
            None => 0,
        }
    }

    /// Position `index` of an account, if it has one.
    pub fn get(&self, account_id: Address, index: u32) -> (r: Option<Position>)
        requires
            self.wf(),
        ensures
            r == (if index < self@[account_id].len() { Some(self@[account_id][index as int]) } else { None::<Position> }),
    {
        let r = match self.positions.get(&PositionKey { account_id, index }) {
            Some(p) => p,
            None => None,
        };
        assert(r == self.slot(account_id, index));
        r
    }

    /// Appends a position to an account's positions. The number of positions
    /// is held in a `u32`.
    pub fn add(&mut self, account_id: Address, position: &Position)
        requires
            old(self).wf(),
            old(self)@[account_id].len() < u32::MAX,
        ensures
            final(self).wf(),
            final(self)@ == old(self)@.insert(account_id, old(self)@[account_id].push(*position)),
    {
        let n = self.get_length(account_id);
        self.positions.set(&PositionKey { account_id, index: n }, Some(*position));
        self.positions_length.set(&account_id, n + 1);
        proof {
            assert forall|a: Address, i: u32| #[trigger] self.slot(a, i)
                == (if a == account_id && i == n { Some(*position) } else { old(self).slot(a, i) }) by {}
            assert forall|a: Address| #[trigger] self.len_of(a)
                == (if a == account_id { (n + 1) as nat } else { old(self).len_of(a) }) by {}
            assert forall|a: Address, i: u32| #[trigger] self.slot(a, i) is Some <==> i < self.len_of(a) by {
                assert(old(self).slot(a, i) is Some <==> i < old(self).len_of(a));
            }
            let target = old(self)@.insert(account_id, old(self)@[account_id].push(*position));
            assert forall|a: Address| #[trigger] self@[a] == target[a] by {
                assert(self@[a] =~= target[a]);
            }
            assert(self@ =~= target);
        }
    }

    /// Replaces position `index` of an account; an error where it has none.
    pub fn update(&mut self, account_id: Address, index: u32, position: &Position) -> (r: Result<(), InvariantError>)
        requires
            old(self).wf(),
        ensures
            final(self).wf(),
            index < old(self)@[account_id].len() ==> r == Ok::<(), InvariantError>(())
                && final(self)@ == old(self)@.insert(account_id, old(self)@[account_id].update(index as int, *position)),
            index >= old(self)@[account_id].len() ==> r == Err::<(), InvariantError>(InvariantError::PositionNotFound)
                && final(self)@ == old(self)@,
    {
        let n = self.get_length(account_id);
        if index >= n {
            return Err(InvariantError::PositionNotFound);
        }
        self.positions.set(&PositionKey { account_id, index }, Some(*position));
        proof {
            assert forall|a: Address, i: u32| #[trigger] self.slot(a, i)
                == (if a == account_id && i == index { Some(*position) } else { old(self).slot(a, i) }) by {}
            assert forall|a: Address| #[trigger] self.len_of(a) == old(self).len_of(a) by {}
            assert forall|a: Address, i: u32| #[trigger] self.slot(a, i) is Some <==> i < self.len_of(a) by {
                assert(old(self).slot(a, i) is Some <==> i < old(self).len_of(a));
            }
            let target = old(self)@.insert(account_id, old(self)@[account_id].update(index as int, *position));
            assert forall|a: Address| #[trigger] self@[a] == target[a] by {
                assert(self@[a] =~= target[a]);
            }
            assert(self@ =~= target);
        }
        Ok(())
    }

    /// Takes position `index` out of an account's positions and returns it;
    /// the account's last position takes its number. An error where the
    /// account has no such position.
    pub fn remove(&mut self, account_id: Address, index: u32) -> (r: Result<Position, InvariantError>)
        requires
            old(self).wf(),
        ensures
            final(self).wf(),
            index < old(self)@[account_id].len() ==> r == Ok::<Position, InvariantError>(old(self)@[account_id][index as int])
                && final(self)@ == old(self)@.insert(account_id, swap_remove(old(self)@[account_id], index as int)),
            index >= old(self)@[account_id].len() ==> r == Err::<Position, InvariantError>(InvariantError::PositionNotFound)
                && final(self)@ == old(self)@,
    {
        let n = self.get_length(account_id);
        let position = match self.get(account_id, index) {
            Some(p) => p,
            None => return Err(InvariantError::PositionNotFound),
        };
        if index < n - 1 {
            let last_position = self.get(account_id, n - 1);
            self.positions.set(&PositionKey { account_id, index: n - 1 }, None);
            self.positions.set(&PositionKey { account_id, index }, last_position);
            proof {
                assert forall|a: Address, i: u32| #[trigger] self.slot(a, i)
                    == (if a == account_id && i == index { last_position }
                        else if a == account_id && i == n - 1 { None::<Position> }
                        else { old(self).slot(a, i) }) by {}
            }
        } else {
            self.positions.set(&PositionKey { account_id, index }, None);
            proof {
                assert forall|a: Address, i: u32| #[trigger] self.slot(a, i)
                    == (if a == account_id && i == index { None::<Position> } else { old(self).slot(a, i) }) by {}
            }
        }
        self.positions_length.set(&account_id, n - 1);
        proof {
            assert forall|a: Address| #[trigger] self.len_of(a)
                == (if a == account_id { (n - 1) as nat } else { old(self).len_of(a) }) by {}
            assert forall|a: Address, i: u32| #[trigger] self.slot(a, i) is Some <==> i < self.len_of(a) by {
                assert(old(self).slot(a, i) is Some <==> i < old(self).len_of(a));
                assert(old(self).slot(account_id, (n - 1) as u32) is Some);
            }
            let target = old(self)@.insert(account_id, swap_remove(old(self)@[account_id], index as int));
            assert forall|a: Address| #[trigger] self@[a] == target[a] by {
                assert(self@[a] =~= target[a]);
            }
            assert(self@ =~= target);
        }
        Ok(position)
    }

    /// Moves position `index` of an account to the end of the receiver's
    /// positions (through `remove` and `add`); an error where the account has
    /// no such position. The number of the receiver's positions is held in a
    /// `u32`.
    pub fn transfer(&mut self, account_id: Address, index: u32, receiver_account_id: Address) -> (r: Result<(), InvariantError>)
        requires
            old(self).wf(),
            index < old(self)@[account_id].len() ==> old(self)@.insert(account_id,
                swap_remove(old(self)@[account_id], index as int))[receiver_account_id].len() < u32::MAX,
        ensures
            final(self).wf(),
            index < old(self)@[account_id].len() ==> {
                let removed = old(self)@.insert(account_id, swap_remove(old(self)@[account_id], index as int));
                &&& r == Ok::<(), InvariantError>(())
                &&& final(self)@ == removed.insert(receiver_account_id,
                        removed[receiver_account_id].push(old(self)@[account_id][index as int]))
            },
            index >= old(self)@[account_id].len() ==> r == Err::<(), InvariantError>(InvariantError::PositionNotFound)
                && final(self)@ == old(self)@,
    {
        let position = match self.remove(account_id, index) {
            Ok(p) => p,
            Err(e) => return Err(e),
        };
        self.add(receiver_account_id, &position);
        Ok(())
    }

    /// All positions of an account, in the order of their numbers.
    pub fn get_all(&self, account_id: Address) -> (r: Vec<Position>)
        requires
            self.wf(),
        ensures
            r@ == self@[account_id],
    {
        let n = self.get_length(account_id);
        let mut all: Vec<Position> = Vec::new();
        let mut i: u32 = 0;
        while i < n
            invariant
                self.wf(),
                n == self@[account_id].len(),
                i <= n,
                all@ == self@[account_id].subrange(0, i as int),
            decreases n - i,
        {
            match self.get(account_id, i) {
                Some(p) => all.push(p),
                None => {},
            }
            i = i + 1;
            assert(all@ =~= self@[account_id].subrange(0, i as int));
        }
        assert(all@ =~= self@[account_id]);
        all
    }
}

/// Removing the position just added undoes the addition.
pub proof fn law_positions_remove_undoes_add(positions: Seq<Position>, position: Position)
    ensures
        swap_remove(positions.push(position), positions.len() as int) == positions,
{
    assert(swap_remove(positions.push(position), positions.len() as int) =~= positions);
}

} // verus!
