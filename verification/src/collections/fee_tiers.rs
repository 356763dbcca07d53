//! The fee tiers on which pools can be created, in the order they were added.
use vstd::prelude::*;
use crate::errors::InvariantError;
use crate::storage::fee_tier::FeeTier;

verus! {

/// The fee tiers, each at most once.
pub struct FeeTiers {
    fee_tiers: Vec<FeeTier>,
}

impl FeeTiers {
    /// The fee tiers in the order they were added.
    pub closed spec fn view(&self) -> Seq<FeeTier> {
        self.fee_tiers@
    }

    /// No fee tier occurs twice.
    pub open spec fn wf(&self) -> bool {
        self.view().no_duplicates()
    }

    /// No fee tiers.
    pub fn default() -> (r: FeeTiers)
        ensures
            r.wf(),
            r@ == Seq::<FeeTier>::empty(),
    {
        FeeTiers { fee_tiers: Vec::new() }
    }

    /// Appends a fee tier that is not there yet; an error where it is.
    pub fn add(&mut self, fee_tier: FeeTier) -> (r: Result<(), InvariantError>)
        requires
            old(self).wf(),
        ensures
            final(self).wf(),
            old(self)@.contains(fee_tier) ==> r == Err::<(), InvariantError>(InvariantError::FeeTierAlreadyExist)
                && final(self)@ == old(self)@,
            !old(self)@.contains(fee_tier) ==> r == Ok::<(), InvariantError>(())
                && final(self)@ == old(self)@.push(fee_tier),
    {
        if self.contains(fee_tier) {
            return Err(InvariantError::FeeTierAlreadyExist);
        }
        self.fee_tiers.push(fee_tier);
        Ok(())
    }

    /// Takes a fee tier out, keeping the order of the others; an error where
    /// it is not there.
    pub fn remove(&mut self, fee_tier: FeeTier) -> (r: Result<(), InvariantError>)
        requires
            old(self).wf(),
        ensures
            final(self).wf(),
            !final(self)@.contains(fee_tier),
            old(self)@.contains(fee_tier) ==> r == Ok::<(), InvariantError>(())
                && final(self)@ == old(self)@.remove(old(self)@.index_of(fee_tier)),
            !old(self)@.contains(fee_tier) ==> r == Err::<(), InvariantError>(InvariantError::FeeTierNotFound)
                && final(self)@ == old(self)@,
    {
        let index = match self.position(fee_tier) {
            Some(i) => i,
            None => return Err(InvariantError::FeeTierNotFound),
        };
        let ghost s = self.fee_tiers@;
        self.fee_tiers.remove(index);
        proof {
            let j = s.index_of(fee_tier);
            assert(s[j] == fee_tier);
            assert(j == index);
            assert forall|a: int, b: int| 0 <= a < self.fee_tiers@.len() && 0 <= b < self.fee_tiers@.len() && a != b
                implies self.fee_tiers@[a] != self.fee_tiers@[b] by {
                let a0 = if a < index { a } else { a + 1 };
                let b0 = if b < index { b } else { b + 1 };
                assert(self.fee_tiers@[a] == s[a0]);
                assert(self.fee_tiers@[b] == s[b0]);
            }
            if self.fee_tiers@.contains(fee_tier) {
                let k = choose|k: int| 0 <= k < self.fee_tiers@.len() && self.fee_tiers@[k] == fee_tier;
                let k0 = if k < index { k } else { k + 1 };
                assert(s[k0] == fee_tier);
            }
        }
        Ok(())
    }

    /// The place of a fee tier, if it is there.
    fn position(&self, fee_tier: FeeTier) -> (r: Option<usize>)
        ensures
            r is None <==> !self@.contains(fee_tier),
            r matches Some(i) ==> i < self@.len() && self@[i as int] == fee_tier,
    {
        let mut i: usize = 0;
        while i < self.fee_tiers.len()
            invariant
                i <= self.fee_tiers@.len(),
                forall|j: int| 0 <= j < i ==> self.fee_tiers@[j] != fee_tier,
            decreases self.fee_tiers@.len() - i,
        {
            if self.fee_tiers[i] == fee_tier {
                return Some(i);
            }
            i = i + 1;
        }
        None
    }

    /// Whether a fee tier is there.
    pub fn contains(&self, fee_tier: FeeTier) -> (r: bool)
        ensures
            r == self@.contains(fee_tier),
    {
        self.position(fee_tier).is_some()
    }

    /// All fee tiers, in the order they were added.
    pub fn get_all(&self) -> (r: Vec<FeeTier>)
        ensures
            r@ == self@,
    {
        let mut all: Vec<FeeTier> = Vec::new();
        let mut i: usize = 0;
        while i < self.fee_tiers.len()
            invariant
                i <= self.fee_tiers@.len(),
                all@ == self.fee_tiers@.subrange(0, i as int),
            decreases self.fee_tiers@.len() - i,
        {
            all.push(self.fee_tiers[i]);
            i = i + 1;
            assert(all@ =~= self.fee_tiers@.subrange(0, i as int));
        }
        assert(all@ =~= self.fee_tiers@);
        all
    }
}

/// Removing a fee tier undoes adding it: the tiers are as before.
pub proof fn law_fee_tiers_remove_undoes_add(tiers: Seq<FeeTier>, fee_tier: FeeTier)
    requires
        tiers.no_duplicates(),
        !tiers.contains(fee_tier),
    ensures
        tiers.push(fee_tier).remove(tiers.push(fee_tier).index_of(fee_tier)) == tiers,
{
    let s = tiers.push(fee_tier);
    assert(s[tiers.len() as int] == fee_tier);
    let j = s.index_of(fee_tier);
    assert(0 <= j < s.len() && s[j] == fee_tier);
    if j < tiers.len() {
        assert(tiers[j] == fee_tier);
    }
    assert(j == tiers.len());
    assert(s.remove(j) =~= tiers);
}

} // verus!
