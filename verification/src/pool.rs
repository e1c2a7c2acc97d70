//! The virtual vector-register pool: a fixed set of 32 slots with a free/used
//! bitset.
//!
//! Slot 0 is reserved for the mask-register convention and never handed out;
//! slots 1 to 31 are allocatable.  `allocate` hands out a free slot (the lowest,
//! though callers should rely only on it being free) or reports exhaustion;
//! `free` returns a slot, and freeing a slot that is not in use is an
//! internal-consistency error, never silent.

use vstd::prelude::*;

verus! {

/// The number of addressable vector-register slots.
pub open spec fn pool_size() -> int {
    32
}

/// An engine bug surfaced by the allocator or the binding table: these are
/// never user diagnostics, and stop the lowering pass at once.
#[derive(Clone, Copy, Debug, PartialEq, Eq, Structural)]
pub enum InternalError {
    /// A register binding was freed although its `freed` flag was already
    /// set.
    DoubleFree { expr_id: usize },
    /// An expression that must have a register binding has none.
    MissingBinding { expr_id: usize },
    /// A pool slot was returned that the pool does not consider in use.
    FreeUnused { reg: u8 },
    /// The two operand bindings of one operation carry different widths.
    BindingWidth { expr_id: usize },
}

/// The virtual register pool.
#[derive(Clone, Copy, Debug)]
pub struct RegisterPool {
    pub used: [bool; 32],
}

/// The lowest allocatable slot at or above `i` that is free, if any.
pub open spec fn spec_first_free(used: [bool; 32], i: int) -> Option<u8>
    decreases 32 - i,
{
    if i < 1 || i >= 32 {
        None
    } else if !used[i] {
        Some(i as u8)
    } else {
        spec_first_free(used, i + 1)
    }
}

impl RegisterPool {
    /// Slot `i` is currently in use.
    pub open spec fn is_used(&self, i: int) -> bool {
        self.used[i]
    }

    /// No allocatable slot is in use.
    pub open spec fn all_free(&self) -> bool {
        forall|i: int| 1 <= i < 32 ==> !self.is_used(i)
    }

    /// A fresh pool: the reserved slot is marked used, all others are free.
    pub fn new() -> (r: RegisterPool)
        ensures
            r.is_used(0),
            r.all_free(),
    {
        let mut used = [false; 32];
        used[0] = true;
        RegisterPool { used }
    }

    /// Hand out a free slot and mark it used, or report exhaustion.  On
    /// success the slot returned was free and is the only slot whose state
    /// changes; on exhaustion every allocatable slot was already in use and
    /// nothing changes, so a full pool can never hand out a duplicate.
    pub fn allocate(&mut self) -> (r: Option<u8>)
        ensures
            r == spec_first_free(old(self).used, 1),
            match r {
                Some(v) => 1 <= v < 32 && !old(self).is_used(v as int) && final(self).is_used(
                    v as int,
                ) && (forall|i: int|
                    0 <= i < 32 && i != v ==> final(self).is_used(i) == old(self).is_used(i)),
                None => *final(self) == *old(self) && (forall|i: int|
                    1 <= i < 32 ==> old(self).is_used(i)),
            },
    {
        let mut v: usize = 1;
        while v < 32
            invariant
                1 <= v <= 32,
                *self == *old(self),
                forall|i: int| 1 <= i < v ==> old(self).is_used(i),
                spec_first_free(old(self).used, 1) == spec_first_free(old(self).used, v as int),
            decreases 32 - v,
        {
            if !self.used[v] {
                self.used[v] = true;
                return Some(v as u8);
            }
            v += 1;
        }
        None
    }

    /// Return a slot to the pool.  Freeing a slot that is not in use reports
    /// an internal-consistency error and changes nothing.
    pub fn free(&mut self, reg: u8) -> (r: Result<(), InternalError>)
        ensures
            match r {
                Ok(()) => 1 <= reg < 32 && old(self).is_used(reg as int) && !final(self).is_used(
                    reg as int,
                ) && (forall|i: int|
                    0 <= i < 32 && i != reg ==> final(self).is_used(i) == old(self).is_used(i)),
                Err(e) => *final(self) == *old(self) && e == (InternalError::FreeUnused { reg })
                    && (reg == 0 || reg >= 32 || !old(self).is_used(reg as int)),
            },
            r is Ok <==> (1 <= reg < 32 && old(self).is_used(reg as int)),
    {
        if reg == 0 || reg >= 32 {
            return Err(InternalError::FreeUnused { reg });
        }
        if !self.used[reg as usize] {
            return Err(InternalError::FreeUnused { reg });
        }
        self.used[reg as usize] = false;
        Ok(())
    }
}

/// The pool agrees with a set of live slots: an allocatable slot is marked
/// used exactly when the set holds it.
pub open spec fn pool_matches(p: RegisterPool, live: Set<int>) -> bool {
    forall|i: int| 1 <= i < 32 ==> (p.is_used(i) <==> live.contains(i))
}

/// Pool soundness under allocation: starting from a pool that agrees with the
/// live set, a successful allocation yields a slot outside the set, and the
/// pool then agrees with the set extended by that slot; an exhaustion report
/// leaves the agreement as it was, and happens exactly when every slot is
/// live.
pub proof fn lemma_alloc_accounting(pre: RegisterPool, post: RegisterPool, r: Option<u8>, live: Set<
    int,
>)
    requires
        pool_matches(pre, live),
        match r {
            Some(v) => 1 <= v < 32 && !pre.is_used(v as int) && post.is_used(v as int) && (forall|
                i: int,
            |
                0 <= i < 32 && i != v ==> post.is_used(i) == pre.is_used(i)),
            None => post == pre && (forall|i: int| 1 <= i < 32 ==> pre.is_used(i)),
        },
    ensures
        match r {
            Some(v) => !live.contains(v as int) && pool_matches(post, live.insert(v as int)),
            None => pool_matches(post, live) && (forall|i: int| 1 <= i < 32 ==> live.contains(i)),
        },
{
}

/// Pool soundness under release: returning a live slot keeps the pool in
/// agreement with the live set less that slot.
pub proof fn lemma_free_accounting(pre: RegisterPool, post: RegisterPool, reg: u8, live: Set<int>)
    requires
        pool_matches(pre, live),
        1 <= reg < 32,
        pre.is_used(reg as int),
        !post.is_used(reg as int),
        forall|i: int| 0 <= i < 32 && i != reg ==> post.is_used(i) == pre.is_used(i),
    ensures
        live.contains(reg as int),
        pool_matches(post, live.remove(reg as int)),
{
}

} // verus!
