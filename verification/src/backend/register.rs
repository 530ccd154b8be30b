use vstd::array::ArrayAdditionalExecFns;
use vstd::prelude::*;

verus! {

/// The list `free` without every occurrence of `index`.
pub open spec fn without(free: Seq<usize>, index: usize) -> Seq<usize>
    decreases free.len(),
{
    if free.len() == 0 {
        free
    } else if free.last() == index {
        without(free.drop_last(), index)
    } else {
        without(free.drop_last(), index).push(free.last())
    }
}

/// Manages registers of any kind.
pub struct RegMgr<const N: usize> {
    /// Array of booleans representing whether register `i` is free or not.
    registers: [bool; N],
    /// All free registers.
    free: Vec<usize>,
}

impl<const N: usize> RegMgr<N> {
    /// Whether each register is marked as free.
    pub closed spec fn registers(&self) -> Seq<bool> {
        self.registers@
    }

    /// The registers that can be handed out, the next one last.
    pub closed spec fn free(&self) -> Seq<usize> {
        self.free@
    }

    /// Create a manager of `N` registers that are all in use.
    pub fn new() -> (mgr: Self)
        ensures
            mgr.registers() == Seq::new(N as nat, |i: int| false),
            mgr.free() == Seq::<usize>::empty(),
    {
        let mgr = RegMgr { registers: [false;N], free: Vec::new() };
        assert(mgr.registers() =~= Seq::new(N as nat, |i: int| false));
        mgr
    }

    /// Given its index, checks whether a register is currently free or not.
    pub fn is_free(&self, index: usize) -> (free: bool)
        requires
            index < N,
        ensures
            free == self.registers()[index as int],
    {
        self.registers[index]
    }

    /// Returns the index of a free register, or `None` if they're all occupied.
    pub fn get_free(&mut self) -> (index: Option<usize>)
        ensures
            final(self).registers() == old(self).registers(),
            match index {
                Some(index) => old(self).free().len() > 0 && index == old(self).free().last()
                    && final(self).free() == old(self).free().drop_last(),
                None => old(self).free().len() == 0 && final(self).free() == old(self).free(),
            },
    {
        self.free.pop()
    }

    /// Given its index, sets a register as free.
    pub fn set_free(&mut self, index: usize)
        requires
            index < N,
        ensures
            final(self).registers() == old(self).registers().update(index as int, true),
            final(self).free() == if old(self).registers()[index as int] {
                old(self).free()
            } else {
                old(self).free().push(index)
            },
    {
        if !self.registers[index] {
            self.registers.set(index, true);
            self.free.push(index);
        }
        assert(final(self).registers() =~= old(self).registers().update(index as int, true));
    }

    /// Given its index, sets a register as used.
    pub fn set_used(&mut self, index: usize)
        requires
            index < N,
        ensures
            final(self).registers() == old(self).registers().update(index as int, false),
            final(self).free() == without(old(self).free(), index),
    {
        self.registers.set(index, false);
        let mut kept: Vec<usize> = Vec::new();
        let mut i: usize = 0;
        assert(self.free@.take(0) =~= Seq::<usize>::empty());
        while i < self.free.len()
            invariant
                i <= self.free.len(),
                self.free@ == old(self).free@,
                kept@ == without(self.free@.take(i as int), index),
            decreases self.free.len() - i,
        {
            assert(self.free@.take(i + 1).drop_last() =~= self.free@.take(i as int));
            if self.free[i] != index {
                kept.push(self.free[i]);
            }
            i = i + 1;
        }
        assert(self.free@.take(i as int) =~= self.free@);
        self.free = kept;
    }
}

} // verus!
