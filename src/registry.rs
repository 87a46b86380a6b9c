use vstd::prelude::*;
use crate::registers::MAX_LINES;

verus! {

/// The outcome of checking out `line`: whether it succeeds, and the flags
/// after. It succeeds exactly when the line is in range and free.
pub open spec fn claim(taken: Seq<bool>, line: u8) -> (bool, Seq<bool>) {
    if line < MAX_LINES && !taken[line as int] {
        (true, taken.update(line as int, true))
    } else {
        (false, taken)
    }
}

/// The flags after `line` is returned.
pub open spec fn released(taken: Seq<bool>, line: u8) -> Seq<bool> {
    taken.update(line as int, false)
}

/// Checking out a line twice without returning it fails the second time;
/// once it is returned, a third checkout succeeds.
pub proof fn lemma_checkout_exclusive(taken: Seq<bool>, line: u8)
    requires
        taken.len() == MAX_LINES,
        line < MAX_LINES,
    ensures
        ({
            let (first, t1) = claim(taken, line);
            let (second, t2) = claim(t1, line);
            let (third, _) = claim(released(t2, line), line);
            &&& first == !taken[line as int]
            &&& !second
            &&& third
        }),
{
}

/// Process-wide arbitration: whether a facade instance is live, and which
/// lines are checked out. Outlives any single facade.
#[derive(Debug)]
pub struct LineRegistry {
    instance: bool,
    taken: Vec<bool>,
}

/// What the registry records: the instance flag and one flag per line.
pub struct RegistryView {
    pub instance: bool,
    pub taken: Seq<bool>,
}

impl View for LineRegistry {
    type V = RegistryView;

    closed spec fn view(&self) -> RegistryView {
        RegistryView { instance: self.instance, taken: self.taken@ }
    }
}

impl LineRegistry {
    pub open spec fn wf(&self) -> bool {
        self@.taken.len() == MAX_LINES
    }

    /// A registry with no instance and no line taken.
    pub fn new() -> (r: LineRegistry)
        ensures
            r.wf(),
            !r@.instance,
            forall|i: int| 0 <= i < MAX_LINES ==> !r@.taken[i],
    {
        let mut taken: Vec<bool> = Vec::new();
        let mut i: usize = 0;
        while i < MAX_LINES
            invariant
                i <= MAX_LINES,
                taken@.len() == i,
                forall|k: int| 0 <= k < i ==> !taken@[k],
            decreases MAX_LINES - i,
        {
            taken.push(false);
            i = i + 1;
        }
        LineRegistry { instance: false, taken }
    }

    /// Whether the registry holds one flag per line.
    pub fn is_well_formed(&self) -> (r: bool)
        ensures
            r == self.wf(),
    {
        self.taken.len() == MAX_LINES
    }

    /// Whether a facade instance is live.
    pub fn instance_claimed(&self) -> (r: bool)
        ensures
            r == self@.instance,
    {
        self.instance
    }

    /// Claims the single facade instance; true exactly when none was live.
    pub fn try_claim_instance(&mut self) -> (r: bool)
        ensures
            r == !old(self)@.instance,
            final(self)@.instance,
            final(self)@.taken == old(self)@.taken,
    {
        if self.instance {
            false
        } else {
            self.instance = true;
            true
        }
    }

    /// Releases the facade instance.
    pub fn release_instance(&mut self)
        ensures
            !final(self)@.instance,
            final(self)@.taken == old(self)@.taken,
    {
        self.instance = false;
    }

    /// Whether `line` is checked out; false for a line out of range.
    pub fn is_taken(&self, line: u8) -> (r: bool)
        requires
            self.wf(),
        ensures
            r == (line < MAX_LINES && self@.taken[line as int]),
    {
        (line as usize) < MAX_LINES && self.taken[line as usize]
    }

    /// Checks out `line`; true exactly when it is in range and was free.
    pub fn try_claim_line(&mut self, line: u8) -> (r: bool)
        requires
            old(self).wf(),
        ensures
            final(self).wf(),
            (r, final(self)@.taken) == claim(old(self)@.taken, line),
            final(self)@.instance == old(self)@.instance,
    {
        if (line as usize) >= MAX_LINES || self.taken[line as usize] {
            false
        } else {
            self.taken.set(line as usize, true);
            true
        }
    }

    /// Returns `line` to the free pool.
    pub fn release_line(&mut self, line: u8)
        requires
            old(self).wf(),
            line < MAX_LINES,
        ensures
            final(self).wf(),
            final(self)@.instance == old(self)@.instance,
            final(self)@.taken == released(old(self)@.taken, line),
    {
        self.taken.set(line as usize, false);
    }
}

} // verus!
