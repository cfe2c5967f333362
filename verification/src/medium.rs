use vstd::prelude::*;

verus! {

/// The mediums a ray is travelling through, in the order in which it
/// entered them: entering a medium pushes it, leaving one pops the
/// medium entered last.
#[derive(Debug, Clone)]
pub struct Mediums<M> {
    mediums: Vec<M>,
}

impl<M> View for Mediums<M> {
    type V = Seq<M>;

    /// The mediums, first entered first.
    closed spec fn view(&self) -> Seq<M> {
        self.mediums@
    }
}

impl<M> Mediums<M> {
    /// No medium at all.
    pub fn new() -> (res: Self)
        ensures
            res@ == Seq::<M>::empty(),
    {
        Self { mediums: Vec::new() }
    }

    /// Records that the ray entered `medium`.
    pub fn add_medium(&mut self, medium: M)
        ensures
            final(self)@ == old(self)@.push(medium),
    {
        self.mediums.push(medium);
    }

    /// Records that the ray left the medium entered last and gives it
    /// back, or gives `None` when there is no medium.
    pub fn remove_medium(&mut self) -> (res: Option<M>)
        ensures
            old(self)@.len() == 0 ==> res is None && final(self)@ == old(self)@,
            old(self)@.len() > 0 ==> res == Some(old(self)@.last()) && final(self)@
                == old(self)@.drop_last(),
    {
        self.mediums.pop()
    }

    /// The medium the ray entered last, the one it is in now (the one
    /// `remove_medium` would give back), or `None` when there is none.
    pub fn get_lastest_medium(&self) -> (res: Option<&M>)
        ensures
            self@.len() == 0 ==> res is None,
            self@.len() > 0 ==> res == Some(&self@.last()),
    {
        self.mediums.last()
    }

    pub fn get_number_of_mediums(&self) -> (res: usize)
        ensures
            res == self@.len(),
    {
        self.mediums.len()
    }
}

impl<M> Default for Mediums<M> {
    fn default() -> (res: Self)
        ensures
            res@ == Seq::<M>::empty(),
    {
        Self::new()
    }
}

/// Entering a medium and then leaving one gives that medium back and
/// leaves the mediums as they were before.
pub proof fn law_leave_undoes_enter<M>(before: Mediums<M>, after: Mediums<M>, medium: M)
    requires
        after@ == before@.push(medium),
    ensures
        after@.len() > 0,
        after@.last() == medium,
        after@.drop_last() == before@,
{
    assert(after@.drop_last() =~= before@);
}

} // verus!
