use vstd::prelude::*;

verus! {

/// How a group member is regarded.
#[derive(Clone, Copy, Debug, PartialEq, Eq, Structural)]
pub enum Suspicion {
    Alive,
    Confirm,
    Suspect,
}

/// A member as the dissemination component tracks it: how it is regarded
/// and its incarnation, which grows each time it is suspected.
#[derive(Clone, Copy, Debug, PartialEq, Eq, Structural)]
pub struct GroupMember {
    pub suspicion: Suspicion,
    pub incarnation: u32,
}

impl GroupMember {
    /// A member regarded alive, in its first incarnation.
    pub fn init() -> (member: GroupMember)
        ensures
            member == (GroupMember { suspicion: Suspicion::Alive, incarnation: 0 }),
    {
        GroupMember { suspicion: Suspicion::Alive, incarnation: 0 }
    }

    /// Regards the member alive.
    pub fn alive(&mut self)
        ensures
            *final(self) == (GroupMember { suspicion: Suspicion::Alive, ..*old(self) }),
    {
        self.suspicion = Suspicion::Alive;
    }

    /// Regards the member as confirmed failed.
    pub fn confirm(&mut self)
        ensures
            *final(self) == (GroupMember { suspicion: Suspicion::Confirm, ..*old(self) }),
    {
        self.suspicion = Suspicion::Confirm;
    }

    /// Suspects the member, in a new incarnation.
    pub fn suspect(&mut self)
        requires
            old(self).incarnation < u32::MAX,
        ensures
            *final(self) == (GroupMember {
                suspicion: Suspicion::Suspect,
                incarnation: (old(self).incarnation + 1) as u32,
            }),
    {
        self.suspicion = Suspicion::Suspect;
        self.incarnation = self.incarnation + 1;
    }
}

} // verus!
