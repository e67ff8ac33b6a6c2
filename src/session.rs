//! The slot that holds the shared session with the remote fetch backend:
//! empty until a session is made, emptied when the session is invalidated,
//! filled again on the next use.
use vstd::prelude::*;

verus! {

/// At most one live session.
pub struct SessionSlot<S> {
    session: Option<S>,
}

impl<S> View for SessionSlot<S> {
    type V = Option<S>;

    closed spec fn view(&self) -> Option<S> {
        self.session
    }
}

impl<S> SessionSlot<S> {
    /// A slot without a session: the first use makes one.
    pub fn new() -> (r: SessionSlot<S>)
        ensures
            r@ is None,
    {
        SessionSlot { session: None }
    }

    /// Whether the next use has to make a session first.
    pub fn needs_session(&self) -> (r: bool)
        ensures
            r == self@ is None,
    {
        self.session.is_none()
    }

    /// Puts a newly made session in the empty slot.
    pub fn install(&mut self, session: S)
        requires
            old(self)@ is None,
        ensures
            final(self)@ == Some(session),
    {
        self.session = Some(session);
    }

    /// The live session, if there is one.
    pub fn current(&self) -> (r: Option<&S>)
        ensures
            match self@ {
                Some(s) => r == Some(&s),
                None => r is None,
            },
    {
        self.session.as_ref()
    }

    /// Empties the slot and hands back the session it held, so that the
    /// caller can release it before a new one is made.
    pub fn invalidate(&mut self) -> (r: Option<S>)
        ensures
            r == old(self)@,
            final(self)@ is None,
    {
        self.session.take()
    }
}

} // verus!
