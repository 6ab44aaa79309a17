//! The interaction lock: while any holder has it, the windows take no
//! input and cannot be closed.

use crate::models::InteractionLockPayload;
use crate::text::text_of;
use vstd::prelude::*;

verus! {

pub const INTERACTION_LOCK_EVENT: &'static str = "interaction-lock";

/// How many holders the lock has, and the reason that the first of them
/// gave.
pub struct InteractionLockState {
    counter: usize,
    reason: Option<String>,
}

pub struct LockView {
    pub counter: nat,
    pub reason: Option<Seq<char>>,
}

pub open spec fn opt_text(o: Option<String>) -> Option<Seq<char>> {
    match o {
        Some(s) => Some(s@),
        None => None,
    }
}

impl View for InteractionLockState {
    type V = LockView;

    closed spec fn view(&self) -> LockView {
        LockView { counter: self.counter as nat, reason: opt_text(self.reason) }
    }
}

fn copy_opt(o: &Option<String>) -> (r: Option<String>)
    ensures
        opt_text(r) == opt_text(*o),
{
    match o {
        Some(s) => Some(text_of(s.as_str())),
        None => None,
    }
}

impl InteractionLockState {
    pub fn new() -> (s: Self)
        ensures
            s@.counter == 0,
            s@.reason is None,
    {
        InteractionLockState { counter: 0, reason: None }
    }

    /// Whether anyone holds the lock.
    pub fn is_locked(&self) -> (r: bool)
        ensures
            r == (self@.counter > 0),
    {
        self.counter > 0
    }

    /// The lock as the windows see it.
    pub fn snapshot(&self) -> (r: InteractionLockPayload)
        ensures
            r.locked == (self@.counter > 0),
            opt_text(r.reason) == self@.reason,
    {
        InteractionLockPayload { locked: self.is_locked(), reason: copy_opt(&self.reason) }
    }

    /// Takes the lock once more. The first holder's reason is kept, and the
    /// windows are told: what comes back is for them. Later holders change
    /// nothing that the windows see. A lock that cannot count another
    /// holder stays as it is.
    pub fn lock(&mut self, reason: Option<String>) -> (r: Option<InteractionLockPayload>)
        ensures
            old(self)@.counter == 0 ==> final(self)@ == (LockView {
                counter: 1,
                reason: opt_text(reason),
            }) && r is Some && r->0.locked && r->0.reason == reason,
            0 < old(self)@.counter < usize::MAX ==> final(self)@ == (LockView {
                counter: old(self)@.counter + 1,
                reason: old(self)@.reason,
            }) && r is None,
            old(self)@.counter == usize::MAX ==> final(self)@ == old(self)@ && r is None,
    {
        if self.counter == 0 {
            self.counter = 1;
            self.reason = copy_opt(&reason);
            return Some(InteractionLockPayload { locked: true, reason });
        }
        if self.counter < usize::MAX {
            self.counter = self.counter + 1;
        }
        None
    }

    /// Gives the lock back once. When the last holder does, the reason goes
    /// and the windows are told. Giving back a lock that nobody holds does
    /// nothing.
    pub fn unlock(&mut self) -> (r: Option<InteractionLockPayload>)
        ensures
            old(self)@.counter == 0 ==> final(self)@ == old(self)@ && r is None,
            old(self)@.counter == 1 ==> final(self)@ == (LockView { counter: 0, reason: None })
                && r is Some && !r->0.locked && r->0.reason is None,
            old(self)@.counter > 1 ==> final(self)@ == (LockView {
                counter: (old(self)@.counter - 1) as nat,
                reason: old(self)@.reason,
            }) && r is None,
    {
        if self.counter == 0 {
            return None;
        }
        self.counter = self.counter - 1;
        if self.counter != 0 {
            return None;
        }
        self.reason = None;
        Some(InteractionLockPayload { locked: false, reason: None })
    }
}

} // verus!
