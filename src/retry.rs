//! The retry budget of a fallible action: up to three attempts, every
//! failure kept.
use crate::text::views;
use vstd::prelude::*;

verus! {

/// How many times an action is attempted before giving up.
pub const MAX_ATTEMPTS: usize = 3;

/// The failures of an action so far, while attempts are left.
pub struct RetryBudget {
    errors: Vec<String>,
}

/// The failures of every attempt, oldest first, once none is left.
pub struct AggregateError {
    pub errors: Vec<String>,
}

impl View for RetryBudget {
    type V = Seq<Seq<char>>;

    closed spec fn view(&self) -> Seq<Seq<char>> {
        views(self.errors@)
    }
}

impl RetryBudget {
    /// Attempts are left after the failures recorded so far.
    pub open spec fn wf(&self) -> bool {
        self@.len() < MAX_ATTEMPTS
    }

    /// The budget before the first attempt.
    pub fn new() -> (r: RetryBudget)
        ensures
            r@ == Seq::<Seq<char>>::empty(),
            r.wf(),
    {
        let r = RetryBudget { errors: Vec::new() };
        assert(r@ =~= Seq::<Seq<char>>::empty());
        r
    }

    /// How many attempts have failed so far.
    pub fn failures(&self) -> (r: usize)
        ensures
            r == self@.len(),
    {
        self.errors.len()
    }

    /// Records the failure of an attempt.  While attempts are left this
    /// gives the budget back, and the caller runs its recovery action, if it
    /// has one, and tries again; after the last attempt it gives up with
    /// every failure, oldest first.
    pub fn after_failure(self, error: String) -> (r: Result<RetryBudget, AggregateError>)
        requires
            self.wf(),
        ensures
            self@.len() + 1 < MAX_ATTEMPTS ==> (r matches Ok(b) && b@ == self@.push(error@) && b.wf()),
            self@.len() + 1 == MAX_ATTEMPTS ==> (r matches Err(e) && views(e.errors@) == self@.push(
                error@,
            )),
    {
        let mut errors = self.errors;
        let ghost before = views(errors@);
        errors.push(error);
        assert(views(errors@) =~= before.push(error@));
        if errors.len() < MAX_ATTEMPTS {
            Ok(RetryBudget { errors })
        } else {
            Err(AggregateError { errors })
        }
    }
}

} // verus!
