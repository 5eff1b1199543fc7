//! A latch that lets one pass and falls shut.

use vstd::prelude::*;

verus! {

/// A latch that falls shut behind the first who passes: for something that must
/// not be begun again while it is under way, or not until it is allowed anew.
#[derive(Debug)]
pub struct Latch {
    shut: bool,
}

impl View for Latch {
    type V = bool;

    /// Whether the latch is shut.
    closed spec fn view(&self) -> bool {
        self.shut
    }
}

impl Latch {
    /// An open latch.
    pub fn new() -> (latch: Latch)
        ensures
            !latch@,
    {
        Latch { shut: false }
    }

    /// Passes if the latch is open, and leaves it shut; says whether it was open.
    pub fn enter(&mut self) -> (entered: bool)
        ensures
            (final(self)@, entered) == attempt(old(self)@),
    {
        let entered = !self.shut;
        self.shut = true;
        entered
    }

    /// Opens the latch.
    pub fn leave(&mut self)
        ensures
            !final(self)@,
    {
        self.shut = false;
    }
}

/// An attempt to pass a latch: whether it is shut afterwards, and the answer.
pub open spec fn attempt(shut: bool) -> (bool, bool) {
    (true, !shut)
}

/// The answers to `n` attempts to pass a latch that nobody opens.
pub open spec fn answers(shut: bool, n: nat) -> Seq<bool>
    decreases n,
{
    if n == 0 {
        seq![]
    } else {
        seq![attempt(shut).1] + answers(attempt(shut).0, (n - 1) as nat)
    }
}

proof fn lemma_shut_latch_refuses(n: nat)
    ensures
        answers(true, n).len() == n,
        forall|i: int| 0 <= i < n ==> !answers(true, n)[i],
    decreases n,
{
    if n > 0 {
        lemma_shut_latch_refuses((n - 1) as nat);
    }
}

/// Of any number of attempts to pass an open latch that nobody opens again, the
/// first one passes and no other does.
pub proof fn law_one_entry(n: nat)
    ensures
        answers(false, n).len() == n,
        forall|i: int| 0 <= i < n ==> (answers(false, n)[i] <==> i == 0),
{
    if n > 0 {
        lemma_shut_latch_refuses((n - 1) as nat);
    }
}

}
