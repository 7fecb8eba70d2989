//! History that lives in memory only.
use vstd::prelude::*;

use super::{meta_of, newest_first_within, HistoryMeta, HistoryTurn, TokenBudget};

verus! {

/// A store backed by a list. Not persistent.
#[derive(Debug)]
pub struct InMemoryHistory {
    turns: Vec<HistoryTurn>,
}

impl View for InMemoryHistory {
    type V = Seq<super::TurnView>;

    closed spec fn view(&self) -> Seq<super::TurnView> {
        crate::text::views(self.turns@)
    }
}

impl InMemoryHistory {
    /// An empty store.
    #[must_use]
    pub fn new() -> (r: Self)
        ensures
            r@ == Seq::<super::TurnView>::empty(),
    {
        let r = InMemoryHistory { turns: Vec::new() };
        assert(r@ =~= Seq::<super::TurnView>::empty());
        r
    }

    /// Append a finalized turn.
    pub fn append(&mut self, turn: HistoryTurn)
        ensures
            final(self)@ == old(self)@.push(turn@),
    {
        self.turns.push(turn);
        assert(self@ =~= old(self)@.push(turn@));
    }

    /// The newest turns, newest first, whose estimates fit `budget`.
    pub fn load_within_budget(&self, budget: TokenBudget) -> (r: Vec<HistoryTurn>)
        ensures
            crate::text::views(r@) == super::newest_within(self@, budget.0 as int),
    {
        newest_first_within(self.turns.as_slice(), budget)
    }

    /// Drop all stored turns.
    pub fn clear(&mut self)
        ensures
            final(self)@ == Seq::<super::TurnView>::empty(),
    {
        self.turns.clear();
        assert(self@ =~= Seq::<super::TurnView>::empty());
    }

    /// Metadata of the store for the given budget.
    pub fn meta(&self, budget: TokenBudget) -> (r: HistoryMeta)
        requires
            super::total_cost(self@) <= u32::MAX,
        ensures
            r.turns == self@.len(),
            r.token_estimate == super::total_cost(self@),
            r.budget == budget.0,
    {
        meta_of(self.turns.as_slice(), budget)
    }
}

} // verus!
