//! Bounded, restorable conversation history: text turns, kept within a token budget.
pub mod file;
pub mod memory;
pub mod session;

use vstd::prelude::*;
use vstd::string::*;

use crate::clock::UnixMillis;

pub use file::JsonlHistory;
pub use memory::InMemoryHistory;
pub use session::{Session, SessionIndex, SessionMeta, SessionStore, SessionSummary};

verus! {

/// Who produced a turn.
#[derive(Debug, Clone, Copy, PartialEq, Eq, Structural)]
pub enum Role {
    /// The human user.
    User,
    /// The agent.
    Assistant,
    /// A system preamble or instruction.
    System,
}

/// One persisted dialogue turn.
#[derive(Debug, PartialEq, Eq)]
pub struct HistoryTurn {
    /// Who spoke.
    pub role: Role,
    /// The finalized text.
    pub text: String,
    /// When it was recorded.
    pub ts_ms: UnixMillis,
}

/// A [`HistoryTurn`] with its text as a sequence of characters.
pub struct TurnView {
    /// Who spoke.
    pub role: Role,
    /// The finalized text.
    pub text: Seq<char>,
    /// When it was recorded.
    pub ts_ms: UnixMillis,
}

impl View for HistoryTurn {
    type V = TurnView;

    open spec fn view(&self) -> TurnView {
        TurnView { role: self.role, text: self.text@, ts_ms: self.ts_ms }
    }
}

impl Clone for HistoryTurn {
    fn clone(&self) -> (r: Self)
        ensures
            r == *self,
    {
        HistoryTurn { role: self.role, text: self.text.clone(), ts_ms: self.ts_ms }
    }
}

/// Framing overhead of one turn in a prompt, in tokens.
pub const TURN_FRAMING_TOKENS: u32 = 4;

/// The estimate for a text of `chars` characters: a quarter of them, at least one.
pub open spec fn text_tokens(chars: int) -> int {
    let n = (chars / 4) % 0x1_0000_0000;
    if n < 1 {
        1
    } else {
        n
    }
}

impl TurnView {
    /// What the turn costs in a prompt: its text and its framing.
    pub open spec fn cost(self) -> int {
        let n = text_tokens(self.text.len() as int) + TURN_FRAMING_TOKENS;
        if n > u32::MAX {
            u32::MAX as int
        } else {
            n
        }
    }
}

/// Approximate token count of `text`: a quarter of its characters, at least one.
#[must_use]
pub fn estimate_tokens(text: &str) -> (r: u32)
    ensures
        r == text_tokens(text@.len() as int),
{
    let n: usize = text.unicode_len() / 4;
    let m: u32 = (n as u64 % 0x1_0000_0000) as u32;
    if m < 1 {
        1
    } else {
        m
    }
}

impl HistoryTurn {
    /// A turn with the given role, text and timestamp.
    #[must_use]
    pub fn new(role: Role, text: &str, ts_ms: UnixMillis) -> (r: Self)
        ensures
            r@ == (TurnView { role, text: text@, ts_ms }),
    {
        HistoryTurn { role, text: text.to_owned(), ts_ms }
    }

    /// Approximate token cost of this turn as it stands in a prompt.
    #[must_use]
    pub fn token_estimate(&self) -> (r: u32)
        ensures
            r == self@.cost(),
            r >= 1,
    {
        estimate_tokens(self.text.as_str()).saturating_add(TURN_FRAMING_TOKENS)
    }
}

/// An approximate token budget bounding history.
#[derive(Debug, Clone, Copy, PartialEq, Eq, Structural)]
pub struct TokenBudget(pub u32);

/// Summary of the current history.
#[derive(Debug, Clone, Copy, PartialEq, Eq, Structural)]
pub struct HistoryMeta {
    /// Number of stored turns.
    pub turns: usize,
    /// Sum of per-turn token estimates.
    pub token_estimate: u32,
    /// The configured budget.
    pub budget: u32,
}

/// What a list of turns costs.
pub open spec fn total_cost(turns: Seq<TurnView>) -> int
    decreases turns.len(),
{
    if turns.len() == 0 {
        0
    } else {
        total_cost(turns.drop_last()) + turns.last().cost()
    }
}

/// The newest turns, newest first, taken while they fit `budget`.
pub open spec fn newest_within(turns: Seq<TurnView>, budget: int) -> Seq<TurnView>
    decreases turns.len(),
{
    if turns.len() == 0 || turns.last().cost() > budget {
        Seq::empty()
    } else {
        seq![turns.last()] + newest_within(turns.drop_last(), budget - turns.last().cost())
    }
}

/// Costs are not negative, and the cost of two lists is the sum of theirs.
pub proof fn lemma_total_cost(a: Seq<TurnView>, b: Seq<TurnView>)
    ensures
        total_cost(a) >= 0,
        total_cost(a + b) == total_cost(a) + total_cost(b),
    decreases a.len() + b.len(),
{
    if b.len() > 0 {
        assert((a + b).drop_last() =~= a + b.drop_last());
        lemma_total_cost(a, b.drop_last());
    } else {
        assert(a + b =~= a);
        if a.len() > 0 {
            lemma_total_cost(a.drop_last(), b);
        }
    }
}

/// What is loaded within a budget fits the budget, is a run of the newest turns, and leaves out a
/// turn only where that turn would not fit.
pub proof fn law_loaded_fits_budget(turns: Seq<TurnView>, budget: int)
    requires
        budget >= 0,
    ensures
        total_cost(newest_within(turns, budget)) <= budget,
        newest_within(turns, budget).len() <= turns.len(),
        forall|i: int|
            0 <= i < newest_within(turns, budget).len() ==> #[trigger] newest_within(
                turns,
                budget,
            )[i] == turns[turns.len() - 1 - i],
        newest_within(turns, budget).len() < turns.len() ==> total_cost(
            newest_within(turns, budget),
        ) + turns[turns.len() - 1 - newest_within(turns, budget).len()].cost() > budget,
    decreases turns.len(),
{
    if turns.len() > 0 && turns.last().cost() <= budget {
        let rest = turns.drop_last();
        let left = budget - turns.last().cost();
        law_loaded_fits_budget(rest, left);
        let tail = newest_within(rest, left);
        let all = newest_within(turns, budget);
        assert(all =~= seq![turns.last()] + tail);
        lemma_total_cost(seq![turns.last()], tail);
        assert(seq![turns.last()].drop_last() =~= Seq::<TurnView>::empty());
        assert(total_cost(seq![turns.last()]) == turns.last().cost()) by {
            reveal_with_fuel(total_cost, 2);
        }
        assert forall|i: int| 0 <= i < all.len() implies #[trigger] all[i] == turns[turns.len() - 1
            - i] by {
            if i > 0 {
                assert(all[i] == tail[i - 1]);
            }
        }
    } else {
        assert(total_cost(Seq::<TurnView>::empty()) == 0);
    }
}

/// The newest turns of a chronological list, newest first, while their estimates fit `budget`.
pub fn newest_first_within(turns: &[HistoryTurn], budget: TokenBudget) -> (r: Vec<HistoryTurn>)
    ensures
        crate::text::views(r@) == newest_within(crate::text::views(turns@), budget.0 as int),
{
    let mut out: Vec<HistoryTurn> = Vec::new();
    let mut used: u32 = 0;
    let mut n: usize = turns.len();
    let ghost all = crate::text::views(turns@);
    proof {
        assert(all.take(n as int) =~= all);
        assert(crate::text::views(out@) + newest_within(all, budget.0 as int) =~= newest_within(
            all,
            budget.0 as int,
        ));
    }
    while n > 0
        invariant_except_break
            n <= turns.len(),
            used <= budget.0,
            all == crate::text::views(turns@),
            crate::text::views(out@) + newest_within(all.take(n as int), budget.0 - used)
                == newest_within(all, budget.0 as int),
        ensures
            crate::text::views(out@) == newest_within(all, budget.0 as int),
        decreases n,
    {
        let turn: &HistoryTurn = &turns[n - 1];
        let cost: u32 = turn.token_estimate();
        let ghost front = all.take(n as int);
        proof {
            assert(front.last() == turn@);
            assert(front.drop_last() =~= all.take(n - 1));
        }
        if cost > budget.0 - used {
            proof {
                assert(newest_within(front, budget.0 - used) =~= Seq::empty());
                assert(crate::text::views(out@) + Seq::<TurnView>::empty() =~= crate::text::views(
                    out@,
                ));
            }
            break;
        }
        let ghost before = crate::text::views(out@);
        out.push(turn.clone());
        proof {
            let tail = newest_within(all.take(n - 1), budget.0 - used - cost);
            assert(crate::text::views(out@) =~= before.push(turn@));
            assert(crate::text::views(out@) + tail =~= before + (seq![turn@] + tail));
        }
        used = used + cost;
        n = n - 1;
        proof {
            if n == 0 {
                assert(newest_within(all.take(0), budget.0 - used) =~= Seq::empty());
                assert(crate::text::views(out@) + Seq::<TurnView>::empty() =~= crate::text::views(
                    out@,
                ));
            }
        }
    }
    out
}

/// What a list of turns costs.
pub fn sum_estimates(turns: &[HistoryTurn]) -> (r: u32)
    requires
        total_cost(crate::text::views(turns@)) <= u32::MAX,
    ensures
        r == total_cost(crate::text::views(turns@)),
{
    let ghost all = crate::text::views(turns@);
    let mut total: u32 = 0;
    let mut i: usize = 0;
    while i < turns.len()
        invariant
            i <= turns.len(),
            all == crate::text::views(turns@),
            total_cost(all) <= u32::MAX,
            total == total_cost(all.take(i as int)),
        decreases turns.len() - i,
    {
        proof {
            let next = all.take(i + 1);
            assert(next.drop_last() =~= all.take(i as int));
            assert(next.last() == turns@[i as int]@);
            lemma_total_cost(next, all.skip(i + 1));
            lemma_total_cost(all.skip(i + 1), Seq::empty());
            assert(next + all.skip(i + 1) =~= all);
        }
        total = total + turns[i].token_estimate();
        i = i + 1;
    }
    proof {
        assert(all.take(i as int) =~= all);
    }
    total
}

/// Metadata of a list of turns for a budget.
pub fn meta_of(turns: &[HistoryTurn], budget: TokenBudget) -> (r: HistoryMeta)
    requires
        total_cost(crate::text::views(turns@)) <= u32::MAX,
    ensures
        r.turns == turns@.len(),
        r.token_estimate == total_cost(crate::text::views(turns@)),
        r.budget == budget.0,
{
    HistoryMeta { turns: turns.len(), token_estimate: sum_estimates(turns), budget: budget.0 }
}

/// A turn costs a token for every four characters, rounded down, but at least one, and four more.
pub proof fn law_cost_of_a_turn(turn: TurnView)
    requires
        turn.text.len() < 0x3_ffff_fff0,
    ensures
        turn.text.len() >= 4 ==> turn.cost() == turn.text.len() as int / 4 + 4,
        turn.text.len() < 4 ==> turn.cost() == 5,
        text_tokens(turn.text.len() as int) == turn.cost() - 4,
{
}

/// The cost of a list is the sum of its turns' costs, in whichever order they stand.
pub proof fn law_cost_of_a_list(turns: Seq<TurnView>, turn: TurnView)
    ensures
        total_cost(Seq::<TurnView>::empty()) == 0,
        total_cost(turns.push(turn)) == total_cost(turns) + turn.cost(),
        total_cost(seq![turn] + turns) == total_cost(turns) + turn.cost(),
{
    assert(turns.push(turn).drop_last() =~= turns);
    lemma_total_cost(seq![turn], turns);
    assert(seq![turn].drop_last() =~= Seq::empty());
    reveal_with_fuel(total_cost, 2);
}

/// A cost that cannot be counted is the largest that can, and no turn is free.
pub proof fn law_cost_is_never_small(turn: TurnView)
    ensures
        5 <= turn.cost() <= u32::MAX,
        text_tokens(turn.text.len() as int) + 4 > u32::MAX ==> turn.cost() == u32::MAX,
        text_tokens(turn.text.len() as int) + 4 <= u32::MAX ==> turn.cost() == text_tokens(
            turn.text.len() as int,
        ) + 4,
{
}

} // verus!
