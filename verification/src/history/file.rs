//! History kept as a log of lines, one record a line, pruned to a token budget.
use vstd::prelude::*;
use vstd::string::*;

use super::{sum_estimates, HistoryTurn, TokenBudget, TurnView};

verus! {

/// A line that holds more than white space.
pub open spec fn is_record(line: Seq<char>) -> bool {
    crate::text::trimmed(line).len() > 0
}

/// The lines of a log that hold a record.
pub open spec fn record_lines(contents: Seq<char>) -> Seq<Seq<char>> {
    crate::text::lines_of(contents).filter(|l: Seq<char>| is_record(l))
}

/// The lines of a log that hold a record, in order. Blank lines are skipped.
pub fn log_lines(contents: &str) -> (r: Vec<String>)
    ensures
        crate::text::views(r@) == record_lines(contents@),
{
    let all: Vec<String> = crate::text::lines(contents);
    let ghost full = crate::text::lines_of(contents@);
    let ghost keep = |l: Seq<char>| is_record(l);
    let mut out: Vec<String> = Vec::new();
    let mut i: usize = 0;
    proof {
        assert(full.take(0) =~= Seq::empty());
        reveal(Seq::filter);
        assert(crate::text::views(out@) =~= Seq::empty());
    }
    while i < all.len()
        invariant
            i <= all.len(),
            crate::text::views(all@) == full,
            keep == (|l: Seq<char>| is_record(l)),
            crate::text::views(out@) == full.take(i as int).filter(keep),
        decreases all.len() - i,
    {
        let line: &String = &all[i];
        let t: String = crate::text::trim(line.as_str());
        let ghost before = crate::text::views(out@);
        if !t.as_str().is_empty() {
            out.push(line.clone());
        }
        i = i + 1;
        proof {
            reveal(Seq::filter);
            let next = full.take(i as int);
            assert(next.drop_last() =~= full.take(i - 1));
            assert(next.last() == line@);
            if is_record(line@) {
                assert(crate::text::views(out@) =~= before.push(line@));
            } else {
                assert(crate::text::views(out@) =~= before);
            }
        }
    }
    proof {
        assert(full.take(i as int) =~= full);
    }
    out
}

/// The records that could be read, in order.
pub open spec fn readable(parsed: Seq<Option<HistoryTurn>>) -> Seq<TurnView>
    decreases parsed.len(),
{
    if parsed.len() == 0 {
        Seq::empty()
    } else {
        match parsed.last() {
            Some(t) => readable(parsed.drop_last()).push(t@),
            None => readable(parsed.drop_last()),
        }
    }
}

/// The turns of a log from the outcome of reading each of its lines: a line that cannot be read is
/// skipped.
pub fn parsed_turns(parsed: &[Option<HistoryTurn>]) -> (r: Vec<HistoryTurn>)
    ensures
        crate::text::views(r@) == readable(parsed@),
{
    let mut out: Vec<HistoryTurn> = Vec::new();
    let mut i: usize = 0;
    proof {
        assert(crate::text::views(out@) =~= readable(parsed@.take(0)));
    }
    while i < parsed.len()
        invariant
            i <= parsed.len(),
            crate::text::views(out@) == readable(parsed@.take(i as int)),
        decreases parsed.len() - i,
    {
        let ghost before = crate::text::views(out@);
        match &parsed[i] {
            Some(t) => {
                out.push(t.clone());
                assert(crate::text::views(out@) =~= before.push(t@));
            },
            None => {},
        }
        i = i + 1;
        proof {
            assert(parsed@.take(i as int).drop_last() =~= parsed@.take(i - 1));
        }
    }
    proof {
        assert(parsed@.take(i as int) =~= parsed@);
    }
    out
}

/// One record as it stands in a log: the record and a line feed.
pub fn log_line(record: &str) -> (r: String)
    ensures
        r@ == record@.push('\n'),
{
    let mut out: String = record.to_owned();
    out.push('\n');
    out
}

/// A whole log: every record followed by a line feed.
pub fn log_text(records: &[String]) -> (r: String)
    ensures
        r@ == crate::text::with_line_feeds(crate::text::views(records@)),
{
    let ghost all = crate::text::views(records@);
    let mut out: String = String::new();
    let mut i: usize = 0;
    proof {
        assert(all.skip(0) =~= all);
        assert(out@ + crate::text::with_line_feeds(all) =~= crate::text::with_line_feeds(all));
    }
    while i < records.len()
        invariant
            i <= records.len(),
            all == crate::text::views(records@),
            out@ + crate::text::with_line_feeds(all.skip(i as int))
                == crate::text::with_line_feeds(all),
        decreases records.len() - i,
    {
        let ghost before = out@;
        out.append(records[i].as_str());
        out.push('\n');
        proof {
            let rest = all.skip(i as int);
            assert(rest.drop_first() =~= all.skip(i + 1));
            assert(rest[0] == records@[i as int]@);
            let tail = crate::text::with_line_feeds(all.skip(i + 1));
            assert(out@ + tail =~= before + (rest[0] + seq!['\n'] + tail));
        }
        i = i + 1;
    }
    proof {
        assert(all.skip(i as int) =~= Seq::empty());
        assert(out@ + Seq::<char>::empty() =~= out@);
    }
    out
}

/// Reading a log gives back the records that were written to it.
pub proof fn law_log_round_trip(records: Seq<Seq<char>>)
    requires
        forall|i: int|
            0 <= i < records.len() ==> is_record(#[trigger] records[i])
                && crate::text::is_one_line(records[i]),
    ensures
        record_lines(crate::text::with_line_feeds(records)) == records,
{
    assert forall|i: int| 0 <= i < records.len() implies crate::text::is_one_line(
        #[trigger] records[i],
    ) by {
        assert(is_record(records[i]));
    }
    crate::text::law_lines_round_trip(records);
    lemma_all_kept(records);
}

proof fn lemma_all_kept(records: Seq<Seq<char>>)
    requires
        forall|i: int| 0 <= i < records.len() ==> is_record(#[trigger] records[i]),
    ensures
        records.filter(|l: Seq<char>| is_record(l)) == records,
    decreases records.len(),
{
    reveal(Seq::filter);
    if records.len() > 0 {
        let front = records.drop_last();
        assert forall|i: int| 0 <= i < front.len() implies is_record(#[trigger] front[i]) by {
            assert(front[i] == records[i]);
        }
        lemma_all_kept(front);
        assert(is_record(records.last()));
        assert(front.push(records.last()) =~= records);
    }
}

/// The newest turns that fit `budget`, oldest first: old turns are dropped until the rest fits.
pub open spec fn pruned(turns: Seq<TurnView>, budget: int) -> Seq<TurnView>
    decreases turns.len(),
{
    if turns.len() == 0 || super::total_cost(turns) <= budget {
        turns
    } else {
        pruned(turns.drop_first(), budget)
    }
}

/// Pruned history fits the budget, is the newest part of what there was, and no turn more than
/// needed was dropped.
pub proof fn law_pruned_fits_budget(turns: Seq<TurnView>, budget: int)
    requires
        budget >= 0,
    ensures
        super::total_cost(pruned(turns, budget)) <= budget,
        pruned(turns, budget).len() <= turns.len(),
        pruned(turns, budget) == turns.skip(turns.len() - pruned(turns, budget).len()),
        pruned(turns, budget).len() < turns.len() ==> super::total_cost(
            turns.skip(turns.len() - pruned(turns, budget).len() - 1),
        ) > budget,
    decreases turns.len(),
{
    if turns.len() == 0 || super::total_cost(turns) <= budget {
        assert(turns.skip(0) =~= turns);
        assert(super::total_cost(Seq::<TurnView>::empty()) == 0);
    } else {
        let rest = turns.drop_first();
        law_pruned_fits_budget(rest, budget);
        let p = pruned(rest, budget);
        assert(rest.skip(rest.len() - p.len()) =~= turns.skip(turns.len() - p.len()));
        if p.len() < rest.len() {
            assert(rest.skip(rest.len() - p.len() - 1) =~= turns.skip(turns.len() - p.len() - 1));
        } else {
            assert(turns.skip(0) =~= turns);
        }
    }
}

/// A store whose log lives at `path` and is pruned to `budget` on every append.
#[derive(Debug)]
pub struct JsonlHistory {
    path: String,
    budget: TokenBudget,
}

impl JsonlHistory {
    /// Where the log lives.
    pub closed spec fn path(self) -> Seq<char> {
        self.path@
    }

    /// The budget that bounds the log.
    pub closed spec fn budget(self) -> TokenBudget {
        self.budget
    }

    /// A store writing to `path` and pruning to `budget`.
    #[must_use]
    pub fn new(path: String, budget: TokenBudget) -> (r: Self)
        ensures
            r.path() == path@,
            r.budget() == budget,
    {
        JsonlHistory { path, budget }
    }

    /// Where the log lives.
    pub fn log_path(&self) -> (r: &str)
        ensures
            r@ == self.path(),
    {
        self.path.as_str()
    }

    /// Drop the oldest turns until the rest fits `budget`.
    pub fn prune_to_budget(turns: &mut Vec<HistoryTurn>, budget: TokenBudget)
        requires
            super::total_cost(crate::text::views(old(turns)@)) <= u32::MAX,
        ensures
            crate::text::views(final(turns)@) == pruned(crate::text::views(old(turns)@), budget.0 as int),
    {
        let ghost all = crate::text::views(turns@);
        let mut total: u32 = sum_estimates(turns.as_slice());
        let mut drop_count: usize = 0;
        proof {
            assert(all.skip(0) =~= all);
        }
        while drop_count < turns.len() && total > budget.0
            invariant
                drop_count <= turns.len(),
                turns@ == old(turns)@,
                all == crate::text::views(turns@),
                total == super::total_cost(all.skip(drop_count as int)),
                pruned(all.skip(drop_count as int), budget.0 as int) == pruned(
                    all,
                    budget.0 as int,
                ),
            decreases turns.len() - drop_count,
        {
            proof {
                let rest = all.skip(drop_count as int);
                let one = seq![rest[0]];
                super::lemma_total_cost(one, rest.drop_first());
                super::lemma_total_cost(rest.drop_first(), Seq::empty());
                assert(one + rest.drop_first() =~= rest);
                assert(one.drop_last() =~= Seq::<TurnView>::empty());
                assert(super::total_cost(one) == rest[0].cost()) by {
                    reveal_with_fuel(super::total_cost, 2);
                }
                assert(rest.drop_first() =~= all.skip(drop_count + 1));
                assert(rest[0] == turns@[drop_count as int]@);
            }
            total = total - turns[drop_count].token_estimate();
            drop_count = drop_count + 1;
        }
        let kept: Vec<HistoryTurn> = turns.split_off(drop_count);
        *turns = kept;
        proof {
            assert(crate::text::views(turns@) =~= all.skip(drop_count as int));
        }
    }

    /// The turns to write back after `turn` was added to `turns`.
    pub fn append(&self, turns: Vec<HistoryTurn>, turn: HistoryTurn) -> (r: Vec<HistoryTurn>)
        requires
            super::total_cost(crate::text::views(turns@).push(turn@)) <= u32::MAX,
        ensures
            crate::text::views(r@) == pruned(crate::text::views(turns@).push(turn@), self.budget().0 as int),
    {
        let mut all: Vec<HistoryTurn> = turns;
        let ghost before = crate::text::views(all@);
        all.push(turn);
        assert(crate::text::views(all@) =~= before.push(turn@));
        JsonlHistory::prune_to_budget(&mut all, self.budget);
        all
    }
}

/// A directory and a plain file name in it as one path.
pub open spec fn path_in(dir: Seq<char>, name: Seq<char>) -> Seq<char> {
    if dir.len() == 0 || dir.last() == '/' {
        dir + name
    } else {
        dir + seq!['/'] + name
    }
}

/// A directory and a plain file name in it as one path.
pub fn join_path(dir: &str, name: &str) -> (r: String)
    ensures
        r@ == path_in(dir@, name@),
{
    let mut out: String = dir.to_owned();
    let n: usize = dir.unicode_len();
    if n > 0 && dir.get_char(n - 1) != '/' {
        out.push('/');
        assert(dir@.push('/') =~= dir@ + seq!['/']);
    }
    out.append(name);
    out
}

/// The log of the one current conversation inside a history directory.
#[must_use]
pub fn current_conversation_path(history_dir: &str) -> (r: String)
    ensures
        r@ == path_in(history_dir@, "current.jsonl"@),
{
    join_path(history_dir, "current.jsonl")
}

/// A log is read line by line: a line that holds a record gives it without its line ending, and a line
/// of white space gives nothing, wherever it stands.
pub proof fn law_log_is_read_by_line(line: Seq<char>, rest: Seq<char>)
    requires
        crate::text::is_one_line(line),
    ensures
        record_lines(line + seq!['\n'] + rest) == if crate::text::trimmed(line).len() > 0 {
            seq![line] + record_lines(rest)
        } else {
            record_lines(rest)
        },
        record_lines(Seq::<char>::empty()).len() == 0,
{
    let keep = |l: Seq<char>| is_record(l);
    crate::text::law_lines_are_cut_at_feeds(line, rest);
    let tail = crate::text::lines_of(rest);
    Seq::<Seq<char>>::filter_distributes_over_add(seq![line], tail, keep);
    assert(seq![line].drop_last() =~= Seq::empty());
    reveal_with_fuel(Seq::filter, 2);
    assert(Seq::<Seq<char>>::empty() + record_lines(rest) =~= record_lines(rest));
    assert(crate::text::lines_of(Seq::<char>::empty()) =~= Seq::empty());
}

/// Of the records of a log every one that can be read becomes a turn, in order, and no other does.
pub proof fn law_readable_turns_stay(parsed: Seq<Option<HistoryTurn>>, turn: HistoryTurn)
    ensures
        readable(Seq::<Option<HistoryTurn>>::empty()).len() == 0,
        readable(parsed.push(Some(turn))) == readable(parsed).push(turn@),
        readable(parsed.push(None)) == readable(parsed),
{
    assert(parsed.push(Some(turn)).drop_last() =~= parsed);
    assert(parsed.push(None).drop_last() =~= parsed);
}

/// A file stands in its directory behind one slash: none is added where the directory ends in one, nor
/// where there is no directory.
pub proof fn law_path_in_a_directory(dir: Seq<char>, name: Seq<char>)
    ensures
        path_in(Seq::empty(), name) == name,
        path_in(dir.push('/'), name) == dir + seq!['/'] + name,
        dir.len() > 0 && dir.last() != '/' ==> path_in(dir, name) == dir + seq!['/'] + name,
{
    assert(path_in(Seq::empty(), name) =~= name);
    assert(path_in(dir.push('/'), name) =~= dir + seq!['/'] + name);
}

} // verus!
