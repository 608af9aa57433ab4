//! The bounded history of submitted command lines, oldest first.
use std::collections::VecDeque;
use vstd::prelude::*;
use crate::tokenize::views;

verus! {

broadcast use vstd::std_specs::vecdeque::group_vec_dequeue_axioms;

/// The history after recording `line` with capacity `cap`: the line goes to
/// the back, and if the result is longer than `cap`, exactly one entry leaves
/// from the front.
pub open spec fn record_spec(h: Seq<Seq<char>>, line: Seq<char>, cap: nat) -> Seq<Seq<char>> {
    let p = h.push(line);
    if p.len() > cap {
        p.drop_first()
    } else {
        p
    }
}

/// The history after recording each of `lines` in order, starting from `h`,
/// with capacity `cap` every time.
pub open spec fn record_all_spec(h: Seq<Seq<char>>, lines: Seq<Seq<char>>, cap: nat) -> Seq<
    Seq<char>,
>
    decreases lines.len(),
{
    if lines.len() == 0 {
        h
    } else {
        record_spec(record_all_spec(h, lines.drop_last(), cap), lines.last(), cap)
    }
}

/// Recording lines into an empty history keeps the last `cap` of them, or
/// all of them while there are no more than `cap`, in their order.
pub proof fn lemma_record_all_keeps_suffix(lines: Seq<Seq<char>>, cap: nat)
    ensures
        record_all_spec(Seq::empty(), lines, cap) == (if lines.len() > cap {
            lines.subrange(lines.len() - cap, lines.len() as int)
        } else {
            lines
        }),
    decreases lines.len(),
{
    if lines.len() > 0 {
        let init = lines.drop_last();
        lemma_record_all_keeps_suffix(init, cap);
        if init.len() > cap {
            assert(init.subrange(init.len() - cap, init.len() as int).push(lines.last()).drop_first()
                =~= lines.subrange(lines.len() - cap, lines.len() as int));
        } else if lines.len() > cap {
            assert(init.push(lines.last()).drop_first() =~= lines.subrange(
                lines.len() - cap,
                lines.len() as int,
            ));
        } else {
            assert(init.push(lines.last()) =~= lines);
        }
    }
}

/// With capacity `cap`, after recording more than `cap` lines in order into
/// an empty history, the history holds exactly the last `cap` of them, oldest
/// first.
pub proof fn lemma_history_fifo_bound(lines: Seq<Seq<char>>, cap: nat)
    requires
        lines.len() > cap,
    ensures
        record_all_spec(Seq::empty(), lines, cap) == lines.subrange(
            lines.len() - cap,
            lines.len() as int,
        ),
{
    lemma_record_all_keeps_suffix(lines, cap);
}

/// Previously submitted command lines, oldest first.
pub struct History {
    entries: VecDeque<String>,
}

impl View for History {
    type V = Seq<Seq<char>>;

    closed spec fn view(&self) -> Seq<Seq<char>> {
        views(self.entries@)
    }
}

impl History {
    /// An empty history.
    pub fn new() -> (r: History)
        ensures
            r@ == Seq::<Seq<char>>::empty(),
    {
        let r = History { entries: VecDeque::new() };
        assert(r@ =~= Seq::<Seq<char>>::empty());
        r
    }

    /// The number of entries.
    pub fn len(&self) -> (r: usize)
        ensures
            r == self@.len(),
    {
        self.entries.len()
    }

    /// The entry at position `i`, counted from the oldest.
    pub fn get(&self, i: usize) -> (r: &String)
        requires
            i < self@.len(),
        ensures
            r@ == self@[i as int],
    {
        &self.entries[i]
    }

    /// Appends `line` at the back; if the history then holds more than `cap`
    /// entries, removes the oldest one.
    pub fn record(&mut self, line: String, cap: usize)
        ensures
            final(self)@ == record_spec(old(self)@, line@, cap as nat),
    {
        let ghost before = self.entries@;
        self.entries.push_back(line);
        assert(views(before.push(line)) =~= views(before).push(line@));
        if self.entries.len() > cap {
            let ghost pushed = self.entries@;
            let _ = self.entries.pop_front();
            assert(views(pushed.subrange(1, pushed.len() as int)) =~= views(pushed).drop_first());
        }
    }

    /// Every entry, oldest first.
    pub fn entries(&self) -> (r: Vec<String>)
        ensures
            views(r@) == self@,
    {
        let mut r: Vec<String> = Vec::new();
        let n = self.entries.len();
        let mut i: usize = 0;
        while i < n
            invariant
                n == self.entries@.len(),
                i <= n,
                views(r@) == views(self.entries@).subrange(0, i as int),
            decreases n - i,
        {
            let e = self.entries[i].clone();
            assert(views(r@.push(e)) =~= views(r@).push(e@));
            assert(views(self.entries@).subrange(0, i + 1) =~= views(self.entries@).subrange(
                0,
                i as int,
            ).push(e@));
            r.push(e);
            i = i + 1;
        }
        assert(views(self.entries@).subrange(0, n as int) =~= views(self.entries@));
        r
    }
}

} // verus!
