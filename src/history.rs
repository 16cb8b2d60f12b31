//! Bounded history: the global log of broadcast lines and one private log per
//! user.

use crate::keyed::{
    has_key, key_index, key_value, keys_unique, lemma_key_index, lemma_key_push, lemma_key_update,
};
use std::collections::VecDeque;
use vstd::prelude::*;

verus! {

/// How many lines a log keeps.
pub const MAX_HISTORY_SIZE: usize = 100;

/// `lines` cut down to its last `MAX_HISTORY_SIZE` entries.
pub open spec fn keep_last(lines: Seq<Seq<char>>) -> Seq<Seq<char>> {
    if lines.len() > MAX_HISTORY_SIZE {
        lines.subrange(lines.len() - MAX_HISTORY_SIZE, lines.len() as int)
    } else {
        lines
    }
}

/// A log after `line` is appended.
pub open spec fn log_append(lines: Seq<Seq<char>>, line: Seq<char>) -> Seq<Seq<char>> {
    keep_last(lines.push(line))
}

/// A log after each of `lines` is appended in order.
pub open spec fn log_append_all(log: Seq<Seq<char>>, lines: Seq<Seq<char>>) -> Seq<Seq<char>>
    decreases lines.len(),
{
    if lines.len() == 0 {
        log
    } else {
        log_append(log_append_all(log, lines.drop_last()), lines.last())
    }
}

/// Lines joined with a newline between each two.
pub open spec fn history_text_lines(lines: Seq<Seq<char>>) -> Seq<char>
    decreases lines.len(),
{
    if lines.len() == 0 {
        Seq::empty()
    } else if lines.len() == 1 {
        lines[0]
    } else {
        history_text_lines(lines.drop_last()) + "\n"@ + lines.last()
    }
}

/// A bounded first-in first-out log of lines.
pub struct History {
    lines: VecDeque<String>,
}

impl View for History {
    type V = Seq<Seq<char>>;

    closed spec fn view(&self) -> Seq<Seq<char>> {
        self.lines@.map_values(|s: String| s@)
    }
}

impl History {
    /// A log never holds more than `MAX_HISTORY_SIZE` lines.
    pub open spec fn wf(&self) -> bool {
        self@.len() <= MAX_HISTORY_SIZE
    }

    /// An empty log.
    pub fn new() -> (r: History)
        ensures
            r.wf(),
            r@ == Seq::<Seq<char>>::empty(),
    {
        let r = History { lines: VecDeque::new() };
        assert(r@ =~= Seq::<Seq<char>>::empty());
        r
    }

    /// The number of lines held.
    pub fn len(&self) -> (r: usize)
        ensures
            r == self@.len(),
    {
        self.lines.len()
    }

    /// Appends `line`, dropping the oldest line when the log is over capacity.
    pub fn push(&mut self, line: String)
        requires
            old(self).wf(),
        ensures
            final(self).wf(),
            final(self)@ == log_append(old(self)@, line@),
    {
        let ghost before = self@;
        self.lines.push_back(line);
        assert(self@ =~= before.push(line@));
        if self.lines.len() > MAX_HISTORY_SIZE {
            self.lines.pop_front();
            assert(self@ =~= before.push(line@).subrange(1, before.len() + 1 as int));
        }
    }

    /// All lines, oldest first.
    pub fn to_vec(&self) -> (r: Vec<String>)
        ensures
            r@.map_values(|s: String| s@) == self@,
    {
        let mut r: Vec<String> = Vec::new();
        let mut i: usize = 0;
        while i < self.lines.len()
            invariant
                i <= self.lines@.len(),
                r@ == self.lines@.subrange(0, i as int),
            decreases self.lines@.len() - i,
        {
            let line = self.lines[i].clone();
            r.push(line);
            i = i + 1;
            assert(r@ =~= self.lines@.subrange(0, i as int));
        }
        assert(r@ =~= self.lines@);
        assert(r@.map_values(|s: String| s@) =~= self@);
        r
    }
}

/// The private logs as a sequence of (name, log) pairs.
pub type LogsView = Seq<(Seq<char>, Seq<Seq<char>>)>;

/// The private log of `name`; empty until the first line for that name.
pub open spec fn private_of(v: LogsView, name: Seq<char>) -> Seq<Seq<char>> {
    match key_value(v, name) {
        Some(log) => log,
        None => Seq::<Seq<char>>::empty(),
    }
}

/// The private logs after `line` is appended to the log of `name`; a log is
/// created at the end on first use.
pub open spec fn logs_append(v: LogsView, name: Seq<char>, line: Seq<char>) -> LogsView {
    if has_key(v, name) {
        let i = key_index(v, name);
        v.update(i, (name, log_append(v[i].1, line)))
    } else {
        v.push((name, seq![line]))
    }
}

/// Names are distinct and every log is within capacity.
pub open spec fn logs_wf(v: LogsView) -> bool {
    &&& keys_unique(v)
    &&& forall|i: int| 0 <= i < v.len() ==> (#[trigger] v[i]).1.len() <= MAX_HISTORY_SIZE
}

/// Appending to the log of `name` keeps the logs well formed, appends to that
/// log, and leaves every other name's log as it was.
pub proof fn lemma_logs_append(v: LogsView, name: Seq<char>, line: Seq<char>, k: Seq<char>)
    requires
        logs_wf(v),
    ensures
        logs_wf(logs_append(v, name, line)),
        private_of(logs_append(v, name, line), k) == if k == name {
            log_append(private_of(v, name), line)
        } else {
            private_of(v, k)
        },
{
    let w = logs_append(v, name, line);
    if has_key(v, name) {
        let i = key_index(v, name);
        lemma_key_index(v, i);
        lemma_key_update(v, i, log_append(v[i].1, line), k);
    } else {
        lemma_key_push(v, name, seq![line], k);
        assert(log_append(Seq::<Seq<char>>::empty(), line) =~= seq![line]);
    }
    assert forall|j: int| 0 <= j < w.len() implies (#[trigger] w[j]).1.len() <= MAX_HISTORY_SIZE by {
        if has_key(v, name) && j != key_index(v, name) {
            assert(w[j] == v[j]);
        } else if !has_key(v, name) && j < v.len() {
            assert(w[j] == v[j]);
        }
    }
}

/// One user's log, under the user's name.
pub struct PrivateLog {
    name: String,
    log: History,
}

/// The private logs of all users who ever sent, received or issued anything.
pub struct PrivateLogs {
    logs: Vec<PrivateLog>,
}

impl View for PrivateLogs {
    type V = LogsView;

    closed spec fn view(&self) -> LogsView {
        self.logs@.map_values(|e: PrivateLog| (e.name@, e.log@))
    }
}

impl PrivateLogs {
    pub open spec fn wf(&self) -> bool {
        logs_wf(self@)
    }

    /// No logs yet.
    pub fn new() -> (r: PrivateLogs)
        ensures
            r.wf(),
            r@ == Seq::<(Seq<char>, Seq<Seq<char>>)>::empty(),
    {
        let r = PrivateLogs { logs: Vec::new() };
        assert(r@ =~= Seq::<(Seq<char>, Seq<Seq<char>>)>::empty());
        r
    }

    fn position(&self, name: &String) -> (r: Option<usize>)
        requires
            self.wf(),
        ensures
            match r {
                Some(i) => i < self@.len() && self@[i as int].0 == name@ && has_key(self@, name@)
                    && key_index(self@, name@) == i,
                None => !has_key(self@, name@),
            },
    {
        let mut i: usize = 0;
        while i < self.logs.len()
            invariant
                self.wf(),
                i <= self@.len(),
                self@.len() == self.logs@.len(),
                forall|j: int| 0 <= j < i ==> self@[j].0 != name@,
            decreases self.logs@.len() - i,
        {
            if self.logs[i].name == *name {
                proof {
                    lemma_key_index(self@, i as int);
                }
                return Some(i);
            }
            i = i + 1;
        }
        None
    }

    /// Appends `line` to the log of `name`, creating the log on first use.
    pub fn append(&mut self, name: &String, line: String)
        requires
            old(self).wf(),
        ensures
            final(self).wf(),
            final(self)@ == logs_append(old(self)@, name@, line@),
    {
        let ghost before = self@;
        proof {
            lemma_logs_append(before, name@, line@, name@);
        }
        match self.position(name) {
            Some(i) => {
                let mut entry = self.logs.remove(i);
                assert(entry.log@ == before[i as int].1);
                entry.log.push(line);
                self.logs.insert(i, entry);
                assert(self@ =~= logs_append(before, name@, line@));
            },
            None => {
                let mut log = History::new();
                log.push(line);
                assert(log@ =~= seq![line@]);
                self.logs.push(PrivateLog { name: name.clone(), log });
                assert(self@ =~= logs_append(before, name@, line@));
            },
        }
    }

    /// The lines of the log of `name`, oldest first.
    pub fn lines_of(&self, name: &String) -> (r: Vec<String>)
        requires
            self.wf(),
        ensures
            r@.map_values(|s: String| s@) == private_of(self@, name@),
    {
        match self.position(name) {
            Some(i) => {
                proof {
                    lemma_key_index(self@, i as int);
                }
                self.logs[i].log.to_vec()
            },
            None => {
                let r: Vec<String> = Vec::new();
                assert(r@.map_values(|s: String| s@) =~= Seq::<Seq<char>>::empty());
                r
            },
        }
    }
}

/// Appending one line more than the capacity to a full log drops exactly the
/// oldest line: the log holds the last `MAX_HISTORY_SIZE` lines appended.
pub proof fn lemma_bounded_fifo(lines: Seq<Seq<char>>)
    requires
        lines.len() == MAX_HISTORY_SIZE + 1,
    ensures
        log_append_all(Seq::<Seq<char>>::empty(), lines) == lines.subrange(1, lines.len() as int),
{
    lemma_append_all_keeps_last(lines);
}

/// Appending lines to an empty log one at a time leaves the last
/// `MAX_HISTORY_SIZE` of them, in the order they came.
pub proof fn lemma_append_all_keeps_last(lines: Seq<Seq<char>>)
    ensures
        log_append_all(Seq::<Seq<char>>::empty(), lines) == keep_last(lines),
    decreases lines.len(),
{
    if lines.len() > 0 {
        let init = lines.drop_last();
        lemma_append_all_keeps_last(init);
        assert(log_append(keep_last(init), lines.last()) =~= keep_last(lines));
    } else {
        assert(lines =~= Seq::<Seq<char>>::empty());
    }
}

} // verus!
